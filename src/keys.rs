//! Expanded secret keys and verifying keys.
use vstd::prelude::*;
use crate::bytes::{array_from, clamp_integer, clamped, group_order, le_value};
use crate::group::{
    base_point_multiple, ct_bytes_eq, decodes_as_point, mul_base_compressed, point_decodes,
    reduce_mod_order, wipe, GroupScalar,
};
use crate::signature::SignatureError;

verus! {

/// The signing scalar that 64 bytes of secret material expand to: the first
/// 32 bytes, clamped, then reduced modulo the group order.
pub open spec fn secret_scalar_of(bytes: Seq<u8>) -> nat {
    le_value(clamped(bytes.subrange(0, 32))) % group_order()
}

/// The secret scalar and the nonce-domain prefix used to make signatures.
///
/// Both fields are overwritten with zeroes when the key is dropped.
pub struct ExpandedSecretKey {
    /// The secret scalar used for signing.
    pub scalar: GroupScalar,
    /// The domain separator hashed with the message to derive each nonce.
    pub hash_prefix: [u8; 32],
}

impl ExpandedSecretKey {
    /// Expands 64 bytes of secret material. The first half is clamped and
    /// reduced modulo L to give the scalar; the second half is kept verbatim
    /// as the hash prefix.
    ///
    /// Reducing the clamped integer changes it only by a multiple of L, so the
    /// public key and the signatures are those of RFC 8032, which uses the
    /// clamped integer as it is.
    pub fn from_bytes(bytes: &[u8; 64]) -> (r: ExpandedSecretKey)
        ensures
            r.scalar@ == secret_scalar_of(bytes@),
            r.hash_prefix@ == bytes@.subrange(32, 64),
    {
        ExpandedSecretKey::expand(bytes)
    }

    fn expand(bytes: &[u8]) -> (r: ExpandedSecretKey)
        requires
            bytes@.len() == 64,
        ensures
            r.scalar@ == secret_scalar_of(bytes@),
            r.hash_prefix@ == bytes@.subrange(32, 64),
    {
        let scalar_bytes: [u8; 32] = array_from(bytes, 0);
        let hash_prefix: [u8; 32] = array_from(bytes, 32);
        let scalar = reduce_mod_order(clamp_integer(scalar_bytes));
        ExpandedSecretKey { scalar, hash_prefix }
    }

    /// Expands secret material given as a slice, which must hold exactly 64
    /// bytes.
    pub fn from_slice(bytes: &[u8]) -> (r: Result<ExpandedSecretKey, SignatureError>)
        ensures
            r is Ok <==> bytes@.len() == 64,
            r matches Ok(k) ==> k.scalar@ == secret_scalar_of(bytes@) && k.hash_prefix@
                == bytes@.subrange(32, 64),
            r matches Err(e) ==> e == SignatureError::InvalidLength,
    {
        if bytes.len() != 64 {
            return Err(SignatureError::InvalidLength);
        }
        Ok(ExpandedSecretKey::expand(bytes))
    }

    /// Overwrites both the scalar and the hash prefix with zeroes.
    pub fn zeroize(&mut self)
        ensures
            final(self).scalar@ == 0,
            forall|i: int| 0 <= i < 32 ==> final(self).hash_prefix@[i] == 0,
        opens_invariants none
        no_unwind
    {
        self.scalar.zeroize();
        wipe(&mut self.hash_prefix);
    }
}

impl Drop for ExpandedSecretKey {
    fn drop(&mut self)
        opens_invariants none
        no_unwind
    {
        self.zeroize();
    }
}

impl PartialEq for ExpandedSecretKey {
    /// Compares both fields in time independent of their values.
    fn eq(&self, other: &ExpandedSecretKey) -> (r: bool)
        ensures
            r == (self.scalar@ == other.scalar@ && self.hash_prefix@ == other.hash_prefix@),
    {
        let same_scalar = self.scalar.ct_eq(&other.scalar);
        let same_prefix = ct_bytes_eq(&self.hash_prefix, &other.hash_prefix);
        same_scalar && same_prefix
    }
}

impl vstd::std_specs::cmp::PartialEqSpecImpl for ExpandedSecretKey {
    open spec fn obeys_eq_spec() -> bool {
        true
    }

    open spec fn eq_spec(&self, other: &ExpandedSecretKey) -> bool {
        self.scalar@ == other.scalar@ && self.hash_prefix@ == other.hash_prefix@
    }
}

impl Eq for ExpandedSecretKey {
}

impl<'a> TryFrom<&'a [u8]> for ExpandedSecretKey {
    type Error = SignatureError;

    /// Expands secret material given as a slice of exactly 64 bytes.
    fn try_from(bytes: &'a [u8]) -> (r: Result<ExpandedSecretKey, SignatureError>) {
        let r = ExpandedSecretKey::from_slice(bytes);
        proof {
            if r is Ok {
                let k = r->Ok_0;
                let c = choose|c: ExpandedSecretKey|
                    #[trigger] c.scalar.view() == secret_scalar_of(bytes@) && c.hash_prefix@
                        == bytes@.subrange(32, 64);
                k.scalar.lemma_eq_by_value(&c.scalar);
                assert(k.hash_prefix =~= c.hash_prefix);
            }
        }
        r
    }
}

impl<'a> vstd::std_specs::convert::TryFromSpecImpl<&'a [u8]> for ExpandedSecretKey {
    open spec fn obeys_try_from_spec() -> bool {
        true
    }

    open spec fn try_from_spec(bytes: &'a [u8]) -> Result<ExpandedSecretKey, SignatureError> {
        if bytes@.len() == 64 {
            Ok(
                choose|c: ExpandedSecretKey|
                    #[trigger] c.scalar.view() == secret_scalar_of(bytes@) && c.hash_prefix@
                        == bytes@.subrange(32, 64),
            )
        } else {
            Err(SignatureError::InvalidLength)
        }
    }
}

/// A public key: the compressed encoding of a curve point.
pub struct VerifyingKey {
    compressed: [u8; 32],
}

impl View for VerifyingKey {
    type V = Seq<u8>;

    closed spec fn view(&self) -> Seq<u8> {
        self.compressed@
    }
}

impl VerifyingKey {
    #[verifier::type_invariant]
    closed spec fn decodes(&self) -> bool {
        point_decodes(self.compressed@)
    }

    /// The verifying key of an expanded secret key: [scalar]B, compressed.
    pub fn from_expanded(esk: &ExpandedSecretKey) -> (r: VerifyingKey)
        ensures
            r@ == base_point_multiple(esk.scalar@),
            esk.scalar@ < group_order(),
    {
        proof {
            use_type_invariant(&esk.scalar);
        }
        VerifyingKey { compressed: mul_base_compressed(&esk.scalar) }
    }

    /// Reads a verifying key from its compressed encoding, which must decode
    /// to a curve point.
    pub fn from_bytes(bytes: &[u8; 32]) -> (r: Result<VerifyingKey, SignatureError>)
        ensures
            r is Ok <==> point_decodes(bytes@),
            r matches Ok(vk) ==> vk@ == bytes@,
            r matches Err(e) ==> e == SignatureError::InvalidSignature,
    {
        if decodes_as_point(bytes) {
            Ok(VerifyingKey { compressed: *bytes })
        } else {
            Err(SignatureError::InvalidSignature)
        }
    }

    /// The compressed encoding.
    pub fn as_bytes(&self) -> (r: &[u8; 32])
        ensures
            r@ == self@,
            point_decodes(self@),
    {
        proof {
            use_type_invariant(self);
        }
        &self.compressed
    }

    /// The compressed encoding.
    pub fn to_bytes(&self) -> (r: [u8; 32])
        ensures
            r@ == self@,
    {
        self.compressed
    }
}

impl<'a> From<&'a ExpandedSecretKey> for VerifyingKey {
    fn from(esk: &'a ExpandedSecretKey) -> (r: VerifyingKey) {
        let r = VerifyingKey::from_expanded(esk);
        proof {
            assert(r.view() == base_point_multiple(esk.scalar@));
            let vk = choose|vk: VerifyingKey| #[trigger] vk.view() == base_point_multiple(esk.scalar@);
            assert(r.compressed =~= vk.compressed);
        }
        r
    }
}

impl<'a> vstd::std_specs::convert::FromSpecImpl<&'a ExpandedSecretKey> for VerifyingKey {
    open spec fn obeys_from_spec() -> bool {
        true
    }

    closed spec fn from_spec(esk: &'a ExpandedSecretKey) -> VerifyingKey {
        choose|vk: VerifyingKey| #[trigger] vk.view() == base_point_multiple(esk.scalar@)
    }
}

} // verus!
