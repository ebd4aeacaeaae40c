//! Signatures as byte values, and the errors of this library.
use vstd::prelude::*;
use crate::bytes::{array_from, bytes_eq};

verus! {

/// What can go wrong when parsing keys or signatures, signing, or verifying.
#[derive(Clone, Copy, Debug, PartialEq, Eq, Structural)]
pub enum SignatureError {
    /// A key or a signature was given with the wrong number of bytes.
    InvalidLength,
    /// A context string was longer than 255 bytes.
    ContextTooLong,
    /// A caller's update function could not supply the message.
    CallbackFailure,
    /// The signature does not verify, or an encoding in it is not canonical.
    InvalidSignature,
}

/// An Ed25519 signature: the compressed commitment point R and the
/// little-endian response scalar s. Parsing does not check s; verification
/// rejects any s that is not below the group order.
#[derive(Clone, Copy, Debug)]
pub struct Signature {
    pub r_bytes: [u8; 32],
    pub s_bytes: [u8; 32],
}

impl Signature {
    /// The 64-byte encoding: R, then s.
    pub open spec fn encoding(&self) -> Seq<u8> {
        self.r_bytes@ + self.s_bytes@
    }

    /// Splits 64 bytes into R (the first 32) and s (the last 32).
    pub fn from_bytes(bytes: &[u8; 64]) -> (r: Signature)
        ensures
            r.encoding() == bytes@,
    {
        let sig = Signature {
            r_bytes: array_from(bytes, 0),
            s_bytes: array_from(bytes, 32),
        };
        assert(sig.encoding() =~= bytes@);
        sig
    }

    /// Parses a signature from a slice, which must hold exactly 64 bytes.
    pub fn from_slice(bytes: &[u8]) -> (r: Result<Signature, SignatureError>)
        ensures
            r is Ok <==> bytes@.len() == 64,
            r matches Ok(sig) ==> sig.encoding() == bytes@,
            r matches Err(e) ==> e == SignatureError::InvalidLength,
    {
        if bytes.len() != 64 {
            return Err(SignatureError::InvalidLength);
        }
        let sig = Signature {
            r_bytes: array_from(bytes, 0),
            s_bytes: array_from(bytes, 32),
        };
        assert(sig.encoding() =~= bytes@);
        Ok(sig)
    }

    /// The 64-byte encoding: R, then s.
    pub fn to_bytes(&self) -> (r: [u8; 64])
        ensures
            r@ == self.encoding(),
    {
        let mut r = [0u8; 64];
        let mut i: usize = 0;
        while i < 32
            invariant
                0 <= i <= 32,
                r@.len() == 64,
                forall|j: int| 0 <= j < i ==> r@[j] == self.r_bytes@[j],
                forall|j: int| 0 <= j < i ==> r@[32 + j] == self.s_bytes@[j],
            decreases 32 - i,
        {
            r[i] = self.r_bytes[i];
            r[32 + i] = self.s_bytes[i];
            i = i + 1;
        }
        assert(r@ =~= self.encoding());
        r
    }
}

impl PartialEq for Signature {
    fn eq(&self, other: &Signature) -> (r: bool)
        ensures
            r == (self.encoding() == other.encoding()),
    {
        let r = bytes_eq(&self.r_bytes, &other.r_bytes) && bytes_eq(&self.s_bytes, &other.s_bytes);
        proof {
            if self.encoding() == other.encoding() {
                assert(self.r_bytes@ =~= self.encoding().subrange(0, 32));
                assert(other.r_bytes@ =~= other.encoding().subrange(0, 32));
                assert(self.s_bytes@ =~= self.encoding().subrange(32, 64));
                assert(other.s_bytes@ =~= other.encoding().subrange(32, 64));
            }
        }
        r
    }
}

impl vstd::std_specs::cmp::PartialEqSpecImpl for Signature {
    open spec fn obeys_eq_spec() -> bool {
        true
    }

    open spec fn eq_spec(&self, other: &Signature) -> bool {
        self.encoding() == other.encoding()
    }
}

impl Eq for Signature {
}

} // verus!
