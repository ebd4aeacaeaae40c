//! Scalars modulo the group order, and the group operations that signing and
//! verification need, provided by curve25519-dalek.
use vstd::prelude::*;
use curve25519_dalek::edwards::{CompressedEdwardsY, EdwardsPoint};
use curve25519_dalek::scalar::Scalar;
use crate::bytes::{group_order, le_value, lemma_le_value_injective};

verus! {

/// An integer modulo the group order L, held as its canonical 32-byte
/// little-endian encoding.
pub struct GroupScalar {
    bytes: [u8; 32],
}

impl View for GroupScalar {
    type V = nat;

    closed spec fn view(&self) -> nat {
        le_value(self.bytes@)
    }
}

impl GroupScalar {
    /// Every scalar is below the group order.
    #[verifier::type_invariant]
    pub open spec fn is_canonical(&self) -> bool {
        self@ < group_order()
    }

    /// The canonical little-endian encoding.
    pub fn to_bytes(&self) -> (r: [u8; 32])
        ensures
            le_value(r@) == self@,
            self@ < group_order(),
    {
        proof {
            use_type_invariant(self);
        }
        self.bytes
    }

    /// Two scalars are equal exactly when their values are.
    pub proof fn lemma_eq_by_value(&self, other: &GroupScalar)
        requires
            self@ == other@,
        ensures
            *self == *other,
    {
        lemma_le_value_injective(self.bytes@, other.bytes@);
        assert(self.bytes == other.bytes);
    }

    /// Whether two scalars are equal, in time independent of their values.
    pub fn ct_eq(&self, other: &GroupScalar) -> (r: bool)
        ensures
            r == (self@ == other@),
    {
        let r = ct_bytes_eq(&self.bytes, &other.bytes);
        proof {
            if self@ == other@ {
                lemma_le_value_injective(self.bytes@, other.bytes@);
            }
        }
        r
    }

    /// Overwrites the scalar with zero, through writes that the compiler may
    /// not remove.
    pub fn zeroize(&mut self)
        ensures
            final(self)@ == 0,
        opens_invariants none
        no_unwind
    {
        proof {
            assert forall|b: Seq<u8>| (forall|i: int| 0 <= i < b.len() ==> b[i] == 0) implies
                #[trigger] le_value(b) == 0 by {
                lemma_le_value_zeros(b);
            }
        }
        wipe(&mut self.bytes);
    }
}

proof fn lemma_le_value_zeros(b: Seq<u8>)
    requires
        forall|i: int| 0 <= i < b.len() ==> b[i] == 0,
    ensures
        le_value(b) == 0,
    decreases b.len(),
{
    if b.len() > 0 {
        lemma_le_value_zeros(b.drop_first());
    }
}

/// Relies on subtle's `ConstantTimeEq` for slices: true exactly when the
/// bytes are equal, in time independent of their values.
#[verifier::external_body]
pub(crate) fn ct_bytes_eq(a: &[u8; 32], b: &[u8; 32]) -> (r: bool)
    ensures
        r == (a@ == b@),
{
    subtle::ConstantTimeEq::ct_eq(&a[..], &b[..]).into()
}

/// Relies on zeroize's `Zeroize` for byte arrays: every byte is set to zero
/// by volatile writes.
#[verifier::external_body]
pub(crate) fn wipe(b: &mut [u8; 32])
    ensures
        forall|i: int| 0 <= i < 32 ==> final(b)@[i] == 0,
    opens_invariants none
    no_unwind
{
    zeroize::Zeroize::zeroize(b)
}

/// Relies on curve25519-dalek's `Scalar::from_bytes_mod_order`: the 32 bytes
/// read as a little-endian integer, reduced modulo L.
#[verifier::external_body]
pub(crate) fn reduce_mod_order(b: [u8; 32]) -> (r: GroupScalar)
    ensures
        r@ == le_value(b@) % group_order(),
{
    GroupScalar { bytes: Scalar::from_bytes_mod_order(b).to_bytes() }
}

/// Relies on curve25519-dalek's `Scalar::from_bytes_mod_order_wide`: the 64
/// bytes read as a little-endian integer, reduced modulo L.
#[verifier::external_body]
pub(crate) fn reduce_wide(b: &[u8; 64]) -> (r: GroupScalar)
    ensures
        r@ == le_value(b@) % group_order(),
{
    GroupScalar { bytes: Scalar::from_bytes_mod_order_wide(b).to_bytes() }
}

/// Relies on curve25519-dalek's `Scalar::from_canonical_bytes`: a scalar only
/// for an encoding of an integer below L.
#[verifier::external_body]
pub(crate) fn canonical_scalar(b: [u8; 32]) -> (r: Option<GroupScalar>)
    ensures
        r is Some <==> le_value(b@) < group_order(),
        r matches Some(x) ==> x@ == le_value(b@),
{
    let s: Option<Scalar> = Scalar::from_canonical_bytes(b).into();
    match s {
        Some(s) => Some(GroupScalar { bytes: s.to_bytes() }),
        None => None,
    }
}

/// Relies on curve25519-dalek's `Mul` for scalars: the product modulo L.
#[verifier::external_body]
pub(crate) fn scalar_mul(a: &GroupScalar, b: &GroupScalar) -> (r: GroupScalar)
    ensures
        r@ == (a@ * b@) % group_order(),
{
    let p = Scalar::from_bytes_mod_order(a.bytes) * Scalar::from_bytes_mod_order(b.bytes);
    GroupScalar { bytes: p.to_bytes() }
}

/// Relies on curve25519-dalek's `Add` for scalars: the sum modulo L.
#[verifier::external_body]
pub(crate) fn scalar_add(a: &GroupScalar, b: &GroupScalar) -> (r: GroupScalar)
    ensures
        r@ == (a@ + b@) % group_order(),
{
    let p = Scalar::from_bytes_mod_order(a.bytes) + Scalar::from_bytes_mod_order(b.bytes);
    GroupScalar { bytes: p.to_bytes() }
}

/// The compressed encoding of [s]B, for B the Ed25519 base point.
pub uninterp spec fn base_point_multiple(s: nat) -> Seq<u8>;

/// Whether 32 bytes decompress to a point of the curve.
pub uninterp spec fn point_decodes(a: Seq<u8>) -> bool;

/// The compressed encoding of [k](-A) + [s]B, for A the point that `a`
/// decompresses to.
pub uninterp spec fn double_base_mul(k: nat, a: Seq<u8>, s: nat) -> Seq<u8>;

/// Relies on curve25519-dalek's `EdwardsPoint::mul_base`, compressed: the
/// encoding of [s]B. B has order L, so no other scalar below L gives the same
/// point, and a compressed point always decompresses.
#[verifier::external_body]
pub(crate) fn mul_base_compressed(s: &GroupScalar) -> (r: [u8; 32])
    ensures
        r@ == base_point_multiple(s@),
        point_decodes(r@),
        forall|t: nat| t < group_order() && #[trigger] base_point_multiple(t) == r@ ==> t == s@,
{
    EdwardsPoint::mul_base(&Scalar::from_bytes_mod_order(s.bytes)).compress().to_bytes()
}

/// Relies on curve25519-dalek's `CompressedEdwardsY::decompress`: whether the
/// bytes encode a curve point.
#[verifier::external_body]
pub(crate) fn decodes_as_point(a: &[u8; 32]) -> (r: bool)
    ensures
        r == point_decodes(a@),
{
    CompressedEdwardsY(*a).decompress().is_some()
}

/// Relies on curve25519-dalek's `EdwardsPoint::vartime_double_scalar_mul_basepoint`
/// on the negated point that `a` decompresses to: the encoding of [k](-A) + [s]B.
/// Where A = [x]B, that is [(s - k x) mod L]B, which no other scalar below L
/// gives.
#[verifier::external_body]
pub(crate) fn double_mul_base_compressed(k: &GroupScalar, a: &[u8; 32], s: &GroupScalar) -> (r: [u8; 32])
    requires
        point_decodes(a@),
    ensures
        r@ == double_base_mul(k@, a@, s@),
        forall|x: nat, t: nat|
            #![trigger base_point_multiple(x), base_point_multiple(t)]
            x < group_order() && t < group_order() && base_point_multiple(x) == a@ ==> (r@
                == base_point_multiple(t) <==> t == (s@ - k@ * x) % (group_order() as int)),
{
    let minus_a = -CompressedEdwardsY(*a).decompress().unwrap();
    let k = Scalar::from_bytes_mod_order(k.bytes);
    let s = Scalar::from_bytes_mod_order(s.bytes);
    EdwardsPoint::vartime_double_scalar_mul_basepoint(&k, &minus_a, &s).compress().to_bytes()
}

} // verus!
