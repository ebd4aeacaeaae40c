//! Little-endian integers over byte strings, the group order, and clamping.
use vstd::prelude::*;

verus! {

/// The order L of the prime-order subgroup generated by the Ed25519 base point:
/// 2^252 + 27742317777372353535851937790883648493.
pub open spec fn group_order() -> nat {
    7237005577332262213973186563042994240857116359379907606001950938285454250989nat
}

/// The unsigned integer whose little-endian encoding is `b`.
pub open spec fn le_value(b: Seq<u8>) -> nat
    decreases b.len(),
{
    if b.len() == 0 {
        0
    } else {
        b[0] as nat + 256 * le_value(b.drop_first())
    }
}

/// Two byte strings of one length encode the same integer only if they are equal.
pub proof fn lemma_le_value_injective(a: Seq<u8>, b: Seq<u8>)
    requires
        a.len() == b.len(),
        le_value(a) == le_value(b),
    ensures
        a == b,
    decreases a.len(),
{
    if a.len() > 0 {
        let x = le_value(a.drop_first());
        let y = le_value(b.drop_first());
        assert(a[0] as int == b[0] as int && x == y) by (nonlinear_arith)
            requires
                a[0] as int + 256 * x == b[0] as int + 256 * y,
                0 <= a[0] < 256,
                0 <= b[0] < 256,
                x >= 0,
                y >= 0,
        {
        }
        lemma_le_value_injective(a.drop_first(), b.drop_first());
        assert(a =~= seq![a[0]] + a.drop_first());
        assert(b =~= seq![b[0]] + b.drop_first());
    }
}

/// The clamped form of a 32-byte scalar: the low three bits and the top bit
/// cleared, the second-highest bit set.
pub open spec fn clamped(b: Seq<u8>) -> Seq<u8>
    recommends
        b.len() == 32,
{
    b.update(0, b[0] & 0b1111_1000).update(31, (b[31] & 0b0111_1111) | 0b0100_0000)
}

/// Clamps 32 bytes of secret material into a scalar of fixed bit length that
/// is a multiple of the cofactor.
pub fn clamp_integer(bytes: [u8; 32]) -> (r: [u8; 32])
    ensures
        r@ == clamped(bytes@),
{
    let mut b = bytes;
    b[0] = b[0] & 0b1111_1000;
    b[31] = (b[31] & 0b0111_1111) | 0b0100_0000;
    assert(b@ =~= clamped(bytes@));
    b
}

/// Copies bytes `start .. start + N` of `src` into an array.
pub fn array_from<const N: usize>(src: &[u8], start: usize) -> (r: [u8; N])
    requires
        start + N <= src@.len(),
    ensures
        r@ == src@.subrange(start as int, start + N),
{
    let mut r = [0u8; N];
    let len: usize = src.len();
    let mut i: usize = 0;
    while i < N
        invariant
            start + N <= src@.len(),
            len == src@.len(),
            0 <= i <= N,
            r@.len() == N,
            forall|j: int| 0 <= j < i ==> r@[j] == src@[start + j],
        decreases N - i,
    {
        r[i] = src[start + i];
        i = i + 1;
    }
    assert(r@ =~= src@.subrange(start as int, start + N));
    r
}

/// Whether two 32-byte arrays hold the same bytes.
pub fn bytes_eq(a: &[u8; 32], b: &[u8; 32]) -> (r: bool)
    ensures
        r == (a@ == b@),
{
    let mut i: usize = 0;
    while i < 32
        invariant
            0 <= i <= 32,
            forall|j: int| 0 <= j < i ==> a@[j] == b@[j],
        decreases 32 - i,
    {
        if a[i] != b[i] {
            return false;
        }
        i = i + 1;
    }
    assert(a@ =~= b@);
    true
}

} // verus!
