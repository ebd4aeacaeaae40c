//! Raw Ed25519 signing and verification over an expanded secret key.
//!
//! These are easy-to-misuse, low-level operations: a wrong key, nonce or
//! update function can leak the secret key.
use vstd::prelude::*;
use vstd::arithmetic::div_mod::{
    lemma_add_mod_noop, lemma_add_mod_noop_right, lemma_small_mod, lemma_sub_mod_noop,
    lemma_sub_mod_noop_right,
};
use crate::bytes::{bytes_eq, group_order, le_value, lemma_le_value_injective};
use crate::group::{
    base_point_multiple, canonical_scalar, double_base_mul, double_mul_base_compressed,
    mul_base_compressed, reduce_wide, scalar_add, scalar_mul, GroupScalar,
};
use crate::hash::{sha512_absorbed, sha512_digest, Sha512State};
use crate::keys::{ExpandedSecretKey, VerifyingKey};
use crate::signature::{Signature, SignatureError};

verus! {

/// The ASCII string "SigEd25519 no Ed25519 collisions", which opens every
/// hash input in the prehashed and contextual modes.
pub const DOMAIN_SEPARATOR: [u8; 32] = [
    83, 105, 103, 69, 100, 50, 53, 53, 49, 57, 32, 110, 111, 32, 69, 100, 50, 53, 53, 49, 57, 32,
    99, 111, 108, 108, 105, 115, 105, 111, 110, 115,
];

/// The flag byte of the prehashed mode.
pub const PREHASH_FLAG: u8 = 1;

/// The longest context string, in bytes.
pub const MAX_CONTEXT_LEN: usize = 255;

/// What is hashed before everything else: nothing in the pure mode (no
/// context); in the prehashed mode the separator, the flag byte, the context
/// length and the context.
pub open spec fn domain(context: Option<Seq<u8>>) -> Seq<u8> {
    match context {
        Some(c) => DOMAIN_SEPARATOR@ + seq![PREHASH_FLAG, c.len() as u8] + c,
        None => Seq::empty(),
    }
}

/// The bytes of an optional context.
pub open spec fn context_view(context: Option<&[u8]>) -> Option<Seq<u8>> {
    match context {
        Some(c) => Some(c@),
        None => None,
    }
}

/// The context of the prehashed mode: the given one, or the empty string.
pub open spec fn prehash_context(context: Option<&[u8]>) -> Seq<u8> {
    match context {
        Some(c) => c@,
        None => Seq::empty(),
    }
}

/// The SHA-512 digest of `input`, read as a little-endian integer and
/// reduced modulo L.
pub open spec fn hash_scalar(input: Seq<u8>) -> nat {
    le_value(sha512_digest(input)) % group_order()
}

/// The per-message nonce r.
pub open spec fn nonce(dom: Seq<u8>, hash_prefix: Seq<u8>, m: Seq<u8>) -> nat {
    hash_scalar(dom + hash_prefix + m)
}

/// The commitment R = [r]B, compressed.
pub open spec fn commitment(dom: Seq<u8>, hash_prefix: Seq<u8>, m: Seq<u8>) -> Seq<u8> {
    base_point_multiple(nonce(dom, hash_prefix, m))
}

/// The challenge k, binding the commitment, the public key and the message.
pub open spec fn challenge(dom: Seq<u8>, r: Seq<u8>, a: Seq<u8>, m: Seq<u8>) -> nat {
    hash_scalar(dom + r + a + m)
}

/// The response s = r + k * scalar (mod L).
pub open spec fn response(dom: Seq<u8>, scalar: nat, hash_prefix: Seq<u8>, a: Seq<u8>, m: Seq<u8>) -> nat {
    let r = nonce(dom, hash_prefix, m);
    let k = challenge(dom, commitment(dom, hash_prefix, m), a, m);
    (r + k * scalar) % group_order()
}

/// `sig` is the signature of `m` under domain `dom` by the secret key
/// (`scalar`, `hash_prefix`) with public key encoding `a`.
pub open spec fn is_signature_of(
    sig: Signature,
    dom: Seq<u8>,
    scalar: nat,
    hash_prefix: Seq<u8>,
    a: Seq<u8>,
    m: Seq<u8>,
) -> bool {
    &&& sig.r_bytes@ == commitment(dom, hash_prefix, m)
    &&& le_value(sig.s_bytes@) == response(dom, scalar, hash_prefix, a, m)
}

/// The verification check: s is canonical and [k](-A) + [s]B encodes to R.
pub open spec fn verification_holds(a: Seq<u8>, dom: Seq<u8>, m: Seq<u8>, sig: Signature) -> bool {
    let s = le_value(sig.s_bytes@);
    &&& s < group_order()
    &&& double_base_mul(challenge(dom, sig.r_bytes@, a, m), a, s) == sig.r_bytes@
}

/// `sig` is what signing `m` under domain `dom` gives for a secret scalar `x`
/// below L, a hash prefix `prefix`, and the public key `a` = [x]B.
pub open spec fn signed_with_key(
    sig: Signature,
    dom: Seq<u8>,
    a: Seq<u8>,
    m: Seq<u8>,
    x: nat,
    prefix: Seq<u8>,
) -> bool {
    &&& x < group_order()
    &&& a == base_point_multiple(x)
    &&& is_signature_of(sig, dom, x, prefix, a, m)
}

/// Feeds the domain of `context` to `h`.
fn absorb_domain(h: &mut Sha512State, context: Option<&[u8]>)
    requires
        context matches Some(c) ==> c@.len() <= MAX_CONTEXT_LEN,
    ensures
        sha512_absorbed(*final(h)) == sha512_absorbed(*old(h)) + domain(context_view(context)),
{
    match context {
        Some(c) => {
            let ghost start = sha512_absorbed(*h);
            h.update(&DOMAIN_SEPARATOR);
            let header: [u8; 2] = [PREHASH_FLAG, c.len() as u8];
            h.update(&header);
            h.update(c);
            assert(header@ =~= seq![PREHASH_FLAG, c@.len() as u8]);
            assert(sha512_absorbed(*h) =~= start + domain(context_view(context)));
        },
        None => {
            assert(sha512_absorbed(*h) =~= sha512_absorbed(*h) + domain(context_view(context)));
        },
    }
}

/// The scalar that a finished hash computation gives.
fn hash_to_scalar(h: Sha512State) -> (r: GroupScalar)
    ensures
        r@ == hash_scalar(sha512_absorbed(h)),
{
    reduce_wide(&h.finalize())
}

/// Signs the message that `msg_update` feeds, under the domain of `context`.
/// `msg_update` is called once for the nonce and once for the challenge.
fn sign_with<F>(
    esk: &ExpandedSecretKey,
    context: Option<&[u8]>,
    msg_update: F,
    verifying_key: &VerifyingKey,
) -> (r: Result<Signature, SignatureError>) where F: Fn(&mut Sha512State) -> Result<(), SignatureError>
    requires
        context matches Some(c) ==> c@.len() <= MAX_CONTEXT_LEN,
        forall|h: &mut Sha512State| call_requires(msg_update, (h,)),
    ensures
        r matches Ok(sig) ==> forall|m: Seq<u8>|
            #![trigger is_signature_of(sig, domain(context_view(context)), esk.scalar@, esk.hash_prefix@, verifying_key@, m)]
            (forall|h: &mut Sha512State, q: Result<(), SignatureError>|
                call_ensures(msg_update, (h,), q) && q is Ok ==> sha512_absorbed(*final(h))
                    == sha512_absorbed(*h) + m) ==> is_signature_of(
                sig,
                domain(context_view(context)),
                esk.scalar@,
                esk.hash_prefix@,
                verifying_key@,
                m,
            ),
        r is Ok ==> exists|h: &mut Sha512State, q: Result<(), SignatureError>|
            call_ensures(msg_update, (h,), q) && q is Ok,
        r matches Err(e) ==> exists|h: &mut Sha512State| call_ensures(msg_update, (h,), Err(e)),
        (forall|h: &mut Sha512State, q: Result<(), SignatureError>|
            call_ensures(msg_update, (h,), q) ==> q is Ok) ==> r is Ok,
{
    let ghost dom = domain(context_view(context));
    let mut h = Sha512State::new();
    absorb_domain(&mut h, context);
    h.update(&esk.hash_prefix);
    match msg_update(&mut h) {
        Ok(()) => {},
        Err(e) => {
            return Err(e);
        },
    }
    let ghost nonce_input = sha512_absorbed(h);
    let r = hash_to_scalar(h);
    let big_r = mul_base_compressed(&r);

    let mut h = Sha512State::new();
    absorb_domain(&mut h, context);
    h.update(&big_r);
    h.update(verifying_key.as_bytes());
    match msg_update(&mut h) {
        Ok(()) => {},
        Err(e) => {
            return Err(e);
        },
    }
    let ghost challenge_input = sha512_absorbed(h);
    let k = hash_to_scalar(h);
    let s = scalar_add(&r, &scalar_mul(&k, &esk.scalar));
    let sig = Signature { r_bytes: big_r, s_bytes: s.to_bytes() };
    assert forall|m: Seq<u8>|
        (forall|h: &mut Sha512State, q: Result<(), SignatureError>|
            call_ensures(msg_update, (h,), q) && q is Ok ==> sha512_absorbed(*final(h))
                == sha512_absorbed(*h) + m) implies #[trigger] is_signature_of(
        sig,
        dom,
        esk.scalar@,
        esk.hash_prefix@,
        verifying_key@,
        m,
    ) by {
        assert(nonce_input == dom + esk.hash_prefix@ + m);
        assert(challenge_input == dom + big_r@ + verifying_key@ + m);
    }
    Ok(sig)
}

/// Signs `message` in the pure mode: the nonce is derived from the key's
/// hash prefix and the message, the challenge from R, the verifying key and
/// the message.
pub fn raw_sign(esk: &ExpandedSecretKey, message: &[u8], verifying_key: &VerifyingKey) -> (r:
    Signature)
    ensures
        is_signature_of(r, domain(None), esk.scalar@, esk.hash_prefix@, verifying_key@, message@),
{
    let feed = |h: &mut Sha512State| -> (q: Result<(), SignatureError>)
        ensures
            sha512_absorbed(*final(h)) == sha512_absorbed(*old(h)) + message@,
            q is Ok,
        {
            h.update(message);
            Ok(())
        };
    let sig = sign_with(esk, None, feed, verifying_key).unwrap();
    assert(is_signature_of(sig, domain(None), esk.scalar@, esk.hash_prefix@, verifying_key@, message@));
    sig
}

/// Signs a 64-byte message digest in the prehashed mode, with an optional
/// context of at most 255 bytes (none is the empty context).
pub fn raw_sign_prehashed(
    esk: &ExpandedSecretKey,
    prehashed_message: &[u8; 64],
    verifying_key: &VerifyingKey,
    context: Option<&[u8]>,
) -> (r: Result<Signature, SignatureError>)
    ensures
        r is Ok <==> prehash_context(context).len() <= MAX_CONTEXT_LEN,
        r matches Err(e) ==> e == SignatureError::ContextTooLong,
        r matches Ok(sig) ==> is_signature_of(
            sig,
            domain(Some(prehash_context(context))),
            esk.scalar@,
            esk.hash_prefix@,
            verifying_key@,
            prehashed_message@,
        ),
{
    let ctx: &[u8] = match context {
        Some(c) => c,
        None => &[],
    };
    if ctx.len() > MAX_CONTEXT_LEN {
        return Err(SignatureError::ContextTooLong);
    }
    let feed = |h: &mut Sha512State| -> (q: Result<(), SignatureError>)
        ensures
            sha512_absorbed(*final(h)) == sha512_absorbed(*old(h)) + prehashed_message@,
            q is Ok,
        {
            h.update(prehashed_message);
            Ok(())
        };
    let sig = sign_with(esk, Some(ctx), feed, verifying_key).unwrap();
    assert(is_signature_of(
        sig,
        domain(Some(ctx@)),
        esk.scalar@,
        esk.hash_prefix@,
        verifying_key@,
        prehashed_message@,
    ));
    Ok(sig)
}

/// Signs, in the pure mode, the message that `msg_update` feeds to a hash
/// computation. It is called once for the nonce and once for the challenge,
/// and must feed the same bytes each time. The first error it returns is
/// returned as it is, and nothing is signed.
pub fn raw_sign_byupdate<F>(esk: &ExpandedSecretKey, msg_update: F, verifying_key: &VerifyingKey) -> (r:
    Result<Signature, SignatureError>) where F: Fn(&mut Sha512State) -> Result<(), SignatureError>
    requires
        forall|h: &mut Sha512State| call_requires(msg_update, (h,)),
    ensures
        r matches Ok(sig) ==> forall|m: Seq<u8>|
            #![trigger is_signature_of(sig, domain(None), esk.scalar@, esk.hash_prefix@, verifying_key@, m)]
            (forall|h: &mut Sha512State, q: Result<(), SignatureError>|
                call_ensures(msg_update, (h,), q) && q is Ok ==> sha512_absorbed(*final(h))
                    == sha512_absorbed(*h) + m) ==> is_signature_of(
                sig,
                domain(None),
                esk.scalar@,
                esk.hash_prefix@,
                verifying_key@,
                m,
            ),
        r is Ok ==> exists|h: &mut Sha512State, q: Result<(), SignatureError>|
            call_ensures(msg_update, (h,), q) && q is Ok,
        r matches Err(e) ==> exists|h: &mut Sha512State| call_ensures(msg_update, (h,), Err(e)),
        (forall|h: &mut Sha512State, q: Result<(), SignatureError>|
            call_ensures(msg_update, (h,), q) ==> q is Ok) ==> r is Ok,
{
    sign_with(esk, None, msg_update, verifying_key)
}

/// Checks `sig` on `message` under the domain of `context` and the key `vk`.
fn verify_with(vk: &VerifyingKey, context: Option<&[u8]>, message: &[u8], sig: &Signature) -> (r:
    Result<(), SignatureError>)
    requires
        context matches Some(c) ==> c@.len() <= MAX_CONTEXT_LEN,
    ensures
        r is Ok <==> verification_holds(vk@, domain(context_view(context)), message@, *sig),
        r matches Err(e) ==> e == SignatureError::InvalidSignature,
        forall|x: nat, prefix: Seq<u8>|
            #![trigger is_signature_of(*sig, domain(context_view(context)), x, prefix, vk@, message@)]
            signed_with_key(*sig, domain(context_view(context)), vk@, message@, x, prefix) ==> r is Ok,
        forall|x: nat, prefix: Seq<u8>, honest: Signature|
            #![trigger is_signature_of(honest, domain(context_view(context)), x, prefix, vk@, message@)]
            signed_with_key(honest, domain(context_view(context)), vk@, message@, x, prefix)
                && sig.r_bytes@ == honest.r_bytes@ && sig.s_bytes@ != honest.s_bytes@
                ==> r is Err,
{
    let ghost dom = domain(context_view(context));
    let s = match canonical_scalar(sig.s_bytes) {
        Some(s) => s,
        None => {
            return Err(SignatureError::InvalidSignature);
        },
    };
    let mut h = Sha512State::new();
    absorb_domain(&mut h, context);
    h.update(&sig.r_bytes);
    h.update(vk.as_bytes());
    h.update(message);
    assert(sha512_absorbed(h) == dom + sig.r_bytes@ + vk@ + message@);
    let k = hash_to_scalar(h);
    let expected = double_mul_base_compressed(&k, vk.as_bytes(), &s);
    let ok = bytes_eq(&expected, &sig.r_bytes);
    proof {
        let l = group_order() as int;
        let sv = s@ as int;
        assert forall|x: nat, prefix: Seq<u8>|
            #![trigger is_signature_of(*sig, dom, x, prefix, vk@, message@)]
            signed_with_key(*sig, dom, vk@, message@, x, prefix) implies ok by {
            let t = nonce(dom, prefix, message@) as int;
            assert(t < l);
            assert(sig.r_bytes@ == base_point_multiple(t as nat));
            let kk = challenge(dom, sig.r_bytes@, vk@, message@) as int;
            assert(k@ == kk);
            assert(sv == (t + kk * x) % l);
            lemma_add_then_sub(t, kk * x, l);
            assert(t == (sv - k@ * x) % l);
        }
        assert forall|x: nat, prefix: Seq<u8>, honest: Signature|
            #![trigger is_signature_of(honest, dom, x, prefix, vk@, message@)]
            signed_with_key(honest, dom, vk@, message@, x, prefix) && sig.r_bytes@
                == honest.r_bytes@ && sig.s_bytes@ != honest.s_bytes@ implies !ok by {
            let t = nonce(dom, prefix, message@) as int;
            let kk = challenge(dom, sig.r_bytes@, vk@, message@) as int;
            assert(k@ == kk);
            if ok {
                assert(t < l);
                assert(expected@ == base_point_multiple(t as nat));
                assert(t == (sv - k@ * x) % l);
                assert(le_value(honest.s_bytes@) as int == (t + kk * x) % l);
                lemma_sub_then_add(sv, kk * x, l);
                lemma_le_value_injective(sig.s_bytes@, honest.s_bytes@);
            }
        }
    }
    if ok {
        Ok(())
    } else {
        Err(SignatureError::InvalidSignature)
    }
}

/// Verifies `signature` on `message` in the pure mode. The signature's s must
/// be canonical, and [k](-A) + [s]B must compress to R exactly; as compression
/// gives canonical encodings, a non-canonical R is refused.
pub fn raw_verify(vk: &VerifyingKey, message: &[u8], signature: &Signature) -> (r: Result<
    (),
    SignatureError,
>)
    ensures
        r is Ok <==> verification_holds(vk@, domain(None), message@, *signature),
        r matches Err(e) ==> e == SignatureError::InvalidSignature,
        forall|x: nat, prefix: Seq<u8>|
            #![trigger is_signature_of(*signature, domain(None), x, prefix, vk@, message@)]
            signed_with_key(*signature, domain(None), vk@, message@, x, prefix) ==> r is Ok,
        forall|x: nat, prefix: Seq<u8>, honest: Signature|
            #![trigger is_signature_of(honest, domain(None), x, prefix, vk@, message@)]
            signed_with_key(honest, domain(None), vk@, message@, x, prefix)
                && signature.r_bytes@ == honest.r_bytes@ && signature.s_bytes@ != honest.s_bytes@
                ==> r is Err,
{
    verify_with(vk, None, message, signature)
}

/// Verifies `signature` on a 64-byte message digest in the prehashed mode,
/// with an optional context of at most 255 bytes (none is the empty context).
pub fn raw_verify_prehashed(
    vk: &VerifyingKey,
    prehashed_message: &[u8; 64],
    context: Option<&[u8]>,
    signature: &Signature,
) -> (r: Result<(), SignatureError>)
    ensures
        prehash_context(context).len() > MAX_CONTEXT_LEN ==> r == Err::<(), SignatureError>(
            SignatureError::ContextTooLong,
        ),
        prehash_context(context).len() <= MAX_CONTEXT_LEN ==> {
            let dom = domain(Some(prehash_context(context)));
            &&& r is Ok <==> verification_holds(vk@, dom, prehashed_message@, *signature)
            &&& r matches Err(e) ==> e == SignatureError::InvalidSignature
            &&& forall|x: nat, prefix: Seq<u8>|
                #![trigger is_signature_of(*signature, dom, x, prefix, vk@, prehashed_message@)]
                signed_with_key(*signature, dom, vk@, prehashed_message@, x, prefix) ==> r is Ok
            &&& forall|x: nat, prefix: Seq<u8>, honest: Signature|
                #![trigger is_signature_of(honest, dom, x, prefix, vk@, prehashed_message@)]
                signed_with_key(honest, dom, vk@, prehashed_message@, x, prefix)
                    && signature.r_bytes@ == honest.r_bytes@ && signature.s_bytes@ != honest.s_bytes@
                    ==> r is Err
        },
{
    let ctx: &[u8] = match context {
        Some(c) => c,
        None => &[],
    };
    if ctx.len() > MAX_CONTEXT_LEN {
        return Err(SignatureError::ContextTooLong);
    }
    verify_with(vk, Some(ctx), prehashed_message, signature)
}

/// Signing is deterministic: two signatures of one message under one domain
/// and one key are byte for byte the same.
pub proof fn lemma_signing_is_deterministic(
    sig1: Signature,
    sig2: Signature,
    dom: Seq<u8>,
    scalar: nat,
    hash_prefix: Seq<u8>,
    a: Seq<u8>,
    m: Seq<u8>,
)
    requires
        is_signature_of(sig1, dom, scalar, hash_prefix, a, m),
        is_signature_of(sig2, dom, scalar, hash_prefix, a, m),
    ensures
        sig1 == sig2,
        sig1.encoding() == sig2.encoding(),
{
    lemma_le_value_injective(sig1.s_bytes@, sig2.s_bytes@);
    assert(sig1.r_bytes =~= sig2.r_bytes);
    assert(sig1.s_bytes =~= sig2.s_bytes);
}

/// What a hash computation holds after `chunks` are fed to it one after
/// another, starting from `start`.
pub open spec fn absorb_in_order(start: Seq<u8>, chunks: Seq<Seq<u8>>) -> Seq<u8>
    decreases chunks.len(),
{
    if chunks.len() == 0 {
        start
    } else {
        absorb_in_order(start + chunks[0], chunks.drop_first())
    }
}

/// Feeding chunks one after another feeds their concatenation.
pub proof fn lemma_absorb_in_order(start: Seq<u8>, chunks: Seq<Seq<u8>>)
    ensures
        absorb_in_order(start, chunks) == start + chunks.flatten(),
    decreases chunks.len(),
{
    if chunks.len() == 0 {
        assert(start + chunks.flatten() =~= start);
    } else {
        lemma_absorb_in_order(start + chunks[0], chunks.drop_first());
        assert(chunks.flatten() == chunks[0] + chunks.drop_first().flatten());
        assert(start + chunks[0] + chunks.drop_first().flatten() =~= start + chunks.flatten());
    }
}

/// A message fed as ordered chunks, however it is split, is signed as the
/// concatenation of the chunks: an update function that adds `fed` to a hash
/// computation by feeding `chunks` in order gives the signature that signing
/// the whole message gives.
pub proof fn lemma_chunked_signing(
    stream_sig: Signature,
    whole_sig: Signature,
    scalar: nat,
    hash_prefix: Seq<u8>,
    a: Seq<u8>,
    start: Seq<u8>,
    chunks: Seq<Seq<u8>>,
    fed: Seq<u8>,
)
    requires
        start + fed == absorb_in_order(start, chunks),
        is_signature_of(stream_sig, domain(None), scalar, hash_prefix, a, fed),
        is_signature_of(whole_sig, domain(None), scalar, hash_prefix, a, chunks.flatten()),
    ensures
        stream_sig == whole_sig,
{
    lemma_absorb_in_order(start, chunks);
    assert(fed =~= (start + fed).subrange(start.len() as int, (start + fed).len() as int));
    assert(chunks.flatten() =~= (start + chunks.flatten()).subrange(
        start.len() as int,
        (start + chunks.flatten()).len() as int,
    ));
    lemma_signing_is_deterministic(stream_sig, whole_sig, domain(None), scalar, hash_prefix, a, fed);
}

/// Adding c and then taking it away again leaves a residue unchanged.
proof fn lemma_add_then_sub(t: int, c: int, l: int)
    requires
        0 <= t < l,
    ensures
        ((t + c) % l - c) % l == t,
{
    lemma_sub_mod_noop(t + c, c, l);
    lemma_sub_mod_noop_right((t + c) % l, c, l);
    lemma_small_mod(t as nat, l as nat);
}

/// Taking c away and then adding it again leaves a residue unchanged.
proof fn lemma_sub_then_add(s: int, c: int, l: int)
    requires
        0 <= s < l,
    ensures
        ((s - c) % l + c) % l == s,
{
    lemma_add_mod_noop(s - c, c, l);
    lemma_add_mod_noop_right((s - c) % l, c, l);
    lemma_small_mod(s as nat, l as nat);
}

} // verus!
