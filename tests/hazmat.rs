use std::cell::Cell;

use ed25519_hazmat::hazmat::DOMAIN_SEPARATOR;
use ed25519_hazmat::{
    raw_sign, raw_sign_byupdate, raw_sign_prehashed, raw_verify, raw_verify_prehashed,
    ExpandedSecretKey, Sha512State, Signature, SignatureError, VerifyingKey,
};
use rand::RngCore;
use sha2::Digest;

fn random_key() -> ExpandedSecretKey {
    let mut bytes = [0u8; 64];
    rand::thread_rng().fill_bytes(&mut bytes);
    ExpandedSecretKey::from_bytes(&bytes)
}

fn hex(s: &str) -> Vec<u8> {
    (0..s.len())
        .step_by(2)
        .map(|i| u8::from_str_radix(&s[i..i + 2], 16).unwrap())
        .collect()
}

/// Expands a 32-byte seed as Ed25519 key generation does: SHA-512 of the seed.
fn key_from_seed(seed_hex: &str) -> ExpandedSecretKey {
    let digest = sha2::Sha512::digest(hex(seed_hex));
    let mut bytes = [0u8; 64];
    bytes.copy_from_slice(&digest);
    ExpandedSecretKey::from_bytes(&bytes)
}

fn prehash(msg: &[u8]) -> [u8; 64] {
    let digest = sha2::Sha512::digest(msg);
    let mut out = [0u8; 64];
    out.copy_from_slice(&digest);
    out
}

#[test]
fn sign_verify_nonspec() {
    let esk = random_key();
    let vk = VerifyingKey::from(&esk);
    let msg = b"Then one day, a piano fell on my head";

    let sig = raw_sign(&esk, msg, &vk);
    raw_verify(&vk, msg, &sig).unwrap();
}

#[test]
fn sign_verify_prehashed_nonspec() {
    let esk = random_key();
    let vk = VerifyingKey::from(&esk);

    let msg = b"And then I got trampled by a herd of buffalo";
    let mut h = sha3::Sha3_512::new();
    h.update(msg);
    let mut digest = [0u8; 64];
    digest.copy_from_slice(&h.finalize());

    let ctx_str = &b"consequences"[..];

    let sig = raw_sign_prehashed(&esk, &digest, &vk, Some(ctx_str)).unwrap();
    raw_verify_prehashed(&vk, &digest, Some(ctx_str), &sig).unwrap();
}

#[test]
fn sign_byupdate() {
    let esk = random_key();
    let vk = VerifyingKey::from(&esk);

    let msg = b"realistic";
    let good_sig = raw_sign(&esk, msg, &vk);

    let sig = raw_sign_byupdate(
        &esk,
        |h: &mut Sha512State| {
            h.update(msg);
            Ok(())
        },
        &vk,
    );
    assert!(sig.unwrap() == good_sig);

    let sig = raw_sign_byupdate(
        &esk,
        |h: &mut Sha512State| {
            h.update(msg);
            Err(SignatureError::CallbackFailure)
        },
        &vk,
    );
    assert!(sig.is_err());

    let sig = raw_sign_byupdate(
        &esk,
        |h: &mut Sha512State| {
            h.update(&msg[..1]);
            h.update(&msg[1..]);
            Ok(())
        },
        &vk,
    );
    assert!(sig.unwrap() == good_sig);
}

#[test]
fn rfc8032_empty_message() {
    let esk = key_from_seed("9d61b19deffd5a60ba844af492ec2cc44449c5697b326919703bac031cae7f60");
    let vk = VerifyingKey::from(&esk);
    assert_eq!(
        vk.to_bytes().to_vec(),
        hex("d75a980182b10ab7d54bfed3c964073a0ee172f3daa62325af021a68f707511a")
    );
    let sig = raw_sign(&esk, b"", &vk);
    assert_eq!(
        sig.to_bytes().to_vec(),
        hex("e5564300c360ac729086e2cc806e828a84877f1eb8e5d974d873e065224901555fb8821590a33bacc61e39701cf9b46bd25bf5f0595bbe24655141438e7a100b")
    );
    assert_eq!(raw_verify(&vk, b"", &sig), Ok(()));
}

#[test]
fn rfc8032_one_byte_message() {
    let esk = key_from_seed("4ccd089b28ff96da9db6c346ec114e0f5b8a319f35aba624da8cf6ed4fb8a6fb");
    let vk = VerifyingKey::from(&esk);
    assert_eq!(
        vk.to_bytes().to_vec(),
        hex("3d4017c3e843895a92b70aa74d1b7ebc9c982ccf2ec4968cc0cd55f12af4660c")
    );
    let sig = raw_sign(&esk, &[0x72], &vk);
    assert_eq!(
        sig.to_bytes().to_vec(),
        hex("92a009a9f0d4cab8720e820b5f642540a2b27b5416503f8fb3762223ebdb69da085ac1e43e15996e458f3613d0f11d8c387b2eaeb4302aeeb00d291612bb0c00")
    );
    assert_eq!(raw_verify(&vk, &[0x72], &sig), Ok(()));
}

#[test]
fn rfc8032_prehashed_abc() {
    let esk = key_from_seed("833fe62409237b9d62ec77587520911e9a759cec1d19755b7da901b96dca3d42");
    let vk = VerifyingKey::from(&esk);
    assert_eq!(
        vk.to_bytes().to_vec(),
        hex("ec172b93ad5e563bf4932c70e1245034c35467ef2efd4d64ebf819683467e2bf")
    );
    let digest = prehash(b"abc");
    let expected = hex("98a70222f0b8121aa9d30f813d683f809e462b469c7ff87639499bb94e6dae4131f85042463c2a355a2003d062adf5aaa10b8c61e636062aaad11c2a26083406");
    let sig = raw_sign_prehashed(&esk, &digest, &vk, None).unwrap();
    assert_eq!(sig.to_bytes().to_vec(), expected);
    let sig_empty_ctx = raw_sign_prehashed(&esk, &digest, &vk, Some(&[])).unwrap();
    assert_eq!(sig_empty_ctx.to_bytes().to_vec(), expected);
    assert_eq!(raw_verify_prehashed(&vk, &digest, None, &sig), Ok(()));
    // The prehashed mode is separated from the pure mode.
    assert_eq!(raw_verify(&vk, &digest, &sig), Err(SignatureError::InvalidSignature));
}

#[test]
fn domain_separator_is_the_ascii_string() {
    assert_eq!(&DOMAIN_SEPARATOR[..], b"SigEd25519 no Ed25519 collisions");
}

#[test]
fn signing_is_deterministic() {
    let esk = random_key();
    let vk = VerifyingKey::from(&esk);
    let msg = b"the same message twice";
    let a = raw_sign(&esk, msg, &vk);
    let b = raw_sign(&esk, msg, &vk);
    assert_eq!(a.to_bytes().to_vec(), b.to_bytes().to_vec());
    assert!(a == b);
    let digest = prehash(msg);
    let c = raw_sign_prehashed(&esk, &digest, &vk, Some(b"ctx")).unwrap();
    let d = raw_sign_prehashed(&esk, &digest, &vk, Some(b"ctx")).unwrap();
    assert!(c == d);
    let other = raw_sign(&esk, b"another message", &vk);
    assert!(a != other);
}

#[test]
fn chunked_update_matches_whole_message() {
    let esk = random_key();
    let vk = VerifyingKey::from(&esk);
    let msg: Vec<u8> = (0u8..100).collect();
    let whole = raw_sign(&esk, &msg, &vk);
    let partitions: Vec<Vec<usize>> = vec![
        vec![],
        vec![0],
        vec![100],
        vec![1, 2, 3],
        vec![50, 50, 99],
        vec![7, 31, 64, 64, 90],
    ];
    for cuts in partitions {
        let sig = raw_sign_byupdate(
            &esk,
            |h: &mut Sha512State| {
                let mut start = 0;
                for &cut in &cuts {
                    h.update(&msg[start..cut]);
                    start = cut;
                }
                h.update(&msg[start..]);
                Ok(())
            },
            &vk,
        )
        .unwrap();
        assert!(sig == whole);
    }
}

#[test]
fn update_error_on_second_call_is_returned() {
    let esk = random_key();
    let vk = VerifyingKey::from(&esk);
    let calls = Cell::new(0u32);
    let sig = raw_sign_byupdate(
        &esk,
        |h: &mut Sha512State| {
            let n = calls.get();
            calls.set(n + 1);
            h.update(b"streamed");
            if n == 1 {
                Err(SignatureError::InvalidLength)
            } else {
                Ok(())
            }
        },
        &vk,
    );
    assert_eq!(sig, Err(SignatureError::InvalidLength));
    assert_eq!(calls.get(), 2);
}

#[test]
fn update_error_on_first_call_stops_signing() {
    let esk = random_key();
    let vk = VerifyingKey::from(&esk);
    let calls = Cell::new(0u32);
    let sig = raw_sign_byupdate(
        &esk,
        |_h: &mut Sha512State| {
            calls.set(calls.get() + 1);
            Err(SignatureError::CallbackFailure)
        },
        &vk,
    );
    assert_eq!(sig, Err(SignatureError::CallbackFailure));
    assert_eq!(calls.get(), 1);
}

fn flip(bytes: &mut [u8], bit: usize) {
    bytes[bit / 8] ^= 1 << (bit % 8);
}

#[test]
fn flipping_any_bit_breaks_verification() {
    let esk = random_key();
    let vk = VerifyingKey::from(&esk);
    let msg = b"tamper with me".to_vec();
    let sig = raw_sign(&esk, &msg, &vk);
    assert_eq!(raw_verify(&vk, &msg, &sig), Ok(()));
    for bit in 0..msg.len() * 8 {
        let mut m = msg.clone();
        flip(&mut m, bit);
        assert_eq!(raw_verify(&vk, &m, &sig), Err(SignatureError::InvalidSignature));
    }
    for bit in 0..256 {
        let mut bad = sig;
        flip(&mut bad.r_bytes, bit);
        assert_eq!(raw_verify(&vk, &msg, &bad), Err(SignatureError::InvalidSignature));
        let mut bad = sig;
        flip(&mut bad.s_bytes, bit);
        assert_eq!(raw_verify(&vk, &msg, &bad), Err(SignatureError::InvalidSignature));
    }
}

#[test]
fn flipping_a_bit_breaks_prehashed_verification() {
    let esk = random_key();
    let vk = VerifyingKey::from(&esk);
    let digest = prehash(b"prehashed");
    let sig = raw_sign_prehashed(&esk, &digest, &vk, Some(b"ctx")).unwrap();
    assert_eq!(raw_verify_prehashed(&vk, &digest, Some(b"ctx"), &sig), Ok(()));
    assert_eq!(
        raw_verify_prehashed(&vk, &digest, Some(b"cty"), &sig),
        Err(SignatureError::InvalidSignature)
    );
    assert_eq!(
        raw_verify_prehashed(&vk, &digest, None, &sig),
        Err(SignatureError::InvalidSignature)
    );
    let mut d = digest;
    flip(&mut d, 300);
    assert_eq!(
        raw_verify_prehashed(&vk, &d, Some(b"ctx"), &sig),
        Err(SignatureError::InvalidSignature)
    );
    let mut bad = sig;
    flip(&mut bad.s_bytes, 5);
    assert_eq!(
        raw_verify_prehashed(&vk, &digest, Some(b"ctx"), &bad),
        Err(SignatureError::InvalidSignature)
    );
}

#[test]
fn wrong_key_fails_verification() {
    let esk = random_key();
    let vk = VerifyingKey::from(&esk);
    let other = VerifyingKey::from(&random_key());
    let sig = raw_sign(&esk, b"message", &vk);
    assert_eq!(raw_verify(&other, b"message", &sig), Err(SignatureError::InvalidSignature));
}

#[test]
fn non_canonical_s_is_rejected() {
    let esk = key_from_seed("9d61b19deffd5a60ba844af492ec2cc44449c5697b326919703bac031cae7f60");
    let vk = VerifyingKey::from(&esk);
    let sig = raw_sign(&esk, b"", &vk);
    // s + L encodes the same residue but is not canonical.
    let order = hex("edd3f55c1a631258d69cf7a2def9de1400000000000000000000000000000010");
    let mut bad = sig;
    let mut carry = 0u16;
    for i in 0..32 {
        let v = bad.s_bytes[i] as u16 + order[i] as u16 + carry;
        bad.s_bytes[i] = v as u8;
        carry = v >> 8;
    }
    assert_eq!(carry, 0);
    assert_eq!(raw_verify(&vk, b"", &bad), Err(SignatureError::InvalidSignature));
    let mut all_ones = sig;
    all_ones.s_bytes = [0xff; 32];
    assert_eq!(raw_verify(&vk, b"", &all_ones), Err(SignatureError::InvalidSignature));
}

#[test]
fn context_longer_than_255_bytes_is_refused() {
    let esk = random_key();
    let vk = VerifyingKey::from(&esk);
    let digest = prehash(b"context length");
    let long = vec![7u8; 256];
    assert_eq!(
        raw_sign_prehashed(&esk, &digest, &vk, Some(&long)),
        Err(SignatureError::ContextTooLong)
    );
    let longest = vec![7u8; 255];
    let sig = raw_sign_prehashed(&esk, &digest, &vk, Some(&longest)).unwrap();
    assert_eq!(raw_verify_prehashed(&vk, &digest, Some(&longest), &sig), Ok(()));
    assert_eq!(
        raw_verify_prehashed(&vk, &digest, Some(&long), &sig),
        Err(SignatureError::ContextTooLong)
    );
}

#[test]
fn signature_bytes_round_trip() {
    let mut bytes = [0u8; 64];
    for (i, b) in bytes.iter_mut().enumerate() {
        *b = i as u8;
    }
    let sig = Signature::from_bytes(&bytes);
    assert_eq!(sig.r_bytes[..], bytes[..32]);
    assert_eq!(sig.s_bytes[..], bytes[32..]);
    assert_eq!(sig.to_bytes(), bytes);
    assert!(Signature::from_slice(&bytes).unwrap() == sig);
    assert_eq!(Signature::from_slice(&bytes[..63]), Err(SignatureError::InvalidLength));
    let mut longer = bytes.to_vec();
    longer.push(0);
    assert_eq!(Signature::from_slice(&longer), Err(SignatureError::InvalidLength));
}
