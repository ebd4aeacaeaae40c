//! Low-level Ed25519 signing and verification over an external group
//! arithmetic provider and an external SHA-512.

pub mod bytes;
pub mod group;
pub mod hash;
pub mod hazmat;
pub mod keys;
pub mod pod_error;
pub mod signature;

pub use group::GroupScalar;
pub use hash::Sha512State;
pub use hazmat::{
    raw_sign, raw_sign_byupdate, raw_sign_prehashed, raw_verify, raw_verify_prehashed,
};
pub use keys::{ExpandedSecretKey, VerifyingKey};
pub use pod_error::PodSliceError;
pub use signature::{Signature, SignatureError};
