//! Incremental SHA-512, provided by the sha2 crate.
use vstd::prelude::*;

verus! {

/// A SHA-512 computation in progress. It is handed to a caller's update
/// function, which feeds it message bytes.
#[verifier::external_body]
pub struct Sha512State {
    state: sha2::Sha512,
}

/// The bytes fed to a SHA-512 computation so far, in order.
pub uninterp spec fn sha512_absorbed(h: Sha512State) -> Seq<u8>;

/// The SHA-512 digest of a byte string.
pub uninterp spec fn sha512_digest(input: Seq<u8>) -> Seq<u8>;

impl Sha512State {
    /// Relies on sha2's `Sha512::new`: a computation that has absorbed nothing.
    #[verifier::external_body]
    pub(crate) fn new() -> (r: Sha512State)
        ensures
            sha512_absorbed(r) == Seq::<u8>::empty(),
    {
        Sha512State { state: <sha2::Sha512 as sha2::Digest>::new() }
    }

    /// Relies on sha2's `Digest::update`: the bytes are appended to the input.
    #[verifier::external_body]
    fn absorb(&mut self, data: &[u8])
        ensures
            sha512_absorbed(*final(self)) == sha512_absorbed(*old(self)) + data@,
    {
        sha2::Digest::update(&mut self.state, data)
    }

    /// Relies on sha2's `Digest::finalize`: the digest of everything absorbed.
    #[verifier::external_body]
    pub(crate) fn finalize(self) -> (r: [u8; 64])
        ensures
            r@ == sha512_digest(sha512_absorbed(self)),
    {
        sha2::Digest::finalize(self.state).into()
    }

    /// Feeds `data` to the computation, after what it has absorbed so far.
    pub fn update(&mut self, data: &[u8])
        ensures
            sha512_absorbed(*final(self)) == sha512_absorbed(*old(self)) + data@,
    {
        self.absorb(data)
    }
}

} // verus!
