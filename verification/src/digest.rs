//! SHA-256 of a streamed transfer: the bytes are fed chunk by chunk as they
//! are copied, and the transfer reports how many bytes it moved and their
//! digest in lowercase hex.
use vstd::prelude::*;

use sha2::Digest;

use crate::codec::{bytes_to_hex, hex_of};

verus! {

/// A running `sha2::Sha256` hasher. (`sha2::Sha256` is an alias of a generic
/// wrapper type that cannot be declared to the verifier, so the hasher is
/// held in a private field here.)
#[verifier::external_body]
pub struct Sha256Stream {
    inner: sha2::Sha256,
}

/// The bytes fed to a hasher so far.
pub uninterp spec fn sha256_input(h: Sha256Stream) -> Seq<u8>;

/// The SHA-256 digest (FIPS 180-4) of `data`, as `sha2::Sha256` computes it.
pub uninterp spec fn sha256(data: Seq<u8>) -> Seq<u8>;

/// `Sha256::new()`: a hasher that has been fed nothing.
#[verifier::external_body]
fn sha256_new() -> (h: Sha256Stream)
    ensures
        sha256_input(h) == Seq::<u8>::empty(),
{
    Sha256Stream { inner: sha2::Sha256::new() }
}

/// `Digest::update`: the chunk is appended to what the hasher was fed.
#[verifier::external_body]
fn sha256_update(h: &mut Sha256Stream, chunk: &[u8])
    ensures
        sha256_input(*final(h)) == sha256_input(*old(h)) + chunk@,
{
    h.inner.update(chunk);
}

/// `Digest::finalize`: the 32-byte digest of everything the hasher was fed.
#[verifier::external_body]
fn sha256_finalize(h: Sha256Stream) -> (d: Vec<u8>)
    ensures
        d@ == sha256(sha256_input(h)),
        d@.len() == 32,
{
    h.inner.finalize().to_vec()
}

/// What a streamed transfer has moved: the byte count and the running digest.
pub struct TransferDigest {
    total_bytes: u64,
    hasher: Sha256Stream,
}

impl TransferDigest {
    /// The bytes fed so far.
    pub closed spec fn seen(&self) -> Seq<u8> {
        sha256_input(self.hasher)
    }

    /// Well formed: the count kept is the number of bytes fed.
    pub closed spec fn wf(&self) -> bool {
        self.total_bytes == self.seen().len()
    }

    pub fn new() -> (t: Self)
        ensures
            t.wf(),
            t.seen() == Seq::<u8>::empty(),
    {
        TransferDigest { total_bytes: 0, hasher: sha256_new() }
    }

    /// The number of bytes fed so far.
    pub fn total_bytes(&self) -> (n: u64)
        requires
            self.wf(),
        ensures
            n == self.seen().len(),
    {
        self.total_bytes
    }

    /// Accounts for one chunk that was copied.
    pub fn on_chunk(&mut self, chunk: &[u8])
        requires
            old(self).wf(),
            old(self).seen().len() + chunk@.len() <= u64::MAX,
        ensures
            final(self).wf(),
            final(self).seen() == old(self).seen() + chunk@,
    {
        sha256_update(&mut self.hasher, chunk);
        self.total_bytes = self.total_bytes + chunk.len() as u64;
    }

    /// The byte count and the lowercase hex SHA-256 of all chunks.
    pub fn finish(self) -> (r: (u64, String))
        requires
            self.wf(),
        ensures
            r.0 == self.seen().len(),
            r.1@ == hex_of(sha256(self.seen())),
            r.1@.len() == 64,
    {
        let total = self.total_bytes;
        let d = sha256_finalize(self.hasher);
        let hex = bytes_to_hex(d.as_slice());
        proof {
            crate::codec::lemma_hex_len(d@);
        }
        (total, hex)
    }
}

} // verus!
