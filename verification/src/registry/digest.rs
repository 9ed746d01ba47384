//! Digesting an artifact's contents.
//!
//! Reading every byte is expensive for a large container, so it is a step of its
//! own, fed chunk by chunk.

use vstd::prelude::*;
use vstd::string::*;

verus! {

/// The most bytes that can be digested: SHA-256 counts their bits in 64.
pub const MAX_DIGESTED_BYTES: u64 = 0x1fff_ffff_ffff_ffff;

/// How many bytes a SHA-256 digest has.
pub const DIGEST_BYTES: usize = 32;

/// A SHA-256 hasher of the `sha2` crate.
#[verifier::external_body]
pub struct Hasher {
    hasher: sha2::Sha256,
}

/// The bytes a hasher has been given so far.
pub uninterp spec fn absorbed(hasher: Hasher) -> Seq<u8>;

/// The SHA-256 digest of a byte sequence.
pub uninterp spec fn sha256(bytes: Seq<u8>) -> Seq<u8>;

/// `sha2::Sha256::new`: a hasher that has been given nothing.
#[verifier::external_body]
fn new_hasher() -> (hasher: Hasher)
    ensures
        absorbed(hasher) == Seq::<u8>::empty(),
{
    Hasher { hasher: sha2::Digest::new() }
}

/// `sha2::Sha256::update`: gives a hasher more bytes.
#[verifier::external_body]
fn absorb(hasher: &mut Hasher, chunk: &[u8])
    requires
        absorbed(*old(hasher)).len() + chunk@.len() <= MAX_DIGESTED_BYTES,
    ensures
        absorbed(*final(hasher)) == absorbed(*old(hasher)) + chunk@,
{
    sha2::Digest::update(&mut hasher.hasher, chunk);
}

/// `sha2::Sha256::finalize`: the digest of everything the hasher was given.
#[verifier::external_body]
fn finalize(hasher: Hasher) -> (digest: Vec<u8>)
    requires
        absorbed(hasher).len() <= MAX_DIGESTED_BYTES,
    ensures
        digest@ == sha256(absorbed(hasher)),
        digest@.len() == DIGEST_BYTES,
{
    sha2::Digest::finalize(hasher.hasher).to_vec()
}

/// A digest under way.
pub struct ContentDigest {
    hasher: Hasher,
    count: u64,
}

impl View for ContentDigest {
    type V = Seq<u8>;

    /// The bytes read so far.
    closed spec fn view(&self) -> Seq<u8> {
        absorbed(self.hasher)
    }
}

impl ContentDigest {
    #[verifier::type_invariant]
    spec fn counts(self) -> bool {
        self.count == absorbed(self.hasher).len() && self.count <= MAX_DIGESTED_BYTES
    }

    /// A digest of nothing yet.
    pub fn new() -> (digest: Self)
        ensures
            digest@.len() == 0,
    {
        ContentDigest { hasher: new_hasher(), count: 0 }
    }

    /// Adds the next chunk of the contents, unless there is more than can be
    /// digested.
    pub fn update(self, chunk: &[u8]) -> (result: Result<Self, String>)
        ensures
            match result {
                Ok(digest) => self@.len() + chunk@.len() <= MAX_DIGESTED_BYTES && digest@ == self@
                    + chunk@,
                Err(reason) => self@.len() + chunk@.len() > MAX_DIGESTED_BYTES && reason@
                    == "the contents are too long to digest"@,
            },
    {
        proof {
            use_type_invariant(&self);
        }
        if chunk.len() as u64 > MAX_DIGESTED_BYTES - self.count {
            return Err("the contents are too long to digest".to_owned());
        }
        let count: u64 = self.count + chunk.len() as u64;
        let mut hasher = self.hasher;
        absorb(&mut hasher, chunk);
        Ok(ContentDigest { hasher, count })
    }

    /// The digest of everything read.
    pub fn finish(self) -> (digest: Vec<u8>)
        ensures
            digest@ == sha256(self@),
            digest@.len() == DIGEST_BYTES,
            digest@.len() == 32,
    {
        proof {
            use_type_invariant(&self);
        }
        finalize(self.hasher)
    }
}

} // verus!
