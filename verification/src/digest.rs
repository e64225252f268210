//! SHA-3 digests: the content hash that keys stored assets and the
//! credential hash of a salted password.

use crypto::digest::Digest;
use crypto::sha3::Sha3;
use vstd::prelude::*;
use vstd::string::StringSliceAdditionalSpecFns;

verus! {

/// The number of hexadecimal digits in a content hash.
pub const CONTENT_HASH_LEN: usize = 56;

/// The number of hexadecimal digits in a credential hash.
pub const CREDENTIAL_HASH_LEN: usize = 64;

/// `crypto::sha3::Sha3`, the hasher. What is inside it is not looked at.
#[verifier::external_type_specification]
#[verifier::external_body]
pub struct ExSha3(Sha3);

/// The bytes a hasher has been fed so far, in order.
pub uninterp spec fn sha3_input(h: Sha3) -> Seq<u8>;

/// The hasher computes SHA3-224 and has not yet given out its digest.
pub uninterp spec fn sha3_224_absorbing(h: Sha3) -> bool;

/// The hasher computes SHA3-256 and has not yet given out its digest.
pub uninterp spec fn sha3_256_absorbing(h: Sha3) -> bool;

/// The SHA3-224 digest of `data`, as 56 lower-case hexadecimal digits.
pub uninterp spec fn sha3_224_hex(data: Seq<u8>) -> Seq<char>;

/// The SHA3-256 digest of `data`, as 64 lower-case hexadecimal digits.
pub uninterp spec fn sha3_256_hex(data: Seq<u8>) -> Seq<char>;

/// `Sha3::sha3_224`: a new SHA3-224 hasher, which has been fed nothing.
#[verifier::external_body]
fn sha3_224_new() -> (h: Sha3)
    ensures
        sha3_224_absorbing(h),
        sha3_input(h) == Seq::<u8>::empty(),
{
    Sha3::sha3_224()
}

/// `Sha3::sha3_256`: a new SHA3-256 hasher, which has been fed nothing.
#[verifier::external_body]
fn sha3_256_new() -> (h: Sha3)
    ensures
        sha3_256_absorbing(h),
        sha3_input(h) == Seq::<u8>::empty(),
{
    Sha3::sha3_256()
}

/// `Digest::input` on a `Sha3`: appends `data` to what the hasher has been
/// fed. It panics once the digest has been taken, and only then, so it
/// asks for a hasher that still absorbs and does not unwind on one; such
/// a hasher stays what it is.
#[verifier::external_body]
fn sha3_absorb(h: &mut Sha3, data: &[u8])
    requires
        sha3_224_absorbing(*old(h)) || sha3_256_absorbing(*old(h)),
    ensures
        sha3_input(*final(h)) == sha3_input(*old(h)) + data@,
        sha3_224_absorbing(*final(h)) == sha3_224_absorbing(*old(h)),
        sha3_256_absorbing(*final(h)) == sha3_256_absorbing(*old(h)),
    no_unwind
{
    h.input(data)
}

/// `Digest::result_str` on a `Sha3`: the digest of everything the hasher was
/// fed, in hexadecimal, two digits for each of its 28 or 32 bytes. The
/// hasher is used up.
#[verifier::external_body]
fn sha3_finish(h: Sha3) -> (hex: String)
    requires
        sha3_224_absorbing(h) || sha3_256_absorbing(h),
    ensures
        sha3_224_absorbing(h) ==> hex@ == sha3_224_hex(sha3_input(h)) && hex@.len()
            == CONTENT_HASH_LEN,
        sha3_256_absorbing(h) ==> hex@ == sha3_256_hex(sha3_input(h)) && hex@.len()
            == CREDENTIAL_HASH_LEN,
{
    let mut h = h;
    h.result_str()
}

/// The content hash of `bytes`: its SHA3-224 digest in hexadecimal.
pub fn hash(bytes: &[u8]) -> (hex: String)
    ensures
        hex@ == sha3_224_hex(bytes@),
        hex@.len() == CONTENT_HASH_LEN,
{
    let mut hasher = sha3_224_new();
    sha3_absorb(&mut hasher, bytes);
    sha3_finish(hasher)
}

/// The credential hash of `s`: the SHA3-256 digest of its UTF-8 bytes in
/// hexadecimal.
pub fn secure_hash(s: &str) -> (hex: String)
    ensures
        hex@ == sha3_256_hex(s.spec_bytes()),
        hex@.len() == CREDENTIAL_HASH_LEN,
{
    let mut hasher = sha3_256_new();
    sha3_absorb(&mut hasher, s.as_bytes());
    sha3_finish(hasher)
}

/// A content hash computed piece by piece, for input that arrives in chunks.
pub struct ContentHasher {
    inner: Sha3,
}

impl ContentHasher {
    #[verifier::type_invariant]
    spec fn absorbing(self) -> bool {
        sha3_224_absorbing(self.inner)
    }

    /// The bytes fed so far.
    pub closed spec fn fed(self) -> Seq<u8> {
        sha3_input(self.inner)
    }

    pub fn new() -> (hasher: ContentHasher)
        ensures
            hasher.fed() == Seq::<u8>::empty(),
    {
        ContentHasher { inner: sha3_224_new() }
    }

    /// Feeds the next chunk.
    pub fn update(&mut self, chunk: &[u8])
        ensures
            final(self).fed() == old(self).fed() + chunk@,
    {
        proof {
            use_type_invariant(&*self);
        }
        sha3_absorb(&mut self.inner, chunk);
    }

    /// The content hash of all the chunks, as `hash` gives it for their
    /// concatenation.
    pub fn finish(self) -> (hex: String)
        ensures
            hex@ == sha3_224_hex(self.fed()),
            hex@.len() == CONTENT_HASH_LEN,
    {
        proof {
            use_type_invariant(&self);
        }
        sha3_finish(self.inner)
    }
}

} // verus!
