//! The identity of a failure: a fixed-length digest of its diagnostic text.
use vstd::prelude::*;
use sha2::Digest;
use vstd::string::StringSliceAdditionalSpecFns;
use vstd::string::StrSliceExecFns;

verus! {

/// The SHA-256 digest of a byte sequence.
pub uninterp spec fn sha256_of(data: Seq<u8>) -> Seq<u8>;

/// Number of bytes in an identity.
pub const IDENTITY_LEN: usize = 32;

/// Relies on `sha2::Sha256` (new, update, finalize): the digest depends on the
/// bytes alone and is 32 bytes long (its output size is `U32`).
#[verifier::external_body]
fn sha256(data: &[u8]) -> (r: Vec<u8>)
    ensures
        r@ == sha256_of(data@),
        r@.len() == IDENTITY_LEN,
{
    let mut hasher = sha2::Sha256::new();
    hasher.update(data);
    Vec::from(&*hasher.finalize())
}

/// Derives the identity of a byte sequence.
pub fn hash(data: &[u8]) -> (r: Vec<u8>)
    ensures
        r@ == sha256_of(data@),
        r@.len() == IDENTITY_LEN,
{
    sha256(data)
}

/// Derives the identity of a diagnostic text from its UTF-8 bytes.
pub fn identity_of(diagnostic_text: &str) -> (r: Vec<u8>)
    ensures
        r@ == sha256_of(diagnostic_text.spec_bytes()),
        r@.len() == IDENTITY_LEN,
{
    let bytes = diagnostic_text.as_bytes_vec();
    hash(bytes.as_slice())
}

/// Hashing is deterministic: equal inputs always give equal identities, of the
/// same fixed length whatever the input's length.
pub proof fn hash_is_deterministic(x: Seq<u8>, y: Seq<u8>, rx: Seq<u8>, ry: Seq<u8>)
    requires
        x == y,
        rx == sha256_of(x),
        ry == sha256_of(y),
    ensures
        rx == ry,
{
}

} // verus!
