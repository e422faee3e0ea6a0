//! SHA-256 digests and byte-level hash comparison.
//!
//! The digest itself comes from the `sha2` crate behind one trusted
//! wrapper; everything stated about digests elsewhere in the crate goes
//! through the `sha256_of` name that the wrapper's contract introduces.

use sha2::Digest;
use vstd::prelude::*;

verus! {

/// The SHA-256 digest of a byte sequence. What the digest is on given
/// bytes is not stated; it depends on the bytes alone.
pub uninterp spec fn sha256_of(data: Seq<u8>) -> Seq<u8>;

/// Relies on sha2::Sha256: the digest is 32 bytes and depends on the
/// input bytes alone.
#[verifier::external_body]
pub fn sha256(data: &[u8]) -> (r: Vec<u8>)
    ensures
        r@ == sha256_of(data@),
        r@.len() == 32,
{
    let mut hasher = sha2::Sha256::new();
    hasher.update(data);
    hasher.finalize().to_vec()
}

/// Whether two byte slices hold the same bytes.
pub fn bytes_eq(a: &[u8], b: &[u8]) -> (r: bool)
    ensures
        r == (a@ == b@),
{
    if a.len() != b.len() {
        proof {
            assert(a@.len() != b@.len());
        }
        return false;
    }
    let mut i: usize = 0;
    while i < a.len()
        invariant
            i <= a@.len(),
            a@.len() == b@.len(),
            forall|k: int| 0 <= k < i ==> a@[k] == b@[k],
        decreases a@.len() - i,
    {
        if a[i] != b[i] {
            return false;
        }
        i = i + 1;
    }
    proof {
        assert(a@ =~= b@);
    }
    true
}

/// Whether `data` passes the check against `expected_hash`: an empty
/// expectation always passes, a non-empty one passes exactly when it
/// equals the SHA-256 of `data`.
pub fn verify_hash(data: &[u8], expected_hash: &[u8]) -> (r: bool)
    ensures
        r == (expected_hash@.len() == 0 || sha256_of(data@) == expected_hash@),
{
    if expected_hash.len() == 0 {
        return true;
    }
    let digest = sha256(data);
    bytes_eq(digest.as_slice(), expected_hash)
}

} // verus!
