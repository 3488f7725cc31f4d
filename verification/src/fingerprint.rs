//! Content fingerprints: the identity of a sound is the MD5 digest of its bytes.

use vstd::prelude::*;

verus! {

/// Number of bytes in a fingerprint.
pub const DIGEST_LEN: usize = 16;

/// The MD5 digest of `bytes`, as the `md5` crate computes it.
pub uninterp spec fn md5_digest(bytes: Seq<u8>) -> Seq<u8>;

/// Calls `md5::compute` and unwraps the sixteen bytes of its `Digest`.
///
/// Trusted: the result is the crate's digest of exactly the bytes given. The
/// digest depends on nothing but those bytes, and the call does not panic.
#[verifier::external_body]
fn md5_compute(bytes: &[u8]) -> (digest: [u8; 16])
    ensures
        digest@ == md5_digest(bytes@),
{
    md5::compute(bytes).0
}

/// The fingerprint of a file's contents. An empty slice has a fingerprint
/// like any other.
pub fn fingerprint(bytes: &[u8]) -> (digest: [u8; 16])
    ensures
        digest@ == md5_digest(bytes@),
        digest@.len() == DIGEST_LEN,
{
    md5_compute(bytes)
}

/// Whether two fingerprints are the same sixteen bytes.
pub fn same_fingerprint(a: &[u8; 16], b: &[u8; 16]) -> (same: bool)
    ensures
        same == (a@ == b@),
{
    let mut i: usize = 0;
    while i < 16
        invariant
            i <= 16,
            forall|j: int| 0 <= j < i ==> a@[j] == b@[j],
        decreases 16 - i,
    {
        if a[i] != b[i] {
            return false;
        }
        i += 1;
    }
    assert(a@ =~= b@);
    true
}

} // verus!
