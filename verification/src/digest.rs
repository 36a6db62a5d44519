//! The BLAKE3 digest, as the `blake3` crate computes it.
use vstd::prelude::*;

verus! {

/// BLAKE3's 32-byte digest of a byte string.
pub uninterp spec fn blake3_digest(data: Seq<u8>) -> Seq<u8>;

/// Calls `blake3::hash` and returns the 32 bytes of the resulting `Hash`.
/// The contract only names the digest: the same input always gives the same
/// 32 bytes; nothing else about the hash function is claimed.
#[verifier::external_body]
pub fn blake3_hash(data: &[u8]) -> (r: [u8; 32])
    ensures
        r@ == blake3_digest(data@),
{
    *blake3::hash(data).as_bytes()
}

/// The first 16 bytes of the BLAKE3 digest of `data`.
pub fn blake3_prefix16(data: &[u8]) -> (r: [u8; 16])
    ensures
        r@ == blake3_digest(data@).subrange(0, 16),
{
    let digest = blake3_hash(data);
    let mut out: [u8; 16] = [0u8; 16];
    let mut i: usize = 0;
    while i < 16
        invariant
            i <= 16,
            out@.len() == 16,
            digest@ == blake3_digest(data@),
            digest@.len() == 32,
            forall|k: int| 0 <= k < i ==> out@[k] == digest@[k],
        decreases 16 - i,
    {
        out[i] = digest[i];
        i = i + 1;
    }
    proof { assert(out@ =~= blake3_digest(data@).subrange(0, 16)); }
    out
}

} // verus!
