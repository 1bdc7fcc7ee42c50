//! Best-effort content hashing used to derive deterministic names for
//! normalized files: small inputs are hashed whole, large ones by their
//! first and last kilobyte.

use vstd::prelude::*;

verus! {

/// The lowercase hexadecimal SHA-256 digest of the bytes.
pub uninterp spec fn sha256_hex_of(b: Seq<u8>) -> Seq<char>;

/// Relies on sha256::digest, which returns the lowercase hex digest of the
/// input bytes: 64 hex characters for the 32-byte hash, a function of the
/// bytes alone.
#[verifier::external_body]
fn sha256_hex(bytes: &[u8]) -> (r: String)
    ensures
        r@ == sha256_hex_of(bytes@),
        r@.len() == 64,
{
    sha256::digest(bytes)
}

/// Inputs under this many bytes are hashed whole.
pub const WHOLE_HASH_LIMIT: usize = 1000000;

/// How many bytes are taken from each end of a large input.
pub const HASH_CHUNK: usize = 1024;

/// The bytes that the fast hash actually digests: everything for a small
/// input, the first and last kilobyte for a large one.
pub open spec fn fast_hash_input(b: Seq<u8>) -> Seq<u8> {
    if b.len() < WHOLE_HASH_LIMIT {
        b
    } else {
        b.take(HASH_CHUNK as int) + b.skip(b.len() - HASH_CHUNK)
    }
}

/// Digest of the whole input when it is small, of its first and last
/// kilobyte when it is large; 64 lowercase hex characters either way.
pub fn fast_hash(data: &[u8]) -> (r: String)
    ensures
        r@ == sha256_hex_of(fast_hash_input(data@)),
        r@.len() == 64,
{
    let n = data.len();
    if n < WHOLE_HASH_LIMIT {
        sha256_hex(data)
    } else {
        let mut buf: Vec<u8> = Vec::new();
        let mut i: usize = 0;
        while i < HASH_CHUNK
            invariant
                0 <= i <= HASH_CHUNK,
                n == data@.len(),
                n >= WHOLE_HASH_LIMIT > HASH_CHUNK,
                buf@ =~= data@.take(i as int),
            decreases HASH_CHUNK - i,
        {
            buf.push(data[i]);
            i = i + 1;
            proof {
                assert(buf@ =~= data@.take(i as int));
            }
        }
        let mut j: usize = n - HASH_CHUNK;
        while j < n
            invariant
                n - HASH_CHUNK <= j <= n,
                n == data@.len(),
                n >= WHOLE_HASH_LIMIT > HASH_CHUNK,
                buf@ =~= data@.take(HASH_CHUNK as int) + data@.subrange(
                    n - HASH_CHUNK,
                    j as int,
                ),
            decreases n - j,
        {
            buf.push(data[j]);
            j = j + 1;
            proof {
                assert(buf@ =~= data@.take(HASH_CHUNK as int) + data@.subrange(
                    n - HASH_CHUNK,
                    j as int,
                ));
            }
        }
        proof {
            assert(data@.subrange(n - HASH_CHUNK, n as int) =~= data@.skip(n - HASH_CHUNK));
            assert(buf@ =~= fast_hash_input(data@));
        }
        sha256_hex(buf.as_slice())
    }
}

} // verus!
