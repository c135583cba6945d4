//! The two seeded hash functions of a filter, as `xxhash_rust` provides them.
//!
//! XXH3 is far too long to restate, so its result is only given a name here:
//! the digest of a byte sequence under a seed. The crate computes it from
//! these two values alone, in the same way on every machine.

use std::hash::{BuildHasher, Hasher};
use vstd::prelude::*;
use xxhash_rust::xxh3::Xxh3Builder;

verus! {

/// Seed of the hash function that selects an element's first position.
pub const FIRST_SEED: u64 = 0x9747b28c;

/// Seed of the hash function that selects an element's second position and
/// the stride between the later ones.
pub const SECOND_SEED: u64 = 0xe17a1465;

/// The 64-bit XXH3 digest of `bytes` under `seed`.
pub uninterp spec fn xxh3_digest(seed: u64, bytes: Seq<u8>) -> u64;

/// Feeds `bytes` to the hasher that `Xxh3Builder::with_seed(seed)` builds and
/// returns what `finish` reports: the XXH3 digest of exactly these bytes under
/// that seed. Nothing more is claimed of the value.
#[verifier::external_body]
pub(crate) fn seeded_digest(seed: u64, bytes: &[u8]) -> (digest: u64)
    ensures
        digest == xxh3_digest(seed, bytes@),
{
    let mut hasher = Xxh3Builder::new().with_seed(seed).build_hasher();
    hasher.write(bytes);
    hasher.finish()
}

} // verus!
