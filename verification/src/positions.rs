//! Double hashing: the bit positions that two digests select.

use vstd::prelude::*;

verus! {

/// The `i`-th position that the digests `h0` and `h1` select among
/// `bit_count` bits: `h0` reduced for the first, `h1` reduced for the second,
/// and from then on the first plus `i` times the second, reduced again.
pub open spec fn probe(h0: u64, h1: u64, bit_count: nat, i: nat) -> nat
    recommends
        bit_count > 0,
{
    let first = (h0 as nat) % bit_count;
    let second = (h1 as nat) % bit_count;
    if i == 0 {
        first
    } else if i == 1 {
        second
    } else {
        (first + i * second) % bit_count
    }
}

/// The first `hash_count` positions, in order.
pub open spec fn probes(h0: u64, h1: u64, bit_count: nat, hash_count: nat) -> Seq<nat> {
    Seq::new(hash_count, |i: int| probe(h0, h1, bit_count, i as nat))
}

/// Every position lies inside the array.
pub proof fn lemma_probe_in_range(h0: u64, h1: u64, bit_count: nat, i: nat)
    requires
        bit_count > 0,
    ensures
        probe(h0, h1, bit_count, i) < bit_count,
{
    let first = (h0 as nat) % bit_count;
    let second = (h1 as nat) % bit_count;
    assert(first < bit_count && second < bit_count && (first + i * second) % bit_count
        < bit_count) by (nonlinear_arith)
        requires
            bit_count > 0,
            first == (h0 as nat) % bit_count,
            second == (h1 as nat) % bit_count,
    ;
}

/// Derives the `hash_count` positions of an element from its two digests.
///
/// The sum `first + i * second` is formed in 128 bits, where it cannot
/// overflow, so each position is the exact remainder whatever the sizes.
pub fn hash_positions(h0: u64, h1: u64, bits: usize, hash_count: u32) -> (positions: Vec<u64>)
    requires
        bits > 0,
    ensures
        positions@.len() == hash_count,
        forall|i: int|
            0 <= i < hash_count ==> #[trigger] positions@[i] == probe(
                h0,
                h1,
                bits as nat,
                i as nat,
            ),
{
    let modulus: u64 = bits as u64;
    let mut positions: Vec<u64> = Vec::with_capacity(hash_count as usize);
    if hash_count >= 1 {
        positions.push(h0 % modulus);
    }
    if hash_count >= 2 {
        positions.push(h1 % modulus);
    }
    let mut i: u32 = 2;
    while i < hash_count
        invariant
            modulus == bits,
            bits > 0,
            2 <= i,
            hash_count >= 2 ==> i <= hash_count,
            positions@.len() == if hash_count < 2 {
                hash_count
            } else {
                i
            },
            forall|j: int|
                0 <= j < positions@.len() ==> #[trigger] positions@[j] == probe(
                    h0,
                    h1,
                    bits as nat,
                    j as nat,
                ),
        decreases hash_count - i,
    {
        let first: u128 = positions[0] as u128;
        let second: u128 = positions[1] as u128;
        assert((i as u128) * second <= 0xffff_ffff * 0xffff_ffff_ffff_ffff) by (nonlinear_arith)
            requires
                i <= 0xffff_ffff,
                second <= 0xffff_ffff_ffff_ffff,
        ;
        let position: u128 = (first + (i as u128) * second) % (modulus as u128);
        positions.push(position as u64);
        i = i + 1;
    }
    positions
}

} // verus!
