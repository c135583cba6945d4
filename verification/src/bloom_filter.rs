//! The filter itself: its mathematical model, its operations, and the laws
//! that relate them.

use crate::bit_store::{bit_view, fill_flags, filled, flag_at, set_flag};
use crate::hashing::{seeded_digest, xxh3_digest, FIRST_SEED, SECOND_SEED};
use crate::positions::{hash_positions, lemma_probe_in_range, probe, probes};
use bit_vec::BitVec;
use vstd::prelude::*;
use vstd::string::StringSliceAdditionalSpecFns;

verus! {

/// What a filter is, mathematically: its flags, one per bit, and the number
/// of positions that each element touches.
pub struct FilterModel {
    pub flags: Seq<bool>,
    pub hash_count: nat,
}

impl FilterModel {
    /// The number of bits, fixed when the filter is made.
    pub open spec fn bit_count(self) -> nat {
        self.flags.len()
    }

    /// A filter has at least one bit.
    pub open spec fn valid(self) -> bool {
        self.flags.len() > 0
    }

    /// The filter of the given size in which no flag is set.
    pub open spec fn blank(bit_count: nat, hash_count: nat) -> FilterModel {
        FilterModel { flags: Seq::new(bit_count, |i: int| false), hash_count }
    }

    /// The `i`-th position of `element` in this filter.
    pub open spec fn position(self, element: Seq<u8>, i: nat) -> nat {
        probe(
            xxh3_digest(FIRST_SEED, element),
            xxh3_digest(SECOND_SEED, element),
            self.bit_count(),
            i,
        )
    }

    /// All positions of `element` in this filter, in the order in which they
    /// are derived.
    pub open spec fn positions(self, element: Seq<u8>) -> Seq<nat> {
        probes(
            xxh3_digest(FIRST_SEED, element),
            xxh3_digest(SECOND_SEED, element),
            self.bit_count(),
            self.hash_count,
        )
    }

    /// Whether every position of `element` is set. With a hash count of zero
    /// there is no position to test, and the answer is `true`.
    pub open spec fn may_contain(self, element: Seq<u8>) -> bool {
        forall|i: nat| i < self.hash_count ==> self.flags[#[trigger] self.position(element, i) as int]
    }

    /// The filter after `element` is inserted: a flag is set if it was set
    /// before or is one of the element's positions.
    pub open spec fn insert(self, element: Seq<u8>) -> FilterModel {
        FilterModel {
            flags: Seq::new(
                self.flags.len(),
                |j: int| self.flags[j] || self.positions(element).contains(j as nat),
            ),
            hash_count: self.hash_count,
        }
    }

    /// The filter after it is cleared: same size, no flag set.
    pub open spec fn clear(self) -> FilterModel {
        FilterModel { flags: Seq::new(self.flags.len(), |j: int| false), hash_count: self.hash_count }
    }
}

/// A Bloom filter over a packed bit array, with two XXH3 hash functions from
/// which the positions of an element are derived by double hashing.
pub struct BloomFilter {
    bits: usize,
    data: BitVec,
    hash_count: u32,
}

/// The filter with the library's two fixed seeds.
pub type StandardBloomFilter = BloomFilter;

impl View for BloomFilter {
    type V = FilterModel;

    closed spec fn view(&self) -> FilterModel {
        FilterModel { flags: bit_view(self.data), hash_count: self.hash_count as nat }
    }
}

impl StandardBloomFilter {
    /// Makes a filter of `bits` bits, none of them set, in which each element
    /// touches `hash_count` positions.
    ///
    /// A hash count of zero is accepted: such a filter touches no bit and
    /// answers `true` to every query.
    pub fn with_bits_and_hash_count(bits: usize, hash_count: u32) -> (filter: StandardBloomFilter)
        requires
            bits > 0,
        ensures
            filter@ == FilterModel::blank(bits as nat, hash_count as nat),
    {
        let data = filled(bits, false);
        BloomFilter { bits, data, hash_count }
    }
}

impl BloomFilter {
    #[verifier::type_invariant]
    spec fn well_formed(&self) -> bool {
        &&& self.bits > 0
        &&& bit_view(self.data).len() == self.bits
    }

    /// The positions of `value`: its two digests, handed to the derivation.
    fn find_hash_bits(&self, value: &str) -> (positions: Vec<u64>)
        ensures
            self@.valid(),
            positions@.len() == self@.hash_count,
            forall|i: int|
                0 <= i < self@.hash_count ==> #[trigger] positions@[i] == self@.position(
                    value.spec_bytes(),
                    i as nat,
                ),
    {
        proof {
            use_type_invariant(self);
        }
        let bytes = value.as_bytes();
        let h0: u64 = if self.hash_count >= 1 {
            seeded_digest(FIRST_SEED, bytes)
        } else {
            0
        };
        let h1: u64 = if self.hash_count >= 2 {
            seeded_digest(SECOND_SEED, bytes)
        } else {
            0
        };
        hash_positions(h0, h1, self.bits, self.hash_count)
    }

    /// Whether `element` was possibly inserted: `true` exactly when every one
    /// of its positions is set.
    pub fn contains(&self, element: &str) -> (found: bool)
        ensures
            self@.valid(),
            found == self@.may_contain(element.spec_bytes()),
    {
        proof {
            use_type_invariant(self);
        }
        let hashes = self.find_hash_bits(element);
        let mut i: usize = 0;
        while i < hashes.len()
            invariant
                i <= hashes@.len(),
                hashes@.len() == self@.hash_count,
                self@.valid(),
                self@.flags == bit_view(self.data),
                self@.flags.len() == self.bits,
                forall|j: int|
                    0 <= j < self@.hash_count ==> #[trigger] hashes@[j] == self@.position(
                        element.spec_bytes(),
                        j as nat,
                    ),
                forall|j: nat|
                    j < i ==> self@.flags[#[trigger] self@.position(element.spec_bytes(), j) as int],
            decreases hashes@.len() - i,
        {
            proof {
                lemma_probe_in_range(
                    xxh3_digest(FIRST_SEED, element.spec_bytes()),
                    xxh3_digest(SECOND_SEED, element.spec_bytes()),
                    self@.bit_count(),
                    i as nat,
                );
            }
            let flag = flag_at(&self.data, hashes[i] as usize);
            if flag != Some(true) {
                assert(!self@.flags[self@.position(element.spec_bytes(), i as nat) as int]);
                return false;
            }
            i = i + 1;
        }
        true
    }

    /// Unsets every bit. The size and the hash count stay.
    pub fn clear(&mut self)
        ensures
            final(self)@ == old(self)@.clear(),
            final(self)@.valid(),
    {
        proof {
            use_type_invariant(&*self);
        }
        fill_flags(&mut self.data, false);
    }

    /// Sets every position of `element`. No bit is unset, so whatever the
    /// filter reported as possibly present before, it still does.
    pub fn insert(&mut self, element: &str)
        ensures
            final(self)@ == old(self)@.insert(element.spec_bytes()),
            final(self)@.valid(),
            final(self)@.may_contain(element.spec_bytes()),
    {
        proof {
            use_type_invariant(&*self);
        }
        let hashes = self.find_hash_bits(element);
        let ghost before = self@;
        let ghost wanted = before.positions(element.spec_bytes());
        let mut i: usize = 0;
        while i < hashes.len()
            invariant
                i <= hashes@.len(),
                hashes@.len() == before.hash_count,
                before.valid(),
                wanted == before.positions(element.spec_bytes()),
                forall|j: int|
                    0 <= j < before.hash_count ==> #[trigger] hashes@[j] == wanted[j],
                self@.hash_count == before.hash_count,
                self@.flags.len() == before.flags.len(),
                self@.flags.len() == self.bits,
                self.bits > 0,
                forall|p: int|
                    0 <= p < before.flags.len() ==> #[trigger] self@.flags[p] == (before.flags[p]
                        || wanted.take(i as int).contains(p as nat)),
            decreases hashes@.len() - i,
        {
            proof {
                lemma_probe_in_range(
                    xxh3_digest(FIRST_SEED, element.spec_bytes()),
                    xxh3_digest(SECOND_SEED, element.spec_bytes()),
                    before.bit_count(),
                    i as nat,
                );
                assert(wanted[i as int] == hashes@[i as int]);
            }
            set_flag(&mut self.data, hashes[i] as usize, true);
            proof {
                let next = wanted.take(i as int + 1);
                assert(next == wanted.take(i as int).push(wanted[i as int]));
                assert forall|p: int| 0 <= p < before.flags.len() implies #[trigger] self@.flags[p]
                    == (before.flags[p] || next.contains(p as nat)) by {
                    if p == wanted[i as int] {
                        assert(next[i as int] == p as nat);
                    } else if wanted.take(i as int).contains(p as nat) {
                        let k = choose|k: int|
                            0 <= k < i && wanted.take(i as int)[k] == p as nat;
                        assert(next[k] == p as nat);
                    } else if next.contains(p as nat) {
                        let k = choose|k: int| 0 <= k < i + 1 && next[k] == p as nat;
                        assert(k < i);
                        assert(wanted.take(i as int)[k] == p as nat);
                    }
                }
            }
            i = i + 1;
        }
        proof {
            assert(wanted.take(i as int) == wanted);
            assert(self@.flags =~= before.insert(element.spec_bytes()).flags);
            lemma_insert_then_contains(before, element.spec_bytes());
        }
    }
}

/// No false negatives: once an element is inserted, the filter reports it as
/// possibly present, whatever it held before.
pub proof fn lemma_insert_then_contains(filter: FilterModel, element: Seq<u8>)
    requires
        filter.valid(),
    ensures
        filter.insert(element).may_contain(element),
{
    let after = filter.insert(element);
    assert forall|i: nat| i < after.hash_count implies after.flags[#[trigger] after.position(
        element,
        i,
    ) as int] by {
        let p = filter.position(element, i);
        lemma_probe_in_range(
            xxh3_digest(FIRST_SEED, element),
            xxh3_digest(SECOND_SEED, element),
            filter.bit_count(),
            i,
        );
        assert(after.position(element, i) == p);
        assert(filter.positions(element)[i as int] == p);
        assert(filter.positions(element).contains(p));
    }
}

/// Insertion only ever sets bits: a flag that was set stays set, and a flag
/// that becomes set is one of the inserted element's positions.
pub proof fn lemma_insert_only_sets(filter: FilterModel, element: Seq<u8>, j: int)
    requires
        0 <= j < filter.bit_count(),
    ensures
        filter.flags[j] ==> filter.insert(element).flags[j],
        filter.insert(element).flags[j] && !filter.flags[j] ==> filter.positions(element).contains(
            j as nat,
        ),
        filter.insert(element).bit_count() == filter.bit_count(),
        filter.insert(element).hash_count == filter.hash_count,
{
}

/// An element that the filter reports as possibly present is still reported
/// so after any other element is inserted.
pub proof fn lemma_insert_keeps_members(filter: FilterModel, element: Seq<u8>, other: Seq<u8>)
    requires
        filter.valid(),
        filter.may_contain(other),
    ensures
        filter.insert(element).may_contain(other),
{
    let after = filter.insert(element);
    assert forall|i: nat| i < after.hash_count implies after.flags[#[trigger] after.position(
        other,
        i,
    ) as int] by {
        lemma_probe_in_range(
            xxh3_digest(FIRST_SEED, other),
            xxh3_digest(SECOND_SEED, other),
            filter.bit_count(),
            i,
        );
        assert(after.position(other, i) == filter.position(other, i));
        assert(filter.flags[filter.position(other, i) as int]);
    }
}

/// Inserting an element a second time changes nothing.
pub proof fn lemma_insert_idempotent(filter: FilterModel, element: Seq<u8>)
    ensures
        filter.insert(element).insert(element) == filter.insert(element),
{
    let once = filter.insert(element);
    let twice = once.insert(element);
    assert(once.positions(element) == filter.positions(element));
    assert(twice.flags =~= once.flags);
}

/// A filter in which no flag is set reports no element as present, unless its
/// hash count is zero: then it has no position to test and reports every
/// element.
pub proof fn lemma_blank_contains_nothing(bit_count: nat, hash_count: nat, element: Seq<u8>)
    requires
        bit_count > 0,
    ensures
        FilterModel::blank(bit_count, hash_count).may_contain(element) == (hash_count == 0),
{
    let blank = FilterModel::blank(bit_count, hash_count);
    if hash_count > 0 {
        lemma_probe_in_range(
            xxh3_digest(FIRST_SEED, element),
            xxh3_digest(SECOND_SEED, element),
            bit_count,
            0,
        );
        assert(!blank.flags[blank.position(element, 0) as int]);
    }
}

/// Clearing resets fully: a cleared filter is the filter that is freshly made
/// with the same bit count and hash count, so the two answer every query
/// alike, whatever was inserted before.
pub proof fn lemma_clear_matches_fresh(filter: FilterModel, element: Seq<u8>)
    ensures
        filter.clear() == FilterModel::blank(filter.bit_count(), filter.hash_count),
        filter.clear().may_contain(element) == FilterModel::blank(
            filter.bit_count(),
            filter.hash_count,
        ).may_contain(element),
{
    assert(filter.clear().flags =~= FilterModel::blank(
        filter.bit_count(),
        filter.hash_count,
    ).flags);
}

/// Queries are deterministic: the answer is a function of the filter's
/// contents and the element, so two filters with equal contents, or one
/// filter asked twice with no change in between, give the same answer.
pub proof fn lemma_query_deterministic(first: BloomFilter, second: BloomFilter, element: Seq<u8>)
    requires
        first@ == second@,
    ensures
        first@.may_contain(element) == second@.may_contain(element),
{
}

} // verus!
