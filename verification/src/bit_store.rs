//! The packed bit array that backs a filter, as `bit_vec::BitVec` provides it.
//!
//! Nothing in this module is proved: each contract below restates what the
//! `bit-vec` crate documents and implements, and the rest of the library is
//! verified against these statements.

use bit_vec::BitVec;
use vstd::prelude::*;

verus! {

#[verifier::external_type_specification]
#[verifier::external_body]
#[verifier::reject_recursive_types(B)]
pub struct ExBitVec<B>(BitVec<B>);

/// The flags that a `BitVec` holds, first to last.
pub uninterp spec fn bit_view(store: BitVec) -> Seq<bool>;

/// `BitVec::from_elem`: a vector of `len` flags, each equal to `bit`.
#[verifier::external_body]
pub(crate) fn filled(len: usize, bit: bool) -> (store: BitVec)
    ensures
        bit_view(store) == Seq::new(len as nat, |i: int| bit),
{
    BitVec::from_elem(len, bit)
}

/// `BitVec::get`: the flag at index `i`, or `None` where `i` is not below the
/// vector's length.
#[verifier::external_body]
pub(crate) fn flag_at(store: &BitVec, i: usize) -> (flag: Option<bool>)
    ensures
        flag == if i < bit_view(*store).len() {
            Some(bit_view(*store)[i as int])
        } else {
            None
        },
{
    store.get(i)
}

/// `BitVec::set`: the flag at index `i` becomes `bit` and every other flag
/// stays. The outside method panics where `i` is out of bounds, so such an
/// index is excluded.
#[verifier::external_body]
pub(crate) fn set_flag(store: &mut BitVec, i: usize, bit: bool)
    requires
        i < bit_view(*old(store)).len(),
    ensures
        bit_view(*final(store)) == bit_view(*old(store)).update(i as int, bit),
    no_unwind
{
    store.set(i, bit)
}

/// `BitVec::fill`: every flag becomes `bit`; the length stays.
#[verifier::external_body]
pub(crate) fn fill_flags(store: &mut BitVec, bit: bool)
    ensures
        bit_view(*final(store)) == Seq::new(bit_view(*old(store)).len(), |i: int| bit),
    no_unwind
{
    store.fill(bit)
}

} // verus!
