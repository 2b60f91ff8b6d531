//! The largest element of a slice, in three castes: for machine integers,
//! for copyable ordered types, and by reference for merely ordered types.

use core::cmp::Ordering;
use vstd::prelude::*;
use vstd::slice::slice_index_get;
use vstd::std_specs::cmp::PartialOrdSpec;

verus! {

/// The largest element of a slice of integers.
pub fn largest(list: &[i32]) -> (r: i32)
    requires
        list@.len() > 0,
    ensures
        list@.contains(r),
        forall|k: int| 0 <= k < list@.len() ==> list@[k] <= r,
{
    let mut result = list[0];
    let mut i: usize = 0;
    while i < list.len()
        invariant
            list@.len() > 0,
            i <= list@.len(),
            list@.contains(result),
            forall|k: int| 0 <= k < i ==> list@[k] <= result,
        decreases list@.len() - i,
    {
        let item = list[i];
        if item > result {
            result = item;
        }
        i += 1;
    }
    result
}

/// The state of the scan for the largest element after seeing the elements
/// from `i` on, having kept `acc` so far: a new element is kept when it
/// compares strictly greater than what is held.
pub open spec fn scan_largest<T: PartialOrd + PartialOrdSpec>(s: Seq<T>, i: int, acc: T) -> T
    decreases s.len() - i,
    when 0 <= i <= s.len()
{
    if i >= s.len() {
        acc
    } else {
        scan_largest(
            s,
            i + 1,
            if s[i].partial_cmp_spec(&acc) == Some(Ordering::Greater) {
                s[i]
            } else {
                acc
            },
        )
    }
}

/// What the scan yields over the whole slice, started on its first
/// element. Over a total order this is the maximum; over a merely partial
/// order it is still exactly what the scan keeps.
pub open spec fn largest_fold<T: PartialOrd + PartialOrdSpec>(s: Seq<T>) -> T
    recommends
        s.len() > 0,
{
    scan_largest(s, 0, s[0])
}

/// The element the largest-scan keeps, for copyable ordered types. When
/// the type's order obeys its comparison specification the result is
/// pinned to [`largest_fold`]; in any case some element of the slice comes
/// back.
pub fn largest2<T>(list: &[T]) -> (r: T) where T: PartialOrd + Copy + PartialOrdSpec
    requires
        list@.len() > 0,
    ensures
        list@.contains(r),
        T::obeys_partial_cmp_spec() ==> r == largest_fold(list@),
{
    let mut result = list[0];
    let mut i: usize = 0;
    while i < list.len()
        invariant
            list@.len() > 0,
            i <= list@.len(),
            list@.contains(result),
            T::obeys_partial_cmp_spec() ==> scan_largest(list@, i as int, result)
                == largest_fold(list@),
        decreases list@.len() - i,
    {
        let item = list[i];
        if item > result {
            result = item;
        }
        i += 1;
    }
    result
}

/// The element the largest-scan keeps, returned by reference, for ordered
/// types that need not be copyable.
pub fn largest3<'a, T>(list: &'a [T]) -> (r: &'a T) where T: PartialOrd + PartialOrdSpec
    requires
        list@.len() > 0,
    ensures
        list@.contains(*r),
        T::obeys_partial_cmp_spec() ==> *r == largest_fold(list@),
{
    let mut result: &'a T = slice_index_get(list, 0);
    let mut i: usize = 0;
    while i < list.len()
        invariant
            list@.len() > 0,
            i <= list@.len(),
            list@.contains(*result),
            T::obeys_partial_cmp_spec() ==> scan_largest(list@, i as int, *result)
                == largest_fold(list@),
        decreases list@.len() - i,
    {
        let item = slice_index_get(list, i);
        if item > result {
            result = item;
        }
        i += 1;
    }
    result
}

} // verus!
