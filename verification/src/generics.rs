//! Code that is written once for every type of item: the largest of a list,
//! a point, a box.

use vstd::prelude::*;
use vstd::std_specs::cmp::{PartialOrdIs, PartialOrdSpec};

verus! {

/// The largest of the first `n` items as a pass from the front finds it: the
/// first item, replaced by each later one that is greater than the largest
/// before it.
pub open spec fn largest_of<T: PartialOrd>(list: Seq<T>, n: nat) -> T
    decreases n,
{
    if n <= 1 {
        list[0]
    } else {
        let before = largest_of(list, (n - 1) as nat);
        if list[n - 1].is_gt(&before) {
            list[n - 1]
        } else {
            before
        }
    }
}

/// Where in the list a pass from the front over the first `n` items finds
/// the largest.
pub open spec fn largest_at<T: PartialOrd>(list: Seq<T>, n: nat) -> nat
    decreases n,
{
    if n <= 1 {
        0
    } else {
        let before = largest_at(list, (n - 1) as nat);
        if list[n - 1].is_gt(&list[before as int]) {
            (n - 1) as nat
        } else {
            before
        }
    }
}

/// "Greater" orders the type as a total order does, ties allowed: nothing is
/// greater than itself, what is greater than something greater is greater,
/// and what is greater than `y` is greater than everything that `y` is not
/// below.
pub open spec fn greater_is_total<T: PartialOrd>() -> bool {
    &&& forall|x: T| !(#[trigger] above(x, x))
    &&& forall|x: T, y: T, z: T| #[trigger] above(x, y) && #[trigger] above(y, z) ==> above(x, z)
    &&& forall|x: T, y: T, z: T| #[trigger] above(x, y) && !(#[trigger] above(z, y)) ==> above(x, z)
}

/// `x` is greater than `y`.
pub open spec fn above<T: PartialOrd>(x: T, y: T) -> bool {
    x.is_gt(&y)
}

/// Under a total order the largest is what its name says: it is the item at
/// `largest_at`, no item is greater than it, and it is greater than every
/// item before it, so that of several largest items the first is taken.
pub proof fn lemma_largest_is_greatest<T: PartialOrd>(list: Seq<T>, n: nat)
    requires
        greater_is_total::<T>(),
        1 <= n <= list.len(),
    ensures
        largest_at(list, n) < n,
        largest_of(list, n) == list[largest_at(list, n) as int],
        forall|j: int| 0 <= j < n ==> !above(#[trigger] list[j], largest_of(list, n)),
        forall|j: int|
            0 <= j < largest_at(list, n) ==> above(largest_of(list, n), #[trigger] list[j]),
    decreases n,
{
    if n > 1 {
        let m = (n - 1) as nat;
        lemma_largest_is_greatest(list, m);
        let before = largest_of(list, m);
        let last = list[n - 1];
        if above(last, before) {
            assert forall|j: int| 0 <= j < n implies !above(#[trigger] list[j], last) by {
                if j < m && above(list[j], last) {
                    assert(above(list[j], before));
                }
            }
            assert forall|j: int| 0 <= j < m implies above(last, #[trigger] list[j]) by {
                assert(!above(list[j], before));
            }
        }
    }
}

/// The whole numbers of 32 bits are totally ordered by "greater".
pub proof fn lemma_numbers_are_totally_ordered()
    ensures
        greater_is_total::<u32>(),
{
}

/// The largest of the first `n` items, for a machine-sized `n`.
pub open spec fn largest_among<T: PartialOrd>(list: Seq<T>, n: usize) -> T {
    largest_of(list, n as nat)
}

/// The largest item of a list that is not empty. Where the type's order is
/// the one its specification gives, the result is the item that one pass from
/// the front finds; in any case it is an item of the list.
pub fn largest<T: PartialOrd>(list: &[T]) -> (r: &T)
    requires
        list@.len() > 0,
    ensures
        list@.contains(*r),
        T::obeys_partial_cmp_spec() ==> *r == largest_of(list@, list@.len()),
{
    let mut largest = &list[0];
    let mut i: usize = 1;
    while i < list.len()
        invariant
            1 <= i <= list@.len(),
            list@.contains(*largest),
            T::obeys_partial_cmp_spec() ==> *largest == largest_among(list@, i),
        decreases list@.len() - i,
    {
        let item = &list[i];
        if item > largest {
            largest = item;
        }
        i = i + 1;
    }
    largest
}

/// A point in the plane.
pub struct Point<T> {
    pub x: T,
    pub y: T,
}

impl<T> Point<T> {
    /// The first coordinate.
    pub fn x(&self) -> (r: &T)
        ensures
            *r == self.x,
    {
        &self.x
    }
}

/// A box around one value.
pub struct MyBox<T>(pub T);

impl<T> MyBox<T> {
    /// Puts `x` in a box.
    pub fn new(x: T) -> (r: MyBox<T>)
        ensures
            r.0 == x,
    {
        MyBox(x)
    }

    /// The value in the box.
    pub fn deref(&self) -> (r: &T)
        ensures
            *r == self.0,
    {
        &self.0
    }
}

} // verus!
