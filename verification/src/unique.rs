//! A uniqueness check: whether all elements of a sequence are pairwise
//! distinct, short-circuiting at the first duplicate found.

use vstd::prelude::*;
use vstd::slice::slice_index_get;
use vstd::std_specs::cmp::PartialEqSpec;

verus! {

/// No two elements at different positions compare equal, in the sense of the
/// element type's own equality.
pub open spec fn distinct_by_eq<T: PartialEq>(s: Seq<T>) -> bool {
    forall|i: int, j: int| 0 <= i < j < s.len() ==> !s[i].eq_spec(&s[j])
}

/// One repeated value anywhere refutes distinctness.
pub proof fn lemma_repeat_not_distinct<T: PartialEq>(s: Seq<T>, i: int, j: int)
    requires
        0 <= i < j < s.len(),
        s[i].eq_spec(&s[j]),
    ensures
        !distinct_by_eq(s),
{
}

/// A collection whose elements can be checked for pairwise distinctness.
pub trait AllUnique: Sized {
    /// Whether the element type's `==` is known to agree with its
    /// specification; only then does the check promise anything.
    spec fn eq_reliable(self) -> bool;

    /// All elements are pairwise distinct.
    spec fn distinct(self) -> bool;

    /// Returns whether all elements are pairwise distinct, stopping at the
    /// first duplicate.
    fn all_unique(self) -> (r: bool)
        ensures
            self.eq_reliable() ==> r == self.distinct(),
    ;
}

impl<T: PartialEq> AllUnique for Vec<T> {
    open spec fn eq_reliable(self) -> bool {
        T::obeys_eq_spec()
    }

    open spec fn distinct(self) -> bool {
        distinct_by_eq(self@)
    }

    fn all_unique(self) -> (r: bool) {
        self.as_slice().all_unique()
    }
}

impl<'a, T: PartialEq> AllUnique for &'a [T] {
    open spec fn eq_reliable(self) -> bool {
        T::obeys_eq_spec()
    }

    open spec fn distinct(self) -> bool {
        distinct_by_eq(self@)
    }

    fn all_unique(self) -> (r: bool) {
        let n = self.len();
        let mut i: usize = 1;
        while i < n
            invariant
                n == self@.len(),
                1 <= i || n == 0,
                i <= n || n == 0,
                T::obeys_eq_spec() ==> forall|p: int, q: int|
                    0 <= p < q < i ==> !self@[p].eq_spec(&self@[q]),
            decreases n - i,
        {
            let mut j: usize = 0;
            while j < i
                invariant
                    n == self@.len(),
                    0 <= j <= i < n,
                    T::obeys_eq_spec() ==> forall|p: int, q: int|
                        0 <= p < q < i ==> !self@[p].eq_spec(&self@[q]),
                    T::obeys_eq_spec() ==> forall|p: int|
                        0 <= p < j ==> !self@[p].eq_spec(&self@[i as int]),
                decreases i - j,
            {
                if slice_index_get(self, j) == slice_index_get(self, i) {
                    return false;
                }
                j = j + 1;
            }
            i = i + 1;
        }
        true
    }
}

/// Returns whether all elements of `a` are pairwise distinct,
/// short-circuiting at the first duplicate. An empty collection counts as
/// unique.
pub fn all_unique<U: AllUnique>(a: U) -> (r: bool)
    ensures
        a.eq_reliable() ==> r == a.distinct(),
{
    a.all_unique()
}

} // verus!
