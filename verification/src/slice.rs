//! In-place pair swapping: every consecutive pair of elements of a vector is
//! swapped where it stands; a final unpaired element is left at the end.

use crate::iters::{lemma_pair_swapped, pair_swapped, swap_index};
use vstd::prelude::*;

verus! {

/// A container whose consecutive element pairs can be swapped in place.
pub trait SwapPairs<T> {
    /// The elements held, in order.
    spec fn contents(&self) -> Seq<T>;

    /// Swaps every consecutive pair of elements in place, leaving any
    /// remaining unpaired element at the end.
    fn swap_pairs(&mut self)
        ensures
            final(self).contents() == pair_swapped(old(self).contents()),
    ;
}

impl<T> SwapPairs<T> for Vec<T> {
    open spec fn contents(&self) -> Seq<T> {
        self@
    }

    fn swap_pairs(&mut self) {
        let ghost src = self@;
        proof {
            lemma_pair_swapped(src);
        }
        let mut i: usize = 0;
        while i + 1 < self.len()
            invariant
                self@.len() == src.len(),
                i % 2 == 0,
                forall|j: int| 0 <= j < i ==> self@[j] == pair_swapped(src)[j],
                forall|j: int| i <= j < src.len() ==> self@[j] == src[j],
            decreases self@.len() - i,
        {
            let ghost before = self@;
            let x = self.remove(i);
            self.insert(i + 1, x);
            proof {
                lemma_pair_swapped(src);
                assert(self@ =~= before.remove(i as int).insert(i + 1, x));
                assert(self@[i as int] == src[i + 1]);
                assert(self@[i + 1] == src[i as int]);
                assert(forall|j: int| 0 <= j < i ==> self@[j] == before[j]);
                assert(forall|j: int| i + 1 < j < src.len() ==> self@[j] == before[j]);
                assert(swap_index(i as int, src.len() as int) == i + 1);
                assert(swap_index(i + 1, src.len() as int) == i as int);
            }
            i = i + 2;
        }
        proof {
            lemma_pair_swapped(src);
            if i < self@.len() {
                assert(i + 1 == src.len());
                assert(swap_index(i as int, src.len() as int) == i as int);
            }
            assert(self@ =~= pair_swapped(src));
        }
    }
}

} // verus!
