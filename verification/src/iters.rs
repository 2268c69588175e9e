//! A pair-swapping sequence transformer: yields the elements of a source
//! sequence with every consecutive pair emitted in swapped order. If the
//! source has an odd number of elements, the final element is yielded
//! unmodified.

use vstd::prelude::*;

verus! {

/// Where the element at position `i` of a pair-swapped sequence of length
/// `len` comes from: even positions take their right neighbour, odd positions
/// their left one, and a final unpaired element stays put.
pub open spec fn swap_index(i: int, len: int) -> int {
    if i % 2 == 0 {
        if i + 1 < len {
            i + 1
        } else {
            i
        }
    } else {
        i - 1
    }
}

/// The sequence with every consecutive pair of elements swapped; a final
/// unpaired element is kept in place.
pub open spec fn pair_swapped<T>(s: Seq<T>) -> Seq<T>
    decreases s.len(),
{
    if s.len() >= 2 {
        seq![s[1], s[0]] + pair_swapped(s.skip(2))
    } else {
        s
    }
}

/// Pair-swapping keeps the length, swaps the elements at positions `2i` and
/// `2i + 1`, and leaves the final element of an odd-length sequence
/// unchanged.
pub proof fn lemma_pair_swapped<T>(s: Seq<T>)
    ensures
        pair_swapped(s).len() == s.len(),
        forall|i: int| 0 <= i < s.len() ==> pair_swapped(s)[i] == s[swap_index(i, s.len() as int)],
    decreases s.len(),
{
    if s.len() >= 2 {
        let tail = s.skip(2);
        lemma_pair_swapped(tail);
        assert forall|i: int| 0 <= i < s.len() implies pair_swapped(s)[i] == s[swap_index(
            i,
            s.len() as int,
        )] by {
            if i >= 2 {
                assert(pair_swapped(s)[i] == pair_swapped(tail)[i - 2]);
                assert(pair_swapped(tail)[i - 2] == tail[swap_index(i - 2, tail.len() as int)]);
                assert(tail[swap_index(i - 2, tail.len() as int)] == s[swap_index(
                    i - 2,
                    tail.len() as int,
                ) + 2]);
                assert(swap_index(i - 2, tail.len() as int) + 2 == swap_index(i, s.len() as int));
            }
        }
    }
}

/// Pair-swapping an even-length sequence keeps its length and swaps the
/// elements of every position pair; on an odd-length sequence the final
/// element is emitted unchanged, in its original position.
pub proof fn lemma_pair_swapped_pairs<T>(s: Seq<T>)
    ensures
        pair_swapped(s).len() == s.len(),
        forall|j: int|
            #![trigger pair_swapped(s)[j]]
            0 <= j && j + 1 < s.len() && j % 2 == 0 ==> pair_swapped(s)[j] == s[j + 1]
                && pair_swapped(s)[j + 1] == s[j],
        s.len() % 2 == 1 ==> pair_swapped(s)[s.len() - 1] == s[s.len() - 1],
{
    lemma_pair_swapped(s);
    assert forall|j: int|
        0 <= j && j + 1 < s.len() && j % 2 == 0 implies #[trigger] pair_swapped(s)[j] == s[j + 1]
        && pair_swapped(s)[j + 1] == s[j] by {
        assert(swap_index(j, s.len() as int) == j + 1);
        assert(swap_index(j + 1, s.len() as int) == j);
    }
    if s.len() % 2 == 1 {
        assert(swap_index(s.len() - 1, s.len() as int) == s.len() - 1);
    }
}

/// A pull-based transformer that yields the elements of its source with
/// every consecutive pair swapped. It looks ahead by at most one element:
/// delivering the second element of a pair first leaves the first one
/// buffered for the next pull.
pub struct PairSwap<T> {
    /// The remaining source elements, kept in reverse so that the next one
    /// can be moved out with `pop`.
    rest: Vec<T>,
    /// A stack of 0 or 1 deferred elements: the first element of a pair whose
    /// second element has already been delivered.
    stack: Option<T>,
}

impl<T> PairSwap<T> {
    /// The source elements not yet consumed, in source order.
    pub closed spec fn remaining(self) -> Seq<T> {
        self.rest@.reverse()
    }

    /// Everything this transformer will still emit, in order.
    pub closed spec fn future_output(self) -> Seq<T> {
        match self.stack {
            Some(a) => seq![a] + pair_swapped(self.remaining()),
            None => pair_swapped(self.remaining()),
        }
    }

    /// Delivers the next output element, or `None` once the source is
    /// exhausted and nothing is buffered. One call consumes at most two
    /// source elements, so a finite number of pulls reads only a finite
    /// prefix of the source.
    pub fn next(&mut self) -> (r: Option<T>)
        ensures
            old(self).remaining().len() <= final(self).remaining().len() + 2,
            old(self).future_output().len() == 0 ==> r is None && final(self).future_output().len()
                == 0,
            old(self).future_output().len() > 0 ==> r == Some(old(self).future_output()[0])
                && final(self).future_output() == old(self).future_output().drop_first(),
    {
        let ghost fut = self.future_output();
        match self.stack.take() {
            Some(a) => {
                proof {
                    assert(fut == seq![a] + pair_swapped(self.remaining()));
                    assert(fut[0] == a);
                    assert(self.future_output() =~= fut.drop_first());
                }
                Some(a)
            },
            None => {
                let ghost rem = self.remaining();
                proof {
                    if self.rest@.len() > 0 {
                        let v = self.rest@;
                        assert(v.last() == rem[0]);
                        assert(v.drop_last().reverse() =~= rem.drop_first());
                    }
                }
                match self.rest.pop() {
                    None => {
                        proof {
                            assert(rem =~= Seq::<T>::empty());
                            assert(fut.len() == 0);
                        }
                        None
                    },
                    Some(a) => {
                        let ghost rem1 = self.remaining();
                        proof {
                            assert(rem1 =~= rem.drop_first());
                            if self.rest@.len() > 0 {
                                let v = self.rest@;
                                assert(v.last() == rem1[0]);
                                assert(v.drop_last().reverse() =~= rem1.drop_first());
                            }
                        }
                        match self.rest.pop() {
                            None => {
                                proof {
                                    assert(rem1 =~= Seq::<T>::empty());
                                    assert(rem =~= seq![a]);
                                    assert(fut == pair_swapped(rem));
                                    assert(fut =~= seq![a]);
                                    assert(self.future_output() =~= fut.drop_first());
                                }
                                Some(a)
                            },
                            Some(b) => {
                                self.stack = Some(a);
                                proof {
                                    assert(rem[0] == a && rem[1] == b);
                                    assert(rem.len() >= 2);
                                    assert(fut == pair_swapped(rem));
                                    assert(pair_swapped(rem) == seq![rem[1], rem[0]]
                                        + pair_swapped(rem.skip(2)));
                                    assert(self.remaining() =~= rem.skip(2));
                                    assert(fut[0] == b);
                                    assert(self.future_output() =~= fut.drop_first());
                                }
                                Some(b)
                            },
                        }
                    },
                }
            },
        }
    }

    /// Pulls until exhaustion and returns everything emitted, in order.
    pub fn into_vec(self) -> (out: Vec<T>)
        ensures
            out@ == self.future_output(),
    {
        let mut this = self;
        let mut out: Vec<T> = Vec::new();
        let ghost fut = this.future_output();
        loop
            invariant
                fut == self.future_output(),
                fut == out@ + this.future_output(),
            decreases this.future_output().len(),
        {
            let ghost before = this.future_output();
            match this.next() {
                Some(c) => {
                    proof {
                        assert(out@.push(c) + before.drop_first() =~= out@ + before);
                    }
                    out.push(c);
                },
                None => {
                    proof {
                        assert(fut =~= out@);
                    }
                    return out;
                },
            }
        }
    }
}

/// Anything that can be turned into a pair-swapping transformer over its
/// elements.
pub trait SwapPairs<T>: Sized {
    /// The elements the transformer will draw from, in order.
    spec fn elems(self) -> Seq<T>;

    /// Wraps `self` in a transformer that emits its elements with every
    /// consecutive pair swapped.
    fn swap_pairs(self) -> (r: PairSwap<T>)
        ensures
            r.future_output() == pair_swapped(self.elems()),
    ;
}

impl<T> SwapPairs<T> for Vec<T> {
    open spec fn elems(self) -> Seq<T> {
        self@
    }

    fn swap_pairs(self) -> (r: PairSwap<T>) {
        let ghost src = self@;
        let rest = crate::text::reversed_vec(self);
        let r = PairSwap { rest, stack: None };
        proof {
            assert(r.remaining() =~= src);
        }
        r
    }
}

} // verus!
