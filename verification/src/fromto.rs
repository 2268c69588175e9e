//! A bounded counter: a cursor over an inclusive integer range that yields
//! each value once and then signals exhaustion forever after.

use vstd::prelude::*;

verus! {

/// The values of the inclusive range `start..=end`, in order; empty when the
/// lower bound exceeds the upper one.
pub open spec fn range_seq(start: usize, end: usize) -> Seq<usize> {
    if start <= end {
        Seq::new((end - start + 1) as nat, |i: int| (start + i) as usize)
    } else {
        Seq::empty()
    }
}

/// A cursor over an inclusive range: each pull returns the next integer of
/// the closed range, then `None` forever once the range is exhausted.
pub struct FromTo {
    /// The next value to deliver, meaningful only while `done` is false.
    cur: usize,
    /// The inclusive upper bound.
    end: usize,
    /// Whether the range is exhausted.
    done: bool,
}

impl FromTo {
    /// While the cursor is live it has not run past its upper bound.
    pub closed spec fn wf(self) -> bool {
        !self.done ==> self.cur <= self.end
    }

    /// The values this cursor will still deliver, in order.
    pub closed spec fn remaining(self) -> Seq<usize> {
        if self.done {
            Seq::empty()
        } else {
            range_seq(self.cur, self.end)
        }
    }

    /// Delivers the next value of the range, or `None` forever once the
    /// range is exhausted.
    pub fn next(&mut self) -> (r: Option<usize>)
        requires
            old(self).wf(),
        ensures
            final(self).wf(),
            old(self).remaining().len() == 0 ==> r is None && final(self).remaining().len() == 0,
            old(self).remaining().len() > 0 ==> r == Some(old(self).remaining()[0])
                && final(self).remaining() == old(self).remaining().drop_first(),
    {
        if self.done {
            None
        } else {
            let c = self.cur;
            if c == self.end {
                self.done = true;
                proof {
                    assert(old(self).remaining() =~= seq![c]);
                    assert(self.remaining() =~= old(self).remaining().drop_first());
                }
            } else {
                self.cur = c + 1;
                proof {
                    assert(self.remaining() =~= old(self).remaining().drop_first());
                }
            }
            Some(c)
        }
    }
}

/// Returns a cursor that on each pull yields the next integer of the closed
/// range `start..=end`, and `None` forever after; a lower bound above the
/// upper one yields no values at all.
pub fn from_to(start: usize, end: usize) -> (g: FromTo)
    ensures
        g.wf(),
        g.remaining() == range_seq(start, end),
{
    let g = FromTo { cur: start, end, done: start > end };
    proof {
        assert(g.remaining() =~= range_seq(start, end));
    }
    g
}

} // verus!
