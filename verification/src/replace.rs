//! A run-length-collapsing sequence transformer: every maximal consecutive
//! run of a designated target character is replaced by the run's length,
//! rendered as its ordinary decimal digits; all other characters pass through
//! unchanged.

use crate::text::{chars_to_string, dec_digits, str_to_chars, u64_to_digits};
use vstd::prelude::*;

verus! {

/// What collapsing produces on `s` when `pending` target characters have
/// already been consumed immediately before `s` begins: a pending run is
/// flushed as its decimal digits the moment a non-target character or the
/// end of the sequence is reached.
pub open spec fn collapse_from(s: Seq<char>, target: char, pending: nat) -> Seq<char>
    decreases s.len(),
{
    if s.len() == 0 {
        if pending > 0 {
            dec_digits(pending)
        } else {
            Seq::empty()
        }
    } else if s[0] == target {
        collapse_from(s.drop_first(), target, pending + 1)
    } else if pending > 0 {
        dec_digits(pending) + seq![s[0]] + collapse_from(s.drop_first(), target, 0)
    } else {
        seq![s[0]] + collapse_from(s.drop_first(), target, 0)
    }
}

/// The collapsed form of `s`: runs of `target` become their decimal length,
/// everything else is kept as it stands.
pub open spec fn collapse_seq(s: Seq<char>, target: char) -> Seq<char> {
    collapse_from(s, target, 0)
}

/// A sequence without any occurrence of the target character collapses to
/// itself.
pub proof fn lemma_collapse_no_target(s: Seq<char>, target: char)
    requires
        forall|i: int| 0 <= i < s.len() ==> s[i] != target,
    ensures
        collapse_seq(s, target) == s,
    decreases s.len(),
{
    if s.len() == 0 {
        assert(collapse_seq(s, target) =~= s);
    } else {
        lemma_collapse_no_target(s.drop_first(), target);
        assert(seq![s[0]] + s.drop_first() =~= s);
    }
}

/// A pull-based transformer over a character sequence. Each call of `next`
/// either drains the internal buffer or advances the source; the source is
/// consumed only as far as producing the next output element demands.
pub struct RunCollapse {
    /// The remaining source characters, kept in reverse so that the next one
    /// can be moved out with `pop`.
    rest: Vec<char>,
    /// The character whose runs are collapsed.
    target: char,
    /// How many target characters of the current run have been consumed and
    /// not yet flushed.
    count: u64,
    /// Output characters queued for delivery, drained from the end.
    buffer: Vec<char>,
}

impl RunCollapse {
    /// The source characters not yet consumed, in source order.
    pub closed spec fn remaining(self) -> Seq<char> {
        self.rest@.reverse()
    }

    /// The pending run length never outruns `u64`: it can only grow by
    /// consuming source characters.
    pub closed spec fn wf(self) -> bool {
        self.count + self.rest@.len() <= u64::MAX
    }

    /// Everything this transformer will still emit, in order.
    pub closed spec fn future_output(self) -> Seq<char> {
        self.buffer@.reverse() + collapse_from(self.remaining(), self.target, self.count as nat)
    }

    /// Wraps a character sequence; the transformer will emit its collapsed
    /// form.
    pub fn new(source: Vec<char>, target: char) -> (r: RunCollapse)
        ensures
            r.wf(),
            r.future_output() == collapse_seq(source@, target),
    {
        let ghost src = source@;
        let rest = crate::text::reversed_vec(source);
        let n = rest.len();
        let r = RunCollapse { rest, target, count: 0, buffer: Vec::new() };
        proof {
            assert(n <= usize::MAX && usize::MAX <= u64::MAX);
            assert(src.reverse().reverse() =~= src);
            assert(r.remaining() =~= src);
            assert(r.future_output() =~= collapse_seq(src, target));
        }
        r
    }

    /// Flushes the pending run: queues its decimal digits so that they will
    /// be delivered most significant first, and resets the counter.
    fn flush_count(&mut self)
        requires
            old(self).count > 0,
        ensures
            final(self).rest == old(self).rest,
            final(self).target == old(self).target,
            final(self).count == 0,
            final(self).buffer@ == old(self).buffer@ + dec_digits(old(self).count as nat).reverse(),
    {
        let digits = u64_to_digits(self.count);
        let ghost start = self.buffer@;
        let mut i: usize = digits.len();
        while i > 0
            invariant
                i <= digits@.len(),
                digits@ == dec_digits(old(self).count as nat),
                self.rest == old(self).rest,
                self.target == old(self).target,
                self.count == old(self).count,
                self.buffer@ == start + digits@.skip(i as int).reverse(),
            decreases i,
        {
            i = i - 1;
            proof {
                let d = digits@;
                assert(d.skip(i as int) =~= seq![d[i as int]] + d.skip(i + 1));
                assert(d.skip(i as int).reverse() =~= d.skip(i + 1).reverse().push(d[i as int]));
            }
            let c = digits[i];
            self.buffer.push(c);
        }
        proof {
            assert(digits@.skip(0) =~= digits@);
        }
        self.count = 0;
    }

    /// Delivers the next output character, or `None` once the source is
    /// exhausted and nothing is buffered. One call consumes source characters
    /// only up to the end of the current run.
    pub fn next(&mut self) -> (r: Option<char>)
        requires
            old(self).wf(),
        ensures
            final(self).wf(),
            old(self).future_output().len() == 0 ==> r is None && final(self).future_output().len()
                == 0,
            old(self).future_output().len() > 0 ==> r == Some(old(self).future_output()[0])
                && final(self).future_output() == old(self).future_output().drop_first(),
    {
        let ghost fut = self.future_output();
        match self.buffer.pop() {
            Some(c) => {
                proof {
                    let b = old(self).buffer@;
                    assert(b.drop_last().reverse() =~= b.reverse().drop_first());
                    assert(fut.len() > 0);
                    assert(fut[0] == b.reverse()[0]);
                    assert(c == b.last());
                    assert(b.reverse()[0] == b.last());
                    assert(self.future_output() =~= fut.drop_first());
                }
                return Some(c);
            },
            None => {},
        }
        loop
            invariant
                self.wf(),
                self.buffer@.len() == 0,
                self.target == old(self).target,
                fut == old(self).future_output(),
                fut == self.future_output(),
            decreases self.rest@.len(),
        {
            let ghost rem = self.remaining();
            let ghost run = self.count as nat;
            let ghost t = self.target;
            proof {
                assert(self.buffer@ =~= Seq::<char>::empty());
                assert(self.buffer@.reverse() =~= Seq::<char>::empty());
                assert(fut =~= collapse_from(rem, t, run));
                if self.rest@.len() > 0 {
                    let r = self.rest@;
                    assert(r.last() == rem[0]);
                    assert(r.drop_last().reverse() =~= rem.drop_first());
                }
            }
            match self.rest.pop() {
                Some(c) => {
                    proof {
                        assert(c == rem[0]);
                        assert(self.remaining() =~= rem.drop_first());
                    }
                    if c == self.target {
                        self.count = self.count + 1;
                        proof {
                            assert(collapse_from(rem, t, run) == collapse_from(
                                rem.drop_first(),
                                t,
                                run + 1,
                            ));
                            assert(self.future_output() =~= collapse_from(
                                rem.drop_first(),
                                t,
                                run + 1,
                            ));
                        }
                    } else {
                        if self.count > 0 {
                            proof {
                                assert(collapse_from(rem, t, run) == dec_digits(run) + seq![c]
                                    + collapse_from(rem.drop_first(), t, 0));
                            }
                            self.buffer.push(c);
                            self.flush_count();
                            let ghost digits = dec_digits(run);
                            proof {
                                let b = self.buffer@;
                                assert(b == seq![c] + digits.reverse());
                                assert(b.reverse() =~= digits + seq![c]);
                                crate::text::lemma_dec_digits_len(run);
                                assert(b.drop_last().reverse() =~= b.reverse().drop_first());
                                assert(fut =~= b.reverse() + collapse_from(
                                    rem.drop_first(),
                                    t,
                                    0,
                                ));
                                assert(fut.len() > 0);
                                assert(fut[0] == b.reverse()[0]);
                                assert(b.last() == b.reverse()[0]);
                            }
                            let out = self.buffer.pop();
                            proof {
                                assert(out == Some(fut[0]));
                                assert(self.future_output() =~= fut.drop_first());
                            }
                            return out;
                        } else {
                            proof {
                                assert(collapse_from(rem, t, run) == seq![c] + collapse_from(
                                    rem.drop_first(),
                                    t,
                                    0,
                                ));
                                assert(fut.len() > 0);
                                assert(fut[0] == c);
                                assert(self.future_output() =~= fut.drop_first());
                            }
                            return Some(c);
                        }
                    }
                },
                None => {
                    proof {
                        assert(rem =~= Seq::<char>::empty());
                    }
                    if self.count > 0 {
                        self.flush_count();
                        let ghost digits = dec_digits(run);
                        proof {
                            let b = self.buffer@;
                            assert(b =~= digits.reverse());
                            assert(b.reverse() =~= digits);
                            crate::text::lemma_dec_digits_len(run);
                            assert(b.drop_last().reverse() =~= b.reverse().drop_first());
                            assert(collapse_from(rem, t, run) == digits);
                            assert(self.remaining() =~= Seq::<char>::empty());
                            assert(fut =~= b.reverse() + collapse_from(self.remaining(), t, 0));
                            assert(fut.len() > 0);
                            assert(fut[0] == b.reverse()[0]);
                            assert(b.last() == b.reverse()[0]);
                        }
                        let out = self.buffer.pop();
                        proof {
                            assert(out == Some(fut[0]));
                            assert(self.future_output() =~= fut.drop_first());
                        }
                        return out;
                    } else {
                        proof {
                            assert(collapse_from(rem, t, run) == Seq::<char>::empty());
                            assert(fut.len() == 0);
                            assert(self.future_output() == fut);
                        }
                        return None;
                    }
                },
            }
        }
    }

    /// Pulls until exhaustion and returns everything emitted, in order.
    pub fn drain_to_vec(&mut self) -> (out: Vec<char>)
        requires
            old(self).wf(),
        ensures
            final(self).wf(),
            out@ == old(self).future_output(),
            final(self).future_output().len() == 0,
    {
        let ghost fut = self.future_output();
        let mut out: Vec<char> = Vec::new();
        loop
            invariant
                self.wf(),
                fut == old(self).future_output(),
                fut == out@ + self.future_output(),
            decreases self.future_output().len(),
        {
            let ghost before = self.future_output();
            match self.next() {
                Some(c) => {
                    proof {
                        assert(out@.push(c) + before.drop_first() =~= out@ + before);
                    }
                    out.push(c);
                },
                None => {
                    proof {
                        assert(fut =~= out@);
                    }
                    return out;
                },
            }
        }
    }
}

/// Returns a transformer over the characters of `s` which replaces runs of
/// consecutive `target` characters with the decimal digits of the run's
/// length. All other characters are output unchanged.
pub fn replace_char_with_count(s: Vec<char>, target: char) -> (r: RunCollapse)
    ensures
        r.wf(),
        r.future_output() == collapse_seq(s@, target),
{
    RunCollapse::new(s, target)
}

/// Collapses every run of `'0'` characters in `s` to the run's decimal
/// length.
pub fn replace_zeros(s: &str) -> (r: String)
    ensures
        r@ == collapse_seq(s@, '0'),
{
    let chars = str_to_chars(s);
    let mut transformer = replace_char_with_count(chars, '0');
    let collapsed = transformer.drain_to_vec();
    chars_to_string(&collapsed)
}

} // verus!
