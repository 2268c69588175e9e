//! A range compressor: renders an increasing integer sequence as a compact
//! bracketed listing. Neighbours at distance 0 or 1 are written out, a gap of
//! exactly 2 shows the single missing value explicitly, and any larger gap is
//! elided with an ellipsis.

use crate::text::{chars_to_string, i64_to_digits, int_digits};
use vstd::prelude::*;

verus! {

/// The error type of the standard formatting machinery. Rendering into a
/// string cannot fail, so it is never produced; it stands in the result type
/// so that a rendering that could fail to write would propagate its error.
#[verifier::external_type_specification]
#[verifier::external_body]
pub struct ExFmtError(core::fmt::Error);

/// The rendering of element `i`: a separating comma after the first element,
/// then the element itself, preceded by the single missing value when the
/// gap to its predecessor is exactly 2, or by an ellipsis when the gap is
/// larger.
pub open spec fn entry_str(v: Seq<i64>, i: int) -> Seq<char> {
    let sep: Seq<char> = if i > 0 {
        seq![',']
    } else {
        Seq::empty()
    };
    let gap: Seq<char> = if i == 0 {
        Seq::empty()
    } else {
        let d = v[i] as int - v[i - 1] as int;
        if d == 0 || d == 1 {
            Seq::empty()
        } else if d == 2 {
            int_digits(v[i] as int - 1) + seq![',']
        } else {
            seq!['.', '.', '.', ',']
        }
    };
    sep + gap + int_digits(v[i] as int)
}

/// The renderings of the first `i` elements, concatenated.
pub open spec fn entries_to(v: Seq<i64>, i: int) -> Seq<char>
    decreases i,
{
    if i <= 0 {
        Seq::empty()
    } else {
        entries_to(v, i - 1) + entry_str(v, i - 1)
    }
}

/// The full bracketed listing of `v`.
pub open spec fn render(v: Seq<i64>) -> Seq<char> {
    seq!['['] + entries_to(v, v.len() as int) + seq![']']
}

/// A collection of integers that can be rendered as a compact bracketed
/// listing of its runs and gaps.
pub trait MissingBits<T> {
    /// The listing this collection renders to.
    spec fn rendered(&self) -> Seq<char>;

    /// Renders the compact listing. Building a string cannot fail, so the
    /// result is always `Ok`.
    fn missing_bits(&mut self) -> (r: Result<String, core::fmt::Error>)
        ensures
            r matches Ok(s) && s@ == old(self).rendered(),
    ;
}

impl MissingBits<i64> for Vec<i64> {
    open spec fn rendered(&self) -> Seq<char> {
        render(self@)
    }

    fn missing_bits(&mut self) -> (r: Result<String, core::fmt::Error>) {
        let ghost v = self@;
        let mut out: Vec<char> = Vec::new();
        out.push('[');
        let mut i: usize = 0;
        proof {
            assert(out@ =~= seq!['['] + entries_to(v, 0));
        }
        while i < self.len()
            invariant
                v == self@,
                i <= v.len(),
                out@ == seq!['['] + entries_to(v, i as int),
            decreases v.len() - i,
        {
            let ghost start = out@;
            if i > 0 {
                out.push(',');
                let d = (self[i] as i128) - (self[i - 1] as i128);
                if d == 0 || d == 1 {
                } else if d == 2 {
                    let prev = ((self[i] as i128) - 1) as i64;
                    proof {
                        assert(prev == v[i as int] as int - 1);
                    }
                    let mut digits = i64_to_digits(prev);
                    out.append(&mut digits);
                    out.push(',');
                } else {
                    out.push('.');
                    out.push('.');
                    out.push('.');
                    out.push(',');
                }
            }
            let mut digits = i64_to_digits(self[i]);
            out.append(&mut digits);
            proof {
                assert(out@ =~= start + entry_str(v, i as int));
                assert(entries_to(v, i + 1) == entries_to(v, i as int) + entry_str(v, i as int));
                assert(out@ =~= seq!['['] + entries_to(v, i + 1));
            }
            i = i + 1;
        }
        out.push(']');
        proof {
            assert(out@ =~= render(v));
        }
        Ok(chars_to_string(&out))
    }
}

/// Renders `src` as a compact bracketed listing: runs with steps of 0 or 1
/// are written out, a gap of exactly 2 shows the missing value, and larger
/// gaps are elided with an ellipsis.
pub fn missing_bits<T, U: MissingBits<T>>(src: U) -> (r: Result<String, core::fmt::Error>)
    ensures
        r matches Ok(s) && s@ == src.rendered(),
{
    let mut src = src;
    src.missing_bits()
}

} // verus!
