//! The sum of every other decimal digit appearing in a string: the digits
//! are picked out in order, the first is skipped, and every second one from
//! there on is added up.

use vstd::prelude::*;

verus! {

/// Whether `c` is a decimal digit.
pub open spec fn is_digit(c: char) -> bool {
    '0' <= c && c <= '9'
}

/// The numeric value of a decimal digit character.
pub open spec fn digit_val(c: char) -> int {
    c as int - '0' as int
}

/// The decimal digit characters of `s`, in order.
pub open spec fn digits_of(s: Seq<char>) -> Seq<char>
    decreases s.len(),
{
    if s.len() == 0 {
        Seq::empty()
    } else if is_digit(s.last()) {
        digits_of(s.drop_last()).push(s.last())
    } else {
        digits_of(s.drop_last())
    }
}


/// The sum of the elements at odd positions, reading each as a digit.
pub open spec fn odd_sum(ds: Seq<char>) -> int
    decreases ds.len(),
{
    if ds.len() < 2 {
        0
    } else {
        digit_val(ds[1]) + odd_sum(ds.skip(2))
    }
}

/// Appending an element adds its digit value exactly when it lands on an odd
/// position.
pub proof fn lemma_odd_sum_push(ds: Seq<char>, c: char)
    ensures
        odd_sum(ds.push(c)) == odd_sum(ds) + if ds.len() % 2 == 1 {
            digit_val(c)
        } else {
            0
        },
    decreases ds.len(),
{
    let p = ds.push(c);
    if ds.len() == 0 {
        assert(odd_sum(p) == 0);
    } else if ds.len() == 1 {
        assert(p[1] == c);
        assert(p.skip(2) =~= Seq::<char>::empty());
        assert(odd_sum(p.skip(2)) == 0);
        assert(odd_sum(ds) == 0);
        assert(odd_sum(p) == digit_val(c));
    } else {
        assert(p[1] == ds[1]);
        assert(p.skip(2) =~= ds.skip(2).push(c));
        lemma_odd_sum_push(ds.skip(2), c);
        assert(ds.skip(2).len() % 2 == ds.len() % 2);
    }
}

/// A sum over digit characters lies between 0 and 9 per element.
pub proof fn lemma_odd_sum_bounds(ds: Seq<char>)
    requires
        forall|i: int| 0 <= i < ds.len() ==> is_digit(ds[i]),
    ensures
        0 <= odd_sum(ds) <= 9 * ds.len(),
    decreases ds.len(),
{
    if ds.len() >= 2 {
        assert(forall|i: int| 0 <= i < ds.skip(2).len() ==> is_digit(ds.skip(2)[i]));
        lemma_odd_sum_bounds(ds.skip(2));
    }
}

/// Returns the sum of every other decimal digit of `s`: of the digit
/// characters of `s` in order, the first is skipped and every second one
/// from there on is summed.
pub fn sum_every_other(s: &str) -> (r: u32)
    requires
        9 * s@.len() <= u32::MAX,
    ensures
        r == odd_sum(digits_of(s@)),
{
    let len = s.unicode_len();
    let mut acc: u32 = 0;
    let mut cnt: usize = 0;
    let mut i: usize = 0;
    proof {
        assert(s@.take(0) =~= Seq::<char>::empty());
        assert(digits_of(s@.take(0)) =~= Seq::<char>::empty());
    }
    while i < len
        invariant
            len == s@.len(),
            i <= len,
            9 * s@.len() <= u32::MAX,
            cnt == digits_of(s@.take(i as int)).len(),
            cnt <= i,
            acc == odd_sum(digits_of(s@.take(i as int))),
            forall|j: int|
                0 <= j < digits_of(s@.take(i as int)).len() ==> is_digit(
                    digits_of(s@.take(i as int))[j],
                ),
        decreases len - i,
    {
        let c = s.get_char(i);
        let ghost prefix = s@.take(i as int);
        let ghost ds = digits_of(prefix);
        proof {
            let p = prefix.push(c);
            assert(s@.take(i + 1) =~= p);
            assert(p.drop_last() =~= prefix);
            assert(p.last() == c);
            if is_digit(c) {
                assert(digits_of(p) == ds.push(c));
                lemma_odd_sum_push(ds, c);
                lemma_odd_sum_bounds(ds.push(c));
            } else {
                assert(digits_of(p) == ds);
            }
        }
        if '0' <= c && c <= '9' {
            if cnt % 2 == 1 {
                let d = c as u32 - '0' as u32;
                acc = acc + d;
            }
            cnt = cnt + 1;
        }
        i = i + 1;
    }
    proof {
        assert(s@.take(len as int) =~= s@);
    }
    acc
}

} // verus!
