//! Rendering unsigned integers as decimal digit characters, and building
//! `String`s from character vectors. Shared by the modules that produce
//! textual output.

use vstd::prelude::*;

verus! {

/// The decimal digit character for a value between 0 and 9.
pub open spec fn digit_char(d: int) -> char {
    if d == 0 {
        '0'
    } else if d == 1 {
        '1'
    } else if d == 2 {
        '2'
    } else if d == 3 {
        '3'
    } else if d == 4 {
        '4'
    } else if d == 5 {
        '5'
    } else if d == 6 {
        '6'
    } else if d == 7 {
        '7'
    } else if d == 8 {
        '8'
    } else {
        '9'
    }
}

/// The ordinary base-10 rendering of `n`, most significant digit first,
/// with no leading zeros (`0` itself renders as the single digit `'0'`).
pub open spec fn dec_digits(n: nat) -> Seq<char>
    decreases n,
{
    if n < 10 {
        seq![digit_char(n as int)]
    } else {
        dec_digits(n / 10).push(digit_char((n % 10) as int))
    }
}

/// A decimal rendering is never empty.
pub proof fn lemma_dec_digits_len(n: nat)
    ensures
        dec_digits(n).len() >= 1,
    decreases n,
{
    if n >= 10 {
        lemma_dec_digits_len(n / 10);
    }
}

fn digit_to_char(d: u64) -> (c: char)
    requires
        d < 10,
    ensures
        c == digit_char(d as int),
{
    if d == 0 {
        '0'
    } else if d == 1 {
        '1'
    } else if d == 2 {
        '2'
    } else if d == 3 {
        '3'
    } else if d == 4 {
        '4'
    } else if d == 5 {
        '5'
    } else if d == 6 {
        '6'
    } else if d == 7 {
        '7'
    } else if d == 8 {
        '8'
    } else {
        '9'
    }
}

/// The decimal digits of `n` as characters, most significant first.
pub fn u64_to_digits(n: u64) -> (v: Vec<char>)
    ensures
        v@ == dec_digits(n as nat),
{
    let mut stack: Vec<char> = Vec::new();
    let mut m: u64 = n;
    while m >= 10
        invariant
            dec_digits(n as nat) == dec_digits(m as nat) + stack@.reverse(),
        decreases m,
    {
        let d = m % 10;
        proof {
            let s = stack@;
            let c = digit_char((m % 10) as int);
            assert(s.push(c).reverse() =~= seq![c] + s.reverse());
            assert(dec_digits((m / 10) as nat).push(c) + s.reverse() =~= dec_digits(
                (m / 10) as nat,
            ) + s.push(c).reverse());
        }
        stack.push(digit_to_char(d));
        m = m / 10;
    }
    proof {
        let s = stack@;
        let c = digit_char(m as int);
        assert(s.push(c).reverse() =~= seq![c] + s.reverse());
        assert(seq![c] + s.reverse() =~= dec_digits(m as nat) + s.reverse());
    }
    stack.push(digit_to_char(m));
    let ghost total = stack@;
    let mut v: Vec<char> = Vec::new();
    let mut i: usize = stack.len();
    while i > 0
        invariant
            total == stack@,
            i <= stack.len(),
            v@.len() == stack@.len() - i,
            forall|j: int| 0 <= j < v@.len() ==> v@[j] == stack@[stack@.len() - 1 - j],
        decreases i,
    {
        i = i - 1;
        let c = stack[i];
        v.push(c);
    }
    proof {
        assert(v@ =~= total.reverse());
        assert(dec_digits(n as nat) =~= dec_digits(n as nat) + Seq::<char>::empty().reverse());
    }
    v
}

/// Moves the elements of a vector into a new vector in reverse order.
pub fn reversed_vec<T>(v: Vec<T>) -> (r: Vec<T>)
    ensures
        r@ == v@.reverse(),
{
    let mut v = v;
    let mut r: Vec<T> = Vec::new();
    let ghost src = v@;
    loop
        invariant
            src.reverse() == r@ + v@.reverse(),
        ensures
            v@.len() == 0,
            src.reverse() == r@,
        decreases v@.len(),
    {
        proof {
            if v@.len() > 0 {
                let s = v@;
                assert(s.drop_last().reverse() =~= s.reverse().drop_first());
                assert(s.reverse()[0] == s.last());
                assert(r@.push(s.last()) + s.drop_last().reverse() =~= r@ + s.reverse());
            } else {
                assert(v@.reverse() =~= Seq::<T>::empty());
                assert(src.reverse() =~= r@);
            }
        }
        match v.pop() {
            Some(x) => {
                r.push(x);
            },
            None => {
                break ;
            },
        }
    }
    r
}

/// Relies on `String::push`: appends one character at the end of the string.
#[verifier::external_body]
fn push_char(s: &mut String, c: char)
    ensures
        final(s)@ == old(s)@.push(c),
{
    s.push(c)
}

/// Copies a character vector into a fresh `String`.
pub fn chars_to_string(v: &Vec<char>) -> (s: String)
    ensures
        s@ == v@,
{
    let mut s = String::new();
    let mut i: usize = 0;
    while i < v.len()
        invariant
            i <= v@.len(),
            s@ == v@.take(i as int),
        decreases v@.len() - i,
    {
        proof {
            assert(v@.take(i as int).push(v@[i as int]) =~= v@.take(i + 1));
        }
        push_char(&mut s, v[i]);
        i = i + 1;
    }
    proof {
        assert(v@.take(v@.len() as int) =~= v@);
    }
    s
}

/// The ordinary base-10 rendering of a possibly negative value: a leading
/// minus sign before the digits of its magnitude.
pub open spec fn int_digits(x: int) -> Seq<char> {
    if x < 0 {
        seq!['-'] + dec_digits((-x) as nat)
    } else {
        dec_digits(x as nat)
    }
}

/// The decimal digits of `x` as characters, with a leading `'-'` when `x` is
/// negative.
pub fn i64_to_digits(x: i64) -> (v: Vec<char>)
    ensures
        v@ == int_digits(x as int),
{
    if x >= 0 {
        u64_to_digits(x as u64)
    } else {
        let mag = (-(x as i128)) as u64;
        proof {
            assert(mag == -(x as int));
        }
        let digits = u64_to_digits(mag);
        let mut v: Vec<char> = Vec::new();
        v.push('-');
        let mut digits = digits;
        v.append(&mut digits);
        proof {
            assert(v@ =~= int_digits(x as int));
        }
        v
    }
}

/// The characters of a string slice as a vector.
pub fn str_to_chars(s: &str) -> (v: Vec<char>)
    ensures
        v@ == s@,
{
    let n = s.unicode_len();
    let mut v: Vec<char> = Vec::new();
    let mut i: usize = 0;
    while i < n
        invariant
            n == s@.len(),
            i <= n,
            v@ == s@.take(i as int),
        decreases n - i,
    {
        proof {
            assert(s@.take(i as int).push(s@[i as int]) =~= s@.take(i + 1));
        }
        v.push(s.get_char(i));
        i = i + 1;
    }
    proof {
        assert(s@.take(n as int) =~= s@);
    }
    v
}

/// The decimal rendering of `n` as a `String`.
pub fn u64_to_string(n: u64) -> (s: String)
    ensures
        s@ == dec_digits(n as nat),
{
    let digits = u64_to_digits(n);
    chars_to_string(&digits)
}

} // verus!
