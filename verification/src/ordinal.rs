//! English ordinal suffixes: `1st`, `2nd`, `3rd`, `4th`, ... with the special
//! case that numbers ending in 11, 12 or 13 always take `th`.

use crate::text::{dec_digits, u64_to_string};
use vstd::prelude::*;

verus! {

/// The English ordinal indicator of `n`: decided by the last two digits.
/// Values ending in 11, 12 or 13 take `th` whatever their units digit.
pub open spec fn suffix_spec(n: u64) -> Seq<char> {
    if n % 100 == 11 || n % 100 == 12 || n % 100 == 13 {
        seq!['t', 'h']
    } else if n % 10 == 1 {
        seq!['s', 't']
    } else if n % 10 == 2 {
        seq!['n', 'd']
    } else if n % 10 == 3 {
        seq!['r', 'd']
    } else {
        seq!['t', 'h']
    }
}

/// Returns the English ordinal indicator for the unsigned integer `n`.
pub fn ordinal_indicator(n: u64) -> (r: &'static str)
    ensures
        r@ == suffix_spec(n),
{
    proof {
        reveal_strlit("th");
        reveal_strlit("st");
        reveal_strlit("nd");
        reveal_strlit("rd");
    }
    let last_two = n % 100;
    if last_two == 11 || last_two == 12 || last_two == 13 {
        proof {
            assert("th"@ =~= suffix_spec(n));
        }
        "th"
    } else {
        let unit = n % 10;
        if unit == 1 {
            proof {
                assert("st"@ =~= suffix_spec(n));
            }
            "st"
        } else if unit == 2 {
            proof {
                assert("nd"@ =~= suffix_spec(n));
            }
            "nd"
        } else if unit == 3 {
            proof {
                assert("rd"@ =~= suffix_spec(n));
            }
            "rd"
        } else {
            proof {
                assert("th"@ =~= suffix_spec(n));
            }
            "th"
        }
    }
}

/// Returns the decimal rendering of `n` and its ordinal suffix concatenated
/// together.
pub fn ordinal(n: u64) -> (r: String)
    ensures
        r@ == dec_digits(n as nat) + suffix_spec(n),
{
    let mut s = u64_to_string(n);
    let suffix = ordinal_indicator(n);
    s.append(suffix);
    s
}

} // verus!
