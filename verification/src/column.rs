//! Spreadsheet column arithmetic: an A1-style column name is a base-26
//! numeral with digits 1 to 26, most significant letter first.

use vstd::prelude::*;

verus! {

/// The digit value of an upper-case letter: `'A'` is 1, `'Z'` is 26.
pub open spec fn letter_val(c: char) -> int {
    c as int - 'A' as int + 1
}

/// Whether every character of `s` lies in `'A'..='Z'`.
pub open spec fn all_upper(s: Seq<char>) -> bool {
    forall|i: int| 0 <= i < s.len() ==> 'A' <= s[i] && s[i] <= 'Z'
}

/// The value of a column name, read as a base-26 numeral with digits 1 to
/// 26.
pub open spec fn col_val(s: Seq<char>) -> int
    decreases s.len(),
{
    if s.len() == 0 {
        0
    } else {
        col_val(s.drop_last()) * 26 + letter_val(s.last())
    }
}

/// A column name made of upper-case letters has a non-negative value.
pub proof fn lemma_col_val_nonneg(s: Seq<char>)
    requires
        all_upper(s),
    ensures
        col_val(s) >= 0,
    decreases s.len(),
{
    if s.len() > 0 {
        assert(all_upper(s.drop_last()));
        lemma_col_val_nonneg(s.drop_last());
    }
}

/// Every prefix of an upper-case column name has a value no larger than the
/// whole name's.
pub proof fn lemma_col_val_prefix(s: Seq<char>, i: int)
    requires
        all_upper(s),
        0 <= i <= s.len(),
    ensures
        col_val(s.take(i)) <= col_val(s),
    decreases s.len() - i,
{
    if i < s.len() {
        assert(s.take(i + 1).drop_last() =~= s.take(i));
        assert(s.take(i + 1).last() == s[i]);
        assert(all_upper(s.take(i)));
        lemma_col_val_nonneg(s.take(i));
        assert(col_val(s.take(i + 1)) == col_val(s.take(i)) * 26 + letter_val(s[i]));
        lemma_col_val_prefix(s, i + 1);
    } else {
        assert(s.take(i) =~= s);
    }
}

/// Calculates the column number of an A1-style column name (`"A"`, `"B"`,
/// ..., `"Z"`, `"AA"`, `"AB"`, ...). The name must consist of the letters
/// `'A'` to `'Z'` alone, and its value must fit the machine's word.
pub fn column_name_to_number(name: &str) -> (n: usize)
    requires
        all_upper(name@),
        col_val(name@) <= usize::MAX,
    ensures
        n == col_val(name@),
{
    let len = name.unicode_len();
    let mut acc: usize = 0;
    let mut i: usize = 0;
    proof {
        assert(name@.take(0) =~= Seq::<char>::empty());
    }
    while i < len
        invariant
            len == name@.len(),
            i <= len,
            all_upper(name@),
            col_val(name@) <= usize::MAX,
            acc == col_val(name@.take(i as int)),
        decreases len - i,
    {
        proof {
            assert(name@.take(i + 1).drop_last() =~= name@.take(i as int));
            assert(name@.take(i + 1).last() == name@[i as int]);
            assert(all_upper(name@.take(i as int)));
            lemma_col_val_nonneg(name@.take(i as int));
            lemma_col_val_prefix(name@, i + 1);
        }
        let c = name.get_char(i);
        let d = (c as u32 - 'A' as u32 + 1) as usize;
        proof {
            assert(d == letter_val(name@[i as int]));
            assert(col_val(name@.take(i + 1)) == acc * 26 + d);
        }
        acc = acc * 26 + d;
        i = i + 1;
    }
    proof {
        assert(name@.take(len as int) =~= name@);
    }
    acc
}

} // verus!
