//! Fixed-length extreme-sum subarray searches: the contiguous window of a
//! given length whose element sum is largest (or smallest), scanning all
//! windows in order.

use vstd::prelude::*;

verus! {

broadcast use vstd::slice::group_slice_axioms;

/// The sum of a sequence of machine integers, as a mathematical integer.
pub open spec fn seq_sum(s: Seq<i64>) -> int
    decreases s.len(),
{
    if s.len() == 0 {
        0
    } else {
        s[0] + seq_sum(s.drop_first())
    }
}

/// Appending one element adds its value to the sum.
pub proof fn lemma_seq_sum_push(s: Seq<i64>, x: i64)
    ensures
        seq_sum(s.push(x)) == seq_sum(s) + x,
    decreases s.len(),
{
    let p = s.push(x);
    if s.len() == 0 {
        assert(p[0] == x);
        assert(p.drop_first() =~= Seq::<i64>::empty());
        assert(seq_sum(p.drop_first()) == 0);
        assert(seq_sum(p) == p[0] + seq_sum(p.drop_first()));
    } else {
        assert(p[0] == s[0]);
        assert(p.drop_first() =~= s.drop_first().push(x));
        lemma_seq_sum_push(s.drop_first(), x);
        assert(seq_sum(p) == p[0] + seq_sum(p.drop_first()));
        assert(seq_sum(s) == s[0] + seq_sum(s.drop_first()));
    }
}

/// A sum of `n` elements lies between `n` times the smallest and `n` times
/// the largest machine integer.
pub proof fn lemma_seq_sum_bounds(s: Seq<i64>)
    ensures
        s.len() * (i64::MIN as int) <= seq_sum(s) <= s.len() * (i64::MAX as int),
    decreases s.len(),
{
    if s.len() > 0 {
        lemma_seq_sum_bounds(s.drop_first());
    }
}

/// The sum of the window of length `n` starting at `i`.
pub open spec fn window_sum(a: Seq<i64>, n: int, i: int) -> int {
    seq_sum(a.subrange(i, i + n))
}

/// `b` starts the window of length `n` with the largest sum; on equal sums
/// the later window wins.
pub open spec fn is_last_max_window(a: Seq<i64>, n: int, b: int) -> bool {
    &&& 0 <= b <= a.len() - n
    &&& forall|i: int| 0 <= i <= a.len() - n ==> window_sum(a, n, i) <= window_sum(a, n, b)
    &&& forall|i: int| b < i <= a.len() - n ==> window_sum(a, n, i) < window_sum(a, n, b)
}

/// `b` starts the window of length `n` with the smallest sum; on equal sums
/// the earlier window wins.
pub open spec fn is_first_min_window(a: Seq<i64>, n: int, b: int) -> bool {
    &&& 0 <= b <= a.len() - n
    &&& forall|i: int| 0 <= i <= a.len() - n ==> window_sum(a, n, b) <= window_sum(a, n, i)
    &&& forall|i: int| 0 <= i < b ==> window_sum(a, n, b) < window_sum(a, n, i)
}

/// At most one window is the last one of maximal sum, so a contract stated
/// over `is_last_max_window` pins the result.
pub proof fn lemma_last_max_window_unique(a: Seq<i64>, n: int, b1: int, b2: int)
    requires
        is_last_max_window(a, n, b1),
        is_last_max_window(a, n, b2),
    ensures
        b1 == b2,
{
    if b1 < b2 {
        assert(window_sum(a, n, b2) < window_sum(a, n, b1));
        assert(window_sum(a, n, b1) <= window_sum(a, n, b2));
    } else if b2 < b1 {
        assert(window_sum(a, n, b1) < window_sum(a, n, b2));
        assert(window_sum(a, n, b2) <= window_sum(a, n, b1));
    }
}

/// At most one window is the first one of minimal sum, so a contract stated
/// over `is_first_min_window` pins the result.
pub proof fn lemma_first_min_window_unique(a: Seq<i64>, n: int, b1: int, b2: int)
    requires
        is_first_min_window(a, n, b1),
        is_first_min_window(a, n, b2),
    ensures
        b1 == b2,
{
    if b1 < b2 {
        assert(window_sum(a, n, b2) < window_sum(a, n, b1));
        assert(window_sum(a, n, b1) <= window_sum(a, n, b2));
    } else if b2 < b1 {
        assert(window_sum(a, n, b1) < window_sum(a, n, b2));
        assert(window_sum(a, n, b2) <= window_sum(a, n, b1));
    }
}

/// The sum of `arr[from..from + n]`, accumulated in a type wide enough that
/// no overflow is possible.
fn window_sum_exec(arr: &[i64], from: usize, n: usize) -> (r: i128)
    requires
        from + n <= arr@.len(),
    ensures
        r == window_sum(arr@, n as int, from as int),
{
    let mut acc: i128 = 0;
    let mut j: usize = from;
    proof {
        assert(arr@.len() == vstd::slice::spec_slice_len(arr));
        assert(arr@.subrange(from as int, from as int) =~= Seq::<i64>::empty());
    }
    while j < from + n
        invariant
            from <= j <= from + n,
            from + n <= arr@.len(),
            arr@.len() <= usize::MAX,
            acc == seq_sum(arr@.subrange(from as int, j as int)),
        decreases from + n - j,
    {
        proof {
            let w = arr@.subrange(from as int, j as int);
            let w1 = arr@.subrange(from as int, j + 1);
            assert(w.push(arr@[j as int]) =~= w1);
            lemma_seq_sum_push(w, arr@[j as int]);
            lemma_seq_sum_bounds(w1);
            assert(usize::MAX <= u64::MAX);
            assert(w1.len() * (i64::MIN as int) >= (u64::MAX as int) * (i64::MIN as int));
            assert(w1.len() * (i64::MAX as int) <= (u64::MAX as int) * (i64::MAX as int));
        }
        let x = arr[j];
        acc = acc + (x as i128);
        j = j + 1;
    }
    acc
}

/// Returns the sub-slice of `arr` of length `n` with the largest sum of
/// values; of several such windows, the one starting last. An empty slice is
/// returned if `n` is `0` or greater than the length of `arr`.
pub fn max_subarray<'a>(arr: &'a [i64], n: usize) -> (r: &'a [i64])
    ensures
        n == 0 || n > arr@.len() ==> r@ == Seq::<i64>::empty(),
        0 < n <= arr@.len() ==> exists|b: int|
            is_last_max_window(arr@, n as int, b) && r@ == arr@.subrange(b, b + n),
{
    if n == 0 || n > arr.len() {
        let empty = vstd::slice::slice_subrange(arr, 0, 0);
        proof {
            assert(empty@ =~= Seq::<i64>::empty());
        }
        empty
    } else {
        let mut best: usize = 0;
        let mut best_sum: i128 = window_sum_exec(arr, 0, n);
        let mut i: usize = 1;
        while i <= arr.len() - n
            invariant
                0 < n <= arr@.len(),
                1 <= i <= arr@.len() - n + 1,
                0 <= best < i,
                best_sum == window_sum(arr@, n as int, best as int),
                forall|j: int| 0 <= j < i ==> window_sum(arr@, n as int, j) <= best_sum,
                forall|j: int| best < j < i ==> window_sum(arr@, n as int, j) < best_sum,
            decreases arr@.len() - n + 1 - i,
        {
            let s = window_sum_exec(arr, i, n);
            if s >= best_sum {
                best = i;
                best_sum = s;
            }
            i = i + 1;
        }
        let r = vstd::slice::slice_subrange(arr, best, best + n);
        proof {
            assert(is_last_max_window(arr@, n as int, best as int));
        }
        r
    }
}

/// Returns the sub-slice of `slice` of length `k` with the smallest sum of
/// values; of several such windows, the one starting first. `k` must not
/// exceed the length of the slice; a `k` of `0` yields an empty slice.
pub fn min_subs<'a>(slice: &'a [i64], k: usize) -> (r: &'a [i64])
    requires
        k <= slice@.len(),
    ensures
        k == 0 ==> r@ == Seq::<i64>::empty(),
        k > 0 ==> exists|b: int|
            is_first_min_window(slice@, k as int, b) && r@ == slice@.subrange(b, b + k),
{
    if k == 0 {
        let empty = vstd::slice::slice_subrange(slice, 0, 0);
        proof {
            assert(empty@ =~= Seq::<i64>::empty());
        }
        empty
    } else {
        let mut best: usize = 0;
        let mut best_sum: i128 = window_sum_exec(slice, 0, k);
        let mut i: usize = 1;
        while i <= slice.len() - k
            invariant
                0 < k <= slice@.len(),
                1 <= i <= slice@.len() - k + 1,
                0 <= best < i,
                best_sum == window_sum(slice@, k as int, best as int),
                forall|j: int| 0 <= j < i ==> best_sum <= window_sum(slice@, k as int, j),
                forall|j: int| 0 <= j < best ==> best_sum < window_sum(slice@, k as int, j),
            decreases slice@.len() - k + 1 - i,
        {
            let s = window_sum_exec(slice, i, k);
            if s < best_sum {
                best = i;
                best_sum = s;
            }
            i = i + 1;
        }
        let r = vstd::slice::slice_subrange(slice, best, best + k);
        proof {
            assert(is_first_min_window(slice@, k as int, best as int));
        }
        r
    }
}

} // verus!
