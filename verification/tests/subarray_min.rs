use weekly_katas::subarray::min_subs;

#[test]
fn min_subs_example1() {
    assert_eq!(min_subs([1, 3, 20, 4, 8, 9, 11].as_slice(), 3), [4, 8, 9]);
}

#[test]
fn min_subs_example2() {
    assert_eq!(min_subs([4, 4, 4, 4, 8].as_slice(), 2), [4, 4]);
}

#[test]
fn min_subs_zero_k() {
    assert_eq!(min_subs(&[1, 2, 3], 0), []);
}

#[test]
fn min_subs_ties_keep_first() {
    assert_eq!(min_subs(&[5, 1, 4, 2, 3], 2), [1, 4]);
}
