use weekly_katas::subarray::max_subarray;

#[test]
fn example1() {
    assert_eq!(
        max_subarray(&[-4, 2, -5, 1, 2, 3, 6, -5, 1], 4),
        [1, 2, 3, 6]
    );
}

#[test]
fn example2() {
    assert_eq!(max_subarray(&[1, 2, 0, 5], 2), [0, 5])
}

#[test]
fn zero_length() {
    assert_eq!(max_subarray(&[1, 2, 3, 4], 0), &[]);
}

#[test]
fn insufficient_items() {
    assert_eq!(max_subarray(&[1, 2], 4), []);
}

#[test]
fn whole_slice_window() {
    assert_eq!(max_subarray(&[-1, -2, -3], 3), [-1, -2, -3]);
}
