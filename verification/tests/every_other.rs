use weekly_katas::every_other::sum_every_other;

#[test]
fn sum_example1() {
    assert_eq!(sum_every_other(&548915381.to_string()), 26);
}

#[test]
fn sum_example2() {
    assert_eq!(sum_every_other(&10.to_string()), 0);
}

#[test]
fn example3() {
    assert_eq!(sum_every_other(&1010.11.to_string()), 1);
}

#[test]
fn sum_empty() {
    assert_eq!(sum_every_other(""), 0);
}

#[test]
fn sum_skips_non_digits() {
    assert_eq!(sum_every_other("a1b2c3d4"), 6);
}
