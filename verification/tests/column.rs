use weekly_katas::column::column_name_to_number;

#[test]
fn column_example1() {
    assert_eq!(column_name_to_number("A"), 1);
}

#[test]
fn column_example2() {
    assert_eq!(column_name_to_number("B"), 2);
}

#[test]
fn column_example3() {
    assert_eq!(column_name_to_number("C"), 3);
}

#[test]
fn example4() {
    assert_eq!(column_name_to_number("Z"), 26);
}

#[test]
fn example5() {
    assert_eq!(column_name_to_number("AA"), 27);
}

#[test]
fn example6() {
    assert_eq!(column_name_to_number("AB"), 28);
}

#[test]
fn example7() {
    assert_eq!(column_name_to_number("AAA"), 703);
}
