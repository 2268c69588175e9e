use weekly_katas::missing::missing_bits;

#[test]
fn missing_example1() {
    assert_eq!(
        missing_bits(vec![1, 2, 3, 4, 20, 21, 22, 23]).unwrap(),
        "[1,2,3,4,...,20,21,22,23]"
    )
}

#[test]
fn missing_example2() {
    assert_eq!(missing_bits(vec![1, 2, 3, 5, 6]).unwrap(), "[1,2,3,4,5,6]")
}

#[test]
fn missing_example3() {
    assert_eq!(
        missing_bits(vec![1, 3, 20, 27]).unwrap(),
        "[1,2,3,...,20,...,27]"
    )
}

#[test]
fn missing_empty() {
    assert_eq!(missing_bits(Vec::<i64>::new()).unwrap(), "[]");
}

#[test]
fn missing_negative_values() {
    assert_eq!(missing_bits(vec![-3, -1, 2]).unwrap(), "[-3,-2,-1,...,2]");
}
