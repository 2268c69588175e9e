use weekly_katas::slice::SwapPairs;

#[test]
fn slice_example() {
    let mut input = vec![1, 2, 3, 4];
    input.swap_pairs();
    assert_eq!(input, [2, 1, 4, 3]);
}

#[test]
fn unpaired_element() {
    let mut input = vec![1, 2, 3, 4, 5];
    // Swap pairs of elements in `input`, leaving any remaining unpaired element at the end
    input.swap_pairs();
    assert_eq!(input, &[2, 1, 4, 3, 5]);
}

#[test]
fn slice_empty() {
    let mut empty: Vec<u32> = vec![];
    empty.swap_pairs();
    assert_eq!(empty, &[]);
}

#[test]
fn slice_single() {
    let mut input = vec![9];
    input.swap_pairs();
    assert_eq!(input, [9]);
}
