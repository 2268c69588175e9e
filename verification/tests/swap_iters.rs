use weekly_katas::iters::SwapPairs;

#[test]
fn iters_example() {
    let values = vec![1, 2, 3, 4];
    assert_eq!(values.swap_pairs().into_vec(), &[2, 1, 4, 3]);
}

#[test]
fn example_odd() {
    let values = vec![1, 2, 3, 4, 5];
    assert_eq!(values.swap_pairs().into_vec(), &[2, 1, 4, 3, 5]);
}

#[test]
fn powers_of_two() {
    let mut i: u32 = 0;
    let powers_of_two = std::iter::from_fn(move || {
        i += 1;
        Some(2_u64.pow(i))
    });
    let values = powers_of_two.take(16).collect::<Vec<u64>>();
    assert_eq!(
        values.swap_pairs().into_vec(),
        &[4, 2, 16, 8, 64, 32, 256, 128, 1024, 512, 4096, 2048, 16384, 8192, 65536, 32768]
    );
}

#[test]
fn example_linked_list() {
    let ll = std::collections::LinkedList::from([1, 2, 3, 4]);
    let values = ll.into_iter().collect::<Vec<i32>>();
    assert_eq!(values.swap_pairs().into_vec(), &[2, 1, 4, 3]);
}

#[test]
fn pulls_one_at_a_time() {
    let values = vec!['o', 'l', 'e', 'r', 'm'];
    let mut swapped = values.swap_pairs();
    assert_eq!(swapped.next(), Some('l'));
    assert_eq!(swapped.next(), Some('o'));
    assert_eq!(swapped.next(), Some('r'));
    assert_eq!(swapped.next(), Some('e'));
    assert_eq!(swapped.next(), Some('m'));
    assert_eq!(swapped.next(), None);
    assert_eq!(swapped.next(), None);
}

#[test]
fn iters_empty() {
    let values: Vec<u8> = vec![];
    assert_eq!(values.swap_pairs().into_vec(), &[]);
}
