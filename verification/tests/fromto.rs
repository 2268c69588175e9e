use weekly_katas::fromto::from_to;

#[test]
fn lib_example() {
    let mut gen = from_to(5, 7);
    assert_eq!(gen.next(), Some(5));
    assert_eq!(gen.next(), Some(6));
    assert_eq!(gen.next(), Some(7));
    assert_eq!(gen.next(), None);
}

#[test]
fn fromto_empty_range() {
    let mut gen = from_to(5, 3);
    assert_eq!(gen.next(), None);
    assert_eq!(gen.next(), None);
}

#[test]
fn fromto_single() {
    let mut gen = from_to(4, 4);
    assert_eq!(gen.next(), Some(4));
    assert_eq!(gen.next(), None);
    assert_eq!(gen.next(), None);
}
