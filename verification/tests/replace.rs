use weekly_katas::replace::{replace_char_with_count, replace_zeros};

#[test]
fn lib_example1() {
    assert_eq!(replace_zeros("1234500362000440"), "1234523623441");
}

#[test]
fn lib_example2() {
    assert_eq!(replace_zeros("123450036200044"), "123452362344");
}

#[test]
fn lib_example3() {
    assert_eq!(replace_zeros("000000000000"), "12");
}

#[test]
fn lib_example4() {
    assert_eq!(replace_zeros("123456789"), "123456789");
}

#[test]
fn leet_speak() {
    let mut out = replace_char_with_count("l3aaat".chars().collect::<Vec<char>>(), 'a');
    assert_eq!(out.next(), Some('l'));
    assert_eq!(out.next(), Some('3'));
    assert_eq!(out.next(), Some('3'));
    assert_eq!(out.next(), Some('t'));
    assert_eq!(out.next(), None);
    assert_eq!(out.next(), None);
}

#[test]
fn replace_empty() {
    assert_eq!(replace_zeros(""), "");
}

#[test]
fn long_run_has_two_digit_count() {
    let mut out = replace_char_with_count("b0000000000c".chars().collect::<Vec<char>>(), '0');
    let mut collected = String::new();
    while let Some(c) = out.next() {
        collected.push(c);
    }
    assert_eq!(collected, "b10c");
}
