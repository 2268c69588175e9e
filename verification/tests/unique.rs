use weekly_katas::unique::all_unique;

#[test]
fn examples() {
    assert_eq!(all_unique("Cassidy".chars().collect::<Vec<char>>()), false);
    assert_eq!(all_unique("cat & dog".chars().collect::<Vec<char>>()), false);
    assert_eq!(all_unique("cat+dog".chars().collect::<Vec<char>>()), true);
}

#[test]
fn integers() {
    assert_eq!(all_unique(vec![1, 2, 3, 4, 5, 6, 7, 8, 9]), true);
    assert_eq!(all_unique(vec![1, 2, 3, 4, 5, 5, 6, 7, 8]), false);
}

#[test]
fn strings() {
    let mut chars = vec!["Spock", "Kirk", "Uhura", "Red-Shirt"];
    assert_eq!(all_unique(chars.as_slice()), true);
    chars.push("Red-Shirt");
    assert_eq!(all_unique(chars.as_slice()), false);
}

#[test]
fn more_strings() {
    assert_eq!(
        all_unique(
            "Can you spot the the obvious error?"
                .split(" ")
                .collect::<Vec<&str>>()
        ),
        false
    );
    assert_eq!(
        all_unique(
            "Every word in this sentence is unsurprisingly unique"
                .split(" ")
                .collect::<Vec<&str>>()
        ),
        true
    );
}

#[test]
fn infinite_fourty_twos() {
    // a long stream that just spits out `42`
    let fourty_twos = std::iter::repeat(42).take(10_000).collect::<Vec<i32>>();
    assert_eq!(all_unique(fourty_twos), false);
}

#[test]
fn lib_empty() {
    assert_eq!(all_unique(Vec::<u32>::new()), true);
}

#[test]
fn single_element() {
    assert_eq!(all_unique(vec![7u64]), true);
}

#[test]
fn duplicate_at_ends() {
    assert_eq!(all_unique(vec![3, 1, 2, 3]), false);
}
