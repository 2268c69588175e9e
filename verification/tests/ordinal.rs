use weekly_katas::ordinal::{ordinal, ordinal_indicator};

#[test]
fn the_basics() {
    assert_eq!(ordinal(1), "1st");
    assert_eq!(ordinal(2), "2nd");
    assert_eq!(ordinal(3), "3rd");
    assert_eq!(ordinal(4), "4th");
    assert_eq!(ordinal(5), "5th");
    assert_eq!(ordinal(6), "6th");
    assert_eq!(ordinal(7), "7th");
    assert_eq!(ordinal(8), "8th");
    assert_eq!(ordinal(9), "9th");
    assert_eq!(ordinal(10), "10th");
}

#[test]
fn zeros() {
    assert_eq!(ordinal(0), "0th");
    assert_eq!(ordinal(10), "10th");
    assert_eq!(ordinal(100), "100th");
    assert_eq!(ordinal(1000), "1000th");
}

#[test]
fn ths() {
    assert_eq!(ordinal(11), "11th");
    assert_eq!(ordinal(12), "12th");
    assert_eq!(ordinal(13), "13th");
    //
    assert_eq!(ordinal(21), "21st");
    assert_eq!(ordinal(22), "22nd");
    assert_eq!(ordinal(23), "23rd");
}

#[test]
fn bigly_numbers() {
    assert_eq!(ordinal(111), "111th");
    assert_eq!(ordinal(151), "151st");
    assert_eq!(ordinal(2001), "2001st");
    assert_eq!(ordinal(112111), "112111th");
    assert_eq!(ordinal(112161), "112161st");
    assert_eq!(ordinal(u64::MAX), "18446744073709551615th");
}

#[test]
fn indicators_up_to_twenty_three() {
    let expected = [
        "th", "st", "nd", "rd", "th", "th", "th", "th", "th", "th", "th", "th", "th", "th", "th",
        "th", "th", "th", "th", "th", "th", "st", "nd", "rd",
    ];
    let mut n: u64 = 0;
    while n < 24 {
        assert_eq!(ordinal_indicator(n), expected[n as usize]);
        n += 1;
    }
}
