use weekly_katas::passes::pass_doors;

#[test]
fn example() {
    assert_eq!(pass_doors(7, 3), 4);
}

#[test]
fn no_doors() {
    assert_eq!(pass_doors(0, 5), 0);
}

#[test]
fn no_passes() {
    assert_eq!(pass_doors(6, 0), 6);
}
