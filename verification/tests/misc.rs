#[test]
fn sanity() {
    assert_eq!(2 + 2, 4);
}

#[test]
fn trivial() {
    assert_eq!(2 + 2, 4);
}
