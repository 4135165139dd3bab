use aio_core::stamp::is_after;

#[test]
fn later_timestamp_is_after() {
    assert!(is_after("2024-01-02 00:00:00", "2024-01-01 23:59:59"));
    assert!(!is_after("2024-01-01 23:59:59", "2024-01-02 00:00:00"));
}

#[test]
fn equal_timestamps_are_not_after_each_other() {
    assert!(!is_after("2024-01-01 10:00:00", "2024-01-01 10:00:00"));
    assert!(!is_after("", ""));
}

#[test]
fn any_timestamp_of_this_century_is_after_the_epoch() {
    assert!(is_after("2000-01-01 00:00:00", "1970-01-01 00:00:00"));
    assert!(!is_after("1969-12-31 23:59:59", "1970-01-01 00:00:00"));
}

#[test]
fn proper_prefix_comes_first() {
    assert!(is_after("2024-01-01 10:00:00.5", "2024-01-01 10:00:00"));
    assert!(!is_after("2024-01-01 10:00:00", "2024-01-01 10:00:00.5"));
    assert!(is_after("a", ""));
    assert!(!is_after("", "a"));
}

#[test]
fn order_is_that_of_the_utf8_bytes() {
    assert!(is_after("b", "a"));
    assert!(is_after("a", "B"));
    assert!(is_after("é", "z"));
    assert!(is_after("10", "1"));
    assert!(is_after("9", "10"));
    for (a, b) in [("2024", "2023"), ("é", "e"), ("日", "é"), ("x", "")] {
        assert_eq!(is_after(a, b), a > b);
        assert_eq!(is_after(b, a), b > a);
    }
}
