use backup_core::timestamp::Timestamp;

fn at(year: u16, month: u8, day: u8, hour: u8, minute: u8, second: u8, nanos: u32) -> Timestamp {
    Timestamp { year, month, day, hour, minute, second, nanos }
}

#[test]
fn text_has_the_shortest_fraction_that_loses_nothing() {
    let cases = [
        (at(2023, 1, 2, 3, 4, 5, 0), "2023-01-02T03:04:05Z"),
        (at(2023, 1, 2, 3, 4, 5, 120_000_000), "2023-01-02T03:04:05.120Z"),
        (at(2023, 1, 2, 3, 4, 5, 1_000), "2023-01-02T03:04:05.000001Z"),
        (at(2023, 1, 2, 3, 4, 5, 1), "2023-01-02T03:04:05.000000001Z"),
        (at(9999, 12, 31, 23, 59, 60, 999_999_999), "9999-12-31T23:59:60.999999999Z"),
        (at(0, 1, 1, 0, 0, 0, 0), "0000-01-01T00:00:00Z"),
    ];
    for (t, text) in cases {
        assert!(t.is_valid());
        assert_eq!(t.to_rfc3339(), text.as_bytes().to_vec());
        assert_eq!(Timestamp::from_rfc3339(text.as_bytes()), Some(t));
    }
}

#[test]
fn fractions_of_any_length_up_to_nine_digits_are_read() {
    assert_eq!(
        Timestamp::from_rfc3339(b"2023-01-02T03:04:05.5Z"),
        Some(at(2023, 1, 2, 3, 4, 5, 500_000_000))
    );
    assert_eq!(
        Timestamp::from_rfc3339(b"2023-01-02T03:04:05.12345Z"),
        Some(at(2023, 1, 2, 3, 4, 5, 123_450_000))
    );
    assert_eq!(Timestamp::from_rfc3339(b"2023-01-02T03:04:05.1234567890Z"), None);
    assert_eq!(Timestamp::from_rfc3339(b"2023-01-02T03:04:05.Z"), None);
}

#[test]
fn texts_of_another_form_are_not_read() {
    for text in [
        "",
        "2023-01-02",
        "2023-01-02 03:04:05Z",
        "2023-01-02T03:04:05",
        "2023-01-02T03:04:05+00:00",
        "2023-01-02t03:04:05z",
        "2023-1-02T03:04:05Z0",
        "2023-01-02T03:04:0xZ",
        "2023-01-02T03:04:05,5Z",
    ] {
        assert_eq!(Timestamp::from_rfc3339(text.as_bytes()), None, "{}", text);
    }
}

#[test]
fn only_days_of_the_calendar_are_valid() {
    assert!(at(2024, 2, 29, 0, 0, 0, 0).is_valid());
    assert!(!at(2023, 2, 29, 0, 0, 0, 0).is_valid());
    assert!(at(2000, 2, 29, 0, 0, 0, 0).is_valid());
    assert!(!at(1900, 2, 29, 0, 0, 0, 0).is_valid());
    assert!(!at(2023, 4, 31, 0, 0, 0, 0).is_valid());
    assert!(!at(2023, 0, 1, 0, 0, 0, 0).is_valid());
    assert!(!at(2023, 13, 1, 0, 0, 0, 0).is_valid());
    assert!(!at(2023, 1, 0, 0, 0, 0, 0).is_valid());
    assert!(!at(2023, 1, 1, 24, 0, 0, 0).is_valid());
    assert!(!at(2023, 1, 1, 0, 60, 0, 0).is_valid());
    assert!(!at(2023, 1, 1, 0, 0, 61, 0).is_valid());
    assert!(!at(2023, 1, 1, 0, 0, 0, 1_000_000_000).is_valid());
    assert!(!at(10000, 1, 1, 0, 0, 0, 0).is_valid());
    assert_eq!(Timestamp::from_rfc3339(b"2023-02-29T00:00:00Z"), None);
    assert_eq!(Timestamp::from_rfc3339(b"2023-01-01T24:00:00Z"), None);
}
