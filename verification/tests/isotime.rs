use acmon::isotime::{
    checked_unix_seconds, iso8601_from_unix_seconds, time_from_unix_seconds, timestamp,
    unix_seconds, unix_seconds_from_iso8601,
};
use acmon::time::SystemTime;

#[test]
fn writes_what_the_system_date_command_writes() {
    let cases = [
        (1_786_987_902, "2026-08-17T17:31:42Z"),
        // Leap days, and the century rules that surround them.
        (1_709_208_000, "2024-02-29T12:00:00Z"),
        (951_825_600, "2000-02-29T12:00:00Z"),
        (4_107_542_400, "2100-03-01T00:00:00Z"),
        (0, "1970-01-01T00:00:00Z"),
        // The last second of a day, and the first of the next.
        (86_399, "1970-01-01T23:59:59Z"),
        (86_400, "1970-01-02T00:00:00Z"),
    ];

    for (input, expected) in cases {
        assert_eq!(iso8601_from_unix_seconds(input), expected, "{input}");
    }
}

#[test]
fn round_trips_through_the_parser() {
    // Every seven hours and a little across more than a century.
    let mut seconds: i64 = 0;
    while seconds < 4_200_000_000 {
        let written = iso8601_from_unix_seconds(seconds);
        assert_eq!(
            unix_seconds_from_iso8601(&written),
            Ok(seconds),
            "{written} came from {seconds}"
        );
        seconds += 25_931;
    }
}

#[test]
fn matches_what_the_system_date_command_says() {
    let cases = [
        ("2026-08-17T17:31:42.384761Z", 1_786_987_902),
        ("2026-08-17T17:31:42Z", 1_786_987_902),
        ("2024-02-29T12:00:00Z", 1_709_208_000),
        ("2000-02-29T12:00:00Z", 951_825_600),
        ("2100-03-01T00:00:00Z", 4_107_542_400),
        ("1970-01-01T00:00:00Z", 0),
    ];

    for (input, expected) in cases {
        assert_eq!(unix_seconds_from_iso8601(input), Ok(expected), "{input}");
    }
}

#[test]
fn refuses_anything_it_cannot_read_exactly() {
    for input in [
        "",
        "2026-08-17",
        "2026-08-17T17:31:42",
        "2026-08-17T17:31:42+02:00",
        "2026-13-01T00:00:00Z",
        "2026-08-32T00:00:00Z",
        "2026-08-17T25:00:00Z",
        "not-a-date",
        "2026-02-31T12:00:00Z",
        "2026-02-29T12:00:00Z",
        "2026-04-31T12:00:00Z",
        "2026-06-31T12:00:00Z",
        "2026-09-31T12:00:00Z",
        "2026-11-31T12:00:00Z",
        "1900-02-29T12:00:00Z",
    ] {
        assert!(
            unix_seconds_from_iso8601(input).is_err(),
            "{input:?} must be an error, not a time"
        );
    }
}

#[test]
fn refuses_every_other_shape_of_a_number() {
    for input in [
        "2026-08-17T-1:00:00Z",
        "2026-08-17T00:-1:00Z",
        "2026-08-17T00:00:-1Z",
        "2026-08-17T+1:00:00Z",
        "+2026-08-17T01:00:00Z",
        "2026-8-17T01:00:00Z",
        "2026-08-17T1:00:00Z",
        "2026-08-017T01:00:00Z",
        "226-08-17T01:00:00Z",
        "02026-08-17T01:00:00Z",
        "2026-08-17T01:00:00.Z",
        "2026-08-17T01:00:00.5xZ",
        "2026-08-17T01:00:00.5.5Z",
        "2026-08-17T01:00:00.+5Z",
    ] {
        assert!(unix_seconds_from_iso8601(input).is_err(), "{input:?}");
    }
    assert_eq!(unix_seconds_from_iso8601("2026-08-17T17:31:42.3Z"), Ok(1_786_987_902));
    assert_eq!(unix_seconds_from_iso8601("10000-01-01T00:00:00Z"), Ok(253_402_300_800));
    assert_eq!(iso8601_from_unix_seconds(253_402_300_800), "10000-01-01T00:00:00Z");
    assert_eq!(unix_seconds_from_iso8601("0000-01-01T00:00:00Z"), Ok(-62_167_219_200));
}

#[test]
fn a_year_too_far_away_is_refused_like_no_year_at_all() {
    assert_eq!(checked_unix_seconds("2026-08-17T17:31:42Z"), Ok(1_786_987_902));
    assert!(checked_unix_seconds("9223372036854775807-01-01T00:00:00Z").is_err());
    let refusal = checked_unix_seconds("12:00").unwrap_err();
    assert!(refusal.contains("\"12:00\""), "{refusal}");
}

#[test]
fn seconds_before_the_epoch_are_kept_too() {
    assert_eq!(iso8601_from_unix_seconds(-1), "1969-12-31T23:59:59Z");
    assert_eq!(unix_seconds_from_iso8601("1969-12-31T23:59:59Z"), Ok(-1));
    assert_eq!(unix_seconds(time_from_unix_seconds(-1)), -1);
    assert_eq!(timestamp(SystemTime { nanos: 1_999_999_999 }), "1970-01-01T00:00:01Z");
}
