use market_stream_core::timestamp::{
    format_timestamp, parse_timestamp, renormalize, Timestamp, TimestampError,
};

#[test]
fn parses_plain_rfc3339_utc() {
    let t = parse_timestamp("2024-01-01T00:00:00Z").unwrap();
    assert_eq!(t.seconds, 1704067200);
    assert_eq!(t.nanos, 0);
}

#[test]
fn parses_nine_fractional_digits() {
    let t = parse_timestamp("2024-01-01T00:00:00.123456789Z").unwrap();
    assert_eq!(t.seconds, 1704067200);
    assert_eq!(t.nanos, 123456789);
}

#[test]
fn parses_short_fraction_scaled_out() {
    let t = parse_timestamp("2024-01-01T00:00:00.5Z").unwrap();
    assert_eq!(t.seconds, 1704067200);
    assert_eq!(t.nanos, 500_000_000);
}

#[test]
fn parses_numeric_offset() {
    let t = parse_timestamp("2024-01-01T02:00:00+02:00").unwrap();
    assert_eq!(t.seconds, 1704067200);
    assert_eq!(t.nanos, 0);
}

#[test]
fn parses_unix_epoch() {
    let t = parse_timestamp("1970-01-01T00:00:00Z").unwrap();
    assert_eq!(t.seconds, 0);
    assert_eq!(t.nanos, 0);
}

#[test]
fn parses_before_epoch() {
    let t = parse_timestamp("1969-12-31T23:59:59Z").unwrap();
    assert_eq!(t.seconds, -1);
}

#[test]
fn accepts_leap_day_of_leap_year() {
    assert!(parse_timestamp("2024-02-29T12:00:00Z").is_ok());
    assert!(parse_timestamp("2000-02-29T12:00:00Z").is_ok());
}

#[test]
fn rejects_leap_day_of_common_year() {
    assert_eq!(
        parse_timestamp("2023-02-29T12:00:00Z"),
        Err(TimestampError::Unparseable)
    );
    assert_eq!(
        parse_timestamp("1900-02-29T12:00:00Z"),
        Err(TimestampError::Unparseable)
    );
}

#[test]
fn rejects_out_of_range_fields() {
    assert_eq!(
        parse_timestamp("2024-13-01T00:00:00Z"),
        Err(TimestampError::Unparseable)
    );
    assert_eq!(
        parse_timestamp("2024-01-01T24:00:00Z"),
        Err(TimestampError::Unparseable)
    );
    assert_eq!(
        parse_timestamp("2024-01-32T00:00:00Z"),
        Err(TimestampError::Unparseable)
    );
}

#[test]
fn rejects_garbage() {
    assert_eq!(parse_timestamp(""), Err(TimestampError::Unparseable));
    assert_eq!(parse_timestamp("yesterday"), Err(TimestampError::Unparseable));
    assert_eq!(
        parse_timestamp("2024-01-01 close enough"),
        Err(TimestampError::Unparseable)
    );
}

#[test]
fn leap_second_reading_is_reported_not_published() {
    assert_eq!(
        parse_timestamp("2016-12-31T23:59:60Z"),
        Err(TimestampError::SubsecondOverflow)
    );
}

#[test]
fn nanoseconds_always_below_one_second() {
    let inputs = [
        "2024-01-01T00:00:00.999999999Z",
        "2024-06-15T07:08:09.000000001Z",
        "1999-12-31T23:59:59.25Z",
        "2024-01-01T05:00:00-05:00",
    ];
    for s in inputs {
        let t = parse_timestamp(s).unwrap();
        assert!(t.nanos >= 0 && t.nanos < 1_000_000_000, "{}", s);
    }
}

#[test]
fn formats_canonical_text() {
    let t = Timestamp { seconds: 1704067200, nanos: 123456789 };
    assert_eq!(
        format_timestamp(&t).unwrap(),
        "2024-01-01T00:00:00.123456789Z"
    );
    let early = Timestamp { seconds: -1, nanos: 0 };
    assert_eq!(
        format_timestamp(&early).unwrap(),
        "1969-12-31T23:59:59.000000000Z"
    );
}

#[test]
fn formats_calendar_edges() {
    let first = Timestamp { seconds: -62167219200, nanos: 0 };
    assert_eq!(
        format_timestamp(&first).unwrap(),
        "0000-01-01T00:00:00.000000000Z"
    );
    let last = Timestamp { seconds: 253402300799, nanos: 999999999 };
    assert_eq!(
        format_timestamp(&last).unwrap(),
        "9999-12-31T23:59:59.999999999Z"
    );
    assert_eq!(format_timestamp(&Timestamp { seconds: 253402300800, nanos: 0 }), None);
    assert_eq!(format_timestamp(&Timestamp { seconds: -62167219201, nanos: 0 }), None);
    assert_eq!(format_timestamp(&Timestamp { seconds: 0, nanos: 1_000_000_000 }), None);
    assert_eq!(format_timestamp(&Timestamp { seconds: 0, nanos: -1 }), None);
}

#[test]
fn round_trip_recovers_the_pair() {
    let pairs = [
        (0i64, 0i32),
        (1704067200, 123456789),
        (-1, 999999999),
        (-62167219200, 0),
        (253402300799, 999999999),
        (951827696, 5),
    ];
    for (seconds, nanos) in pairs {
        let t = Timestamp { seconds, nanos };
        assert_eq!(renormalize(&t), Some(t), "{}s {}ns", seconds, nanos);
        let text = format_timestamp(&t).unwrap();
        let back = parse_timestamp(&text).unwrap();
        assert_eq!(back, t);
    }
}

#[test]
fn round_trip_refuses_out_of_calendar() {
    assert_eq!(renormalize(&Timestamp { seconds: 253402300800, nanos: 0 }), None);
}
