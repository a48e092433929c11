use autothesis::time::{encode_time, parse_time, Timestamp};

#[test]
fn stored_instants_are_read_as_utc() {
    let t = parse_time("2024-01-02T03:04:05Z").unwrap();
    assert!(t == Timestamp { unix_seconds: 1704164645, nanos: 0 });
    let offset = parse_time("2024-01-02T04:04:05.5+01:00").unwrap();
    assert!(offset == Timestamp { unix_seconds: 1704164645, nanos: 500_000_000 });
    assert!(parse_time("yesterday").is_none());
    assert!(parse_time("").is_none());
}

#[test]
fn instants_are_written_as_rfc3339() {
    let t = Timestamp { unix_seconds: 1704164645, nanos: 0 };
    assert_eq!(encode_time(t).as_deref(), Some("2024-01-02T03:04:05+00:00"));
    let back = parse_time(&encode_time(t).unwrap()).unwrap();
    assert!(back == t);
    assert!(encode_time(Timestamp { unix_seconds: i64::MAX, nanos: 0 }).is_none());
}
