use forum_search::codec::{encode_timestamp, is_uuid_str, parse_timestamp};

#[test]
fn encode_zero() {
    assert_eq!(encode_timestamp(0), "0");
}

#[test]
fn encode_positive() {
    assert_eq!(encode_timestamp(100), "100");
    assert_eq!(encode_timestamp(1700000000), "1700000000");
    assert_eq!(encode_timestamp(i64::MAX), "9223372036854775807");
}

#[test]
fn encode_negative() {
    assert_eq!(encode_timestamp(-1), "-1");
    assert_eq!(encode_timestamp(-42), "-42");
    assert_eq!(encode_timestamp(i64::MIN), "-9223372036854775808");
}

#[test]
fn parse_round_trips_encode() {
    for t in [
        0i64,
        1,
        -1,
        100,
        200,
        999,
        -1000,
        1700000000,
        i64::MAX,
        i64::MIN,
        i64::MAX - 1,
        i64::MIN + 1,
    ] {
        assert_eq!(parse_timestamp(&encode_timestamp(t)), Some(t));
    }
}

#[test]
fn parse_plain_values() {
    assert_eq!(parse_timestamp("0"), Some(0));
    assert_eq!(parse_timestamp("007"), Some(7));
    assert_eq!(parse_timestamp("-0"), Some(0));
    assert_eq!(parse_timestamp("9223372036854775807"), Some(i64::MAX));
    assert_eq!(parse_timestamp("-9223372036854775808"), Some(i64::MIN));
}

#[test]
fn parse_rejects_malformed() {
    assert_eq!(parse_timestamp(""), None);
    assert_eq!(parse_timestamp("-"), None);
    assert_eq!(parse_timestamp("+7"), None);
    assert_eq!(parse_timestamp("12a3"), None);
    assert_eq!(parse_timestamp(" 12"), None);
    assert_eq!(parse_timestamp("12 "), None);
    assert_eq!(parse_timestamp("1.5"), None);
    assert_eq!(parse_timestamp("--5"), None);
}

#[test]
fn parse_rejects_out_of_range() {
    assert_eq!(parse_timestamp("9223372036854775808"), None);
    assert_eq!(parse_timestamp("-9223372036854775809"), None);
    assert_eq!(parse_timestamp("99999999999999999999999999"), None);
}

#[test]
fn uuid_text_accepted() {
    assert!(is_uuid_str("00000000-0000-0000-0000-000000000000"));
    assert!(is_uuid_str("123e4567-e89b-12d3-a456-426614174000"));
    assert!(is_uuid_str("FFFFFFFF-FFFF-FFFF-FFFF-FFFFFFFFFFFF"));
}

#[test]
fn uuid_text_rejected() {
    assert!(!is_uuid_str(""));
    assert!(!is_uuid_str("123e4567e89b12d3a456426614174000"));
    assert!(!is_uuid_str("123e4567-e89b-12d3-a456-42661417400"));
    assert!(!is_uuid_str("123e4567-e89b-12d3-a456-4266141740000"));
    assert!(!is_uuid_str("123e4567-e89b-12d3-a456_426614174000"));
    assert!(!is_uuid_str("g23e4567-e89b-12d3-a456-426614174000"));
    assert!(!is_uuid_str("123e4567-e89b-12d3-a456-42661417400 "));
}
