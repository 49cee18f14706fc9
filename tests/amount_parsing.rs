use toy_payments_engine::models::TransactionType;
use toy_payments_engine::money::{display_amount, format_amount, parse_amount, parse_id};
use toy_payments_engine::record::{parse_amount_field, parse_record, RecordError};

#[test]
fn amount_round_trip_rounds_fifth_digit_up() {
    let v = parse_amount("10.12345").unwrap();
    assert_eq!(v, 101_235);
    assert_eq!(format_amount(v), "10.1235");
}

#[test]
fn amount_parsing_forms() {
    assert_eq!(parse_amount("100.0"), Some(1_000_000));
    assert_eq!(parse_amount("100"), Some(1_000_000));
    assert_eq!(parse_amount("1.5"), Some(15_000));
    assert_eq!(parse_amount(".5"), Some(5_000));
    assert_eq!(parse_amount("5."), Some(50_000));
    assert_eq!(parse_amount("+2.25"), Some(22_500));
    assert_eq!(parse_amount("-0.5"), Some(-5_000));
    assert_eq!(parse_amount("-10.12345"), Some(-101_235));
    assert_eq!(parse_amount("0.00004"), Some(0));
    assert_eq!(parse_amount("0.00005"), Some(1));
    assert_eq!(parse_amount("1.99999"), Some(20_000));
    assert_eq!(parse_amount("0.123449"), Some(1_234));
    assert_eq!(parse_amount("922337203685477.5807"), Some(i64::MAX));
    assert_eq!(parse_amount("922337203685477.5808"), None);
    assert_eq!(parse_amount("99999999999999999999"), None);
    assert_eq!(parse_amount(""), None);
    assert_eq!(parse_amount("."), None);
    assert_eq!(parse_amount("-"), None);
    assert_eq!(parse_amount("1.2.3"), None);
    assert_eq!(parse_amount("abc"), None);
    assert_eq!(parse_amount("1e5"), None);
    assert_eq!(parse_amount(" 1"), None);
}

#[test]
fn amount_formatting() {
    assert_eq!(format_amount(0), "0.0000");
    assert_eq!(format_amount(1_000_000), "100.0000");
    assert_eq!(format_amount(5), "0.0005");
    assert_eq!(format_amount(-15_000), "-1.5000");
    assert_eq!(format_amount(i64::MAX), "922337203685477.5807");
    assert_eq!(format_amount(i64::MIN), "-922337203685477.5808");
    assert_eq!(display_amount(300_000), "30");
    assert_eq!(display_amount(305_000), "30.5");
    assert_eq!(display_amount(1), "0.0001");
    assert_eq!(display_amount(-12_340), "-1.234");
}

#[test]
fn identifier_parsing() {
    assert_eq!(parse_id("65535", 65535), Some(65535));
    assert_eq!(parse_id("65536", 65535), None);
    assert_eq!(parse_id("4294967295", 4294967295), Some(4294967295));
    assert_eq!(parse_id("4294967296", 4294967295), None);
    assert_eq!(parse_id("007", 10), Some(7));
    assert_eq!(parse_id("", 10), None);
    assert_eq!(parse_id("1a", 10), None);
    assert_eq!(parse_id("-1", 10), None);
}

#[test]
fn record_parsing() {
    let t = parse_record("Withdrawal", "2", "17", "0.5").unwrap();
    assert_eq!(t.tx_type, TransactionType::Withdrawal);
    assert_eq!((t.client_id, t.tx_id, t.amount), (2, 17, Some(5_000)));
    let d = parse_record("DISPUTE", "2", "17", "").unwrap();
    assert_eq!(d.amount, None);
    assert_eq!(parse_record("invalid_type", "1", "1", "100.0"), Err(RecordError::UnknownType));
    assert_eq!(parse_record("deposit", "70000", "1", "1"), Err(RecordError::InvalidClient));
    assert_eq!(parse_record("deposit", "1", "x", "1"), Err(RecordError::InvalidTx));
    assert_eq!(parse_record("deposit", "1", "1", "one"), Err(RecordError::InvalidAmount));
    assert_eq!(parse_amount_field(""), Ok(None));
    assert_eq!(parse_amount_field("2"), Ok(Some(20_000)));
}
