use bytes::Bytes;
use rust_wal_cake_writer::wal_parser::{Operation, WalParser};

#[test]
fn parse_empty_returns_empty() {
    let p = WalParser::new();
    let res = p.parse(&Bytes::new()).unwrap();
    assert!(res.is_empty());
}

#[test]
fn operation_names() {
    assert_eq!(Operation::Insert.to_string(), "INSERT");
    assert_eq!(Operation::Update.to_string(), "UPDATE");
    assert_eq!(Operation::Delete.to_string(), "DELETE");
    assert_eq!(Operation::Truncate.to_string(), "TRUNCATE");
}

#[test]
fn unknown_message_type_is_an_error() {
    let err = WalParser::new().parse(&[b'Z', 0, 0]).err().unwrap();
    assert!(err.message.starts_with("pgoutput parse error: "));
}

#[test]
fn parse_errors_carry_the_decoder_text_and_repeat() {
    let p = WalParser::new();
    let first = p.parse(&[b'Z', 0, 0]).err().unwrap().message;
    let _ = p.parse(&[]);
    let again = p.parse(&[b'Z', 0, 0]).err().unwrap().message;
    let other = WalParser::default().parse(&[b'Z', 0, 0]).err().unwrap().message;
    assert!(first.len() > "pgoutput parse error: ".len());
    assert_eq!(first, again);
    assert_eq!(first, other);
}
