use bytes::Bytes;
use rust_wal_cake_writer::wal_parser::{ColumnValue, Operation, WalParser, WalRecord};

fn relation_message(relation_id: u32, namespace: &str, name: &str, replica_identity: u8, columns: Vec<(u8, &str, u32, i32)>) -> Vec<u8> {
    let mut m = vec![b'R'];
    m.extend_from_slice(&relation_id.to_be_bytes());
    m.extend_from_slice(namespace.as_bytes());
    m.push(0);
    m.extend_from_slice(name.as_bytes());
    m.push(0);
    m.push(replica_identity);
    m.extend_from_slice(&(columns.len() as u16).to_be_bytes());
    for (flags, col, type_oid, modifier) in columns {
        m.push(flags);
        m.extend_from_slice(col.as_bytes());
        m.push(0);
        m.extend_from_slice(&type_oid.to_be_bytes());
        m.extend_from_slice(&modifier.to_be_bytes());
    }
    m
}

fn tuple(values: Vec<Option<Vec<u8>>>) -> Vec<u8> {
    let mut t = Vec::new();
    t.extend_from_slice(&(values.len() as u16).to_be_bytes());
    for v in values {
        match v {
            Some(bytes) => {
                t.push(b't');
                t.extend_from_slice(&(bytes.len() as u32).to_be_bytes());
                t.extend_from_slice(&bytes);
            }
            None => t.push(b'n'),
        }
    }
    t
}

fn insert_message(relation_id: u32, values: Vec<Option<Vec<u8>>>) -> Vec<u8> {
    let mut m = vec![b'I'];
    m.extend_from_slice(&relation_id.to_be_bytes());
    m.push(b'N');
    m.extend_from_slice(&tuple(values));
    m
}

fn update_message(relation_id: u32, old: Option<Vec<Option<Vec<u8>>>>, new: Vec<Option<Vec<u8>>>) -> Vec<u8> {
    let mut m = vec![b'U'];
    m.extend_from_slice(&relation_id.to_be_bytes());
    if let Some(old) = old {
        m.push(b'O');
        m.extend_from_slice(&tuple(old));
    }
    m.push(b'N');
    m.extend_from_slice(&tuple(new));
    m
}

fn delete_message(relation_id: u32, old: Vec<Option<Vec<u8>>>) -> Vec<u8> {
    let mut m = vec![b'D'];
    m.extend_from_slice(&relation_id.to_be_bytes());
    m.push(b'K');
    m.extend_from_slice(&tuple(old));
    m
}

fn text(r: &WalRecord, row_new: bool, i: usize) -> Option<String> {
    let row = if row_new { r.new_tuple.as_ref() } else { r.old_tuple.as_ref() };
    match &row?.columns[i].value {
        Some(ColumnValue::String(s)) => Some(s.clone()),
        _ => None,
    }
}

#[test]
fn parse_insert_update_delete_roundtrip() {
    let rel = relation_message(1, "public", "t", 1, vec![(1u8, "id", 23u32, -1i32), (0u8, "name", 25u32, -1i32)]);
    let insert = insert_message(1, vec![Some("1".as_bytes().to_vec()), Some("alice".as_bytes().to_vec())]);
    let update = update_message(1, None, vec![Some("1".as_bytes().to_vec()), Some("alice2".as_bytes().to_vec())]);
    let delete = delete_message(1, vec![Some("1".as_bytes().to_vec()), None]);

    let mut payload = Vec::new();
    payload.extend_from_slice(&rel);
    payload.extend_from_slice(&insert);
    payload.extend_from_slice(&update);
    payload.extend_from_slice(&delete);

    let p = WalParser::new();
    let records = p.parse(&Bytes::from(payload)).unwrap();
    assert!(records.len() >= 3);
}

#[test]
fn wal_parser_fixtures_parse_insert_update_delete_roundtrip() {
    let mut rel = Vec::new();
    rel.push(b'R');
    rel.extend_from_slice(&1u32.to_be_bytes());
    rel.extend_from_slice(b"public\0");
    rel.extend_from_slice(b"t\0");
    rel.push(b'd');
    rel.extend_from_slice(&2u16.to_be_bytes());
    rel.push(1u8);
    rel.extend_from_slice(b"id\0");
    rel.extend_from_slice(&23u32.to_be_bytes());
    rel.extend_from_slice(&(-1i32).to_be_bytes());
    rel.push(0u8);
    rel.extend_from_slice(b"name\0");
    rel.extend_from_slice(&25u32.to_be_bytes());
    rel.extend_from_slice(&(-1i32).to_be_bytes());

    let mut ins = Vec::new();
    ins.push(b'I');
    ins.extend_from_slice(&1u32.to_be_bytes());
    ins.push(b'N');
    ins.extend_from_slice(&2u16.to_be_bytes());
    ins.push(b't');
    ins.extend_from_slice(&1u32.to_be_bytes());
    ins.extend_from_slice(b"1");
    ins.push(b't');
    ins.extend_from_slice(&5u32.to_be_bytes());
    ins.extend_from_slice(b"alice");

    let mut upd = Vec::new();
    upd.push(b'U');
    upd.extend_from_slice(&1u32.to_be_bytes());
    upd.push(b'N');
    upd.extend_from_slice(&2u16.to_be_bytes());
    upd.push(b't');
    upd.extend_from_slice(&1u32.to_be_bytes());
    upd.extend_from_slice(b"1");
    upd.push(b't');
    upd.extend_from_slice(&6u32.to_be_bytes());
    upd.extend_from_slice(b"alice2");

    let mut del = Vec::new();
    del.push(b'D');
    del.extend_from_slice(&1u32.to_be_bytes());
    del.push(b'K');
    del.extend_from_slice(&2u16.to_be_bytes());
    del.push(b't');
    del.extend_from_slice(&1u32.to_be_bytes());
    del.extend_from_slice(b"1");
    del.push(b'n');

    let mut payload = Vec::new();
    payload.extend_from_slice(&rel);
    payload.extend_from_slice(&ins);
    payload.extend_from_slice(&upd);
    payload.extend_from_slice(&del);

    let p = WalParser::new();
    println!("payload len={}", payload.len());
    let records = p.parse(&Bytes::from(payload)).unwrap();
    assert!(records.len() >= 3, "records={}", records.len());
}

#[test]
fn fixture_records_carry_relation_names_and_values() {
    let mut payload = relation_message(7, "public", "users", b'd', vec![(1u8, "id", 23u32, -1i32), (0u8, "name", 25u32, -1i32)]);
    payload.extend_from_slice(&insert_message(7, vec![Some(b"1".to_vec()), Some(b"alice".to_vec())]));
    payload.extend_from_slice(&update_message(7, Some(vec![Some(b"1".to_vec()), Some(b"alice".to_vec())]), vec![Some(b"1".to_vec()), Some(b"bob".to_vec())]));
    payload.extend_from_slice(&delete_message(7, vec![Some(b"1".to_vec()), None]));
    let records = WalParser::new().parse(&payload).unwrap();
    assert_eq!(records.len(), 3);
    assert!(records.iter().all(|r| r.table_schema == "public" && r.table_name == "users" && r.oid == 7));
    assert!(records[0].operation == Operation::Insert);
    assert!(records[1].operation == Operation::Update);
    assert!(records[2].operation == Operation::Delete);
    let new_row = records[0].new_tuple.as_ref().unwrap();
    assert_eq!(new_row.columns[0].name, "id");
    assert_eq!(new_row.columns[0].type_oid, 23);
    assert_eq!(new_row.columns[1].name, "name");
    assert_eq!(text(&records[0], true, 1), Some("alice".to_string()));
    assert_eq!(text(&records[1], false, 1), Some("alice".to_string()));
    assert_eq!(text(&records[1], true, 1), Some("bob".to_string()));
    let old_row = records[2].old_tuple.as_ref().unwrap();
    assert!(old_row.columns[1].is_null);
    assert!(old_row.columns[1].value.is_none());
    assert!(records[2].new_tuple.is_none());
}

#[test]
fn fixture_insert_without_relation_uses_positional_names() {
    let payload = insert_message(9, vec![Some(b"42".to_vec()), None]);
    let records = WalParser::new().parse(&payload).unwrap();
    assert_eq!(records.len(), 1);
    let row = records[0].new_tuple.as_ref().unwrap();
    assert_eq!(row.columns[0].name, "col1");
    assert_eq!(row.columns[1].name, "col2");
    assert_eq!(row.columns[0].type_oid, 0);
    assert_eq!(records[0].oid, 9);
}

#[test]
fn fixture_truncated_payload_is_an_error() {
    let mut payload = relation_message(1, "public", "t", b'd', vec![(1u8, "id", 23u32, -1i32)]);
    payload.truncate(payload.len() - 3);
    let err = WalParser::new().parse(&payload).err().unwrap();
    assert!(err.message.starts_with("pgoutput parse error: "));
}
