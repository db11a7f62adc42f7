use rust_wal_cake_writer::pipeline::{plan_xlog_data, XLogPlan};
use rust_wal_cake_writer::replication::FenceTracker;
use rust_wal_cake_writer::wal_parser::WalParser;

fn relation(id: u32, table: &str) -> Vec<u8> {
    let mut m = vec![b'R'];
    m.extend_from_slice(&id.to_be_bytes());
    m.extend_from_slice(b"public\0");
    m.extend_from_slice(table.as_bytes());
    m.push(0);
    m.push(b'd');
    m.extend_from_slice(&1u16.to_be_bytes());
    m.push(1);
    m.extend_from_slice(b"id\0");
    m.extend_from_slice(&23u32.to_be_bytes());
    m.extend_from_slice(&(-1i32).to_be_bytes());
    m
}

fn insert(id: u32, value: &str) -> Vec<u8> {
    let mut m = vec![b'I'];
    m.extend_from_slice(&id.to_be_bytes());
    m.push(b'N');
    m.extend_from_slice(&1u16.to_be_bytes());
    m.push(b't');
    m.extend_from_slice(&(value.len() as u32).to_be_bytes());
    m.extend_from_slice(value.as_bytes());
    m
}

#[test]
fn records_are_fenced_and_batched_per_table() {
    let mut data = relation(1, "a");
    data.extend_from_slice(&relation(2, "b"));
    data.extend_from_slice(&insert(1, "1"));
    data.extend_from_slice(&insert(2, "2"));
    data.extend_from_slice(&insert(1, "3"));
    data.extend_from_slice(&insert(1, "4"));
    let mut fences = FenceTracker::new();
    match plan_xlog_data("cdc", false, 2, &WalParser::new(), &mut fences, 500, &data, 9) {
        XLogPlan::Enqueue { records_parsed, batches } => {
            assert_eq!(records_parsed, 4);
            assert_eq!(batches.len(), 3);
            assert_eq!(batches[0].topic, "cdc.public.a");
            assert_eq!(batches[0].records.len(), 2);
            assert_eq!(batches[1].topic, "cdc.public.a");
            assert_eq!(batches[1].records.len(), 1);
            assert_eq!(batches[2].topic, "cdc.public.b");
            assert!(batches.iter().all(|b| b.wal_end == 500 && b.created_at == 9));
            assert!(batches.iter().flat_map(|b| b.records.iter()).all(|r| r.lsn == 500));
            assert_eq!(fences.count_at(500), 3);
        }
        _ => panic!("expected batches"),
    }
}

#[test]
fn empty_payload_adds_no_fence() {
    let mut fences = FenceTracker::new();
    match plan_xlog_data("cdc", false, 10, &WalParser::new(), &mut fences, 7, &[], 0) {
        XLogPlan::Enqueue { records_parsed, batches } => {
            assert_eq!(records_parsed, 0);
            assert!(batches.is_empty());
        }
        _ => panic!("expected an empty plan"),
    }
    assert_eq!(fences.pending_fences(), 0);
}

#[test]
fn raw_mode_publishes_hex() {
    let mut fences = FenceTracker::new();
    match plan_xlog_data("cdc", true, 10, &WalParser::new(), &mut fences, 1234, &[0x01, 0xab, 0xff], 0) {
        XLogPlan::PublishRaw { topic, key, value } => {
            assert_eq!(topic, "cdc.raw");
            assert_eq!(key, "1234");
            assert_eq!(value, "01abff");
        }
        _ => panic!("expected a raw publication"),
    }
    assert_eq!(fences.pending_fences(), 0);
}

#[test]
fn undecodable_payload_is_reported() {
    let mut fences = FenceTracker::new();
    match plan_xlog_data("cdc", false, 10, &WalParser::new(), &mut fences, 1, &[b'I', 0], 0) {
        XLogPlan::ParseFailed(e) => assert!(e.message.starts_with("pgoutput parse error: ")),
        _ => panic!("expected a parse failure"),
    }
    assert_eq!(fences.pending_fences(), 0);
}
