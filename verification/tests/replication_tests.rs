use rust_wal_cake_writer::replication::{group_by_table, split_into_batches, stamp_lsn, FenceTracker, MicroBatch, count_batches};
use rust_wal_cake_writer::state::PendingBatch;
use rust_wal_cake_writer::wal_parser::{Operation, WalRecord};

fn rec(table: &str, lsn: u64, xid: u64) -> WalRecord {
    WalRecord {
        lsn,
        table_schema: "public".to_string(),
        table_name: table.to_string(),
        operation: Operation::Insert,
        oid: 1,
        new_tuple: None,
        old_tuple: None,
        tx_commit_time: 0,
        tx_xid: xid,
    }
}

fn batch(topic: &str, wal_end: u64, created_at: u64, xids: &[u64]) -> PendingBatch {
    PendingBatch { records: xids.iter().map(|x| rec("t", 0, *x)).collect(), wal_end, created_at, topic: topic.to_string() }
}

#[test]
fn grouping_keeps_order_per_table() {
    let groups = group_by_table(vec![rec("a", 1, 1), rec("b", 2, 2), rec("a", 3, 3), rec("c", 4, 4), rec("b", 5, 5)]);
    assert_eq!(groups.len(), 3);
    assert_eq!(groups[0].table_name, "a");
    assert_eq!(groups[1].table_name, "b");
    assert_eq!(groups[2].table_name, "c");
    assert_eq!(groups[0].records.iter().map(|r| r.tx_xid).collect::<Vec<_>>(), vec![1, 3]);
    assert_eq!(groups[1].records.iter().map(|r| r.tx_xid).collect::<Vec<_>>(), vec![2, 5]);
    assert_eq!(count_batches(&groups, 1), 5);
    assert_eq!(count_batches(&groups, 2), 3);
}

#[test]
fn splitting_into_batches() {
    let records: Vec<WalRecord> = (1..=5).map(|x| rec("a", 0, x)).collect();
    let batches = split_into_batches("cdc.public.a", records, 2, 99, 7);
    assert_eq!(batches.len(), 3);
    assert_eq!(batches.iter().map(|b| b.records.len()).collect::<Vec<_>>(), vec![2, 2, 1]);
    assert!(batches.iter().all(|b| b.wal_end == 99 && b.created_at == 7 && b.topic == "cdc.public.a"));
    assert_eq!(batches[2].records[0].tx_xid, 5);
    assert!(split_into_batches("t", vec![], 10, 1, 1).is_empty());
}

#[test]
fn stamping_fills_missing_lsns() {
    let out = stamp_lsn(vec![rec("a", 0, 1), rec("a", 5, 2)], 42);
    assert_eq!(out[0].lsn, 42);
    assert_eq!(out[1].lsn, 5);
}

#[test]
fn fences_confirm_in_order() {
    let mut f = FenceTracker::new();
    f.add_batches(100, 2);
    f.add_batches(200, 1);
    f.add_batches(100, 0);
    assert_eq!(f.pending_fences(), 2);
    assert_eq!(f.count_at(100), 2);
    assert!(f.acknowledge(200).is_empty());
    assert_eq!(f.confirmed_lsn(), 0);
    assert!(f.acknowledge(100).is_empty());
    assert_eq!(f.acknowledge(100), vec![100, 200]);
    assert_eq!(f.confirmed_lsn(), 200);
    assert_eq!(f.pending_fences(), 0);
}

#[test]
fn unknown_acknowledgement_changes_nothing() {
    let mut f = FenceTracker::new();
    f.add_batches(10, 1);
    assert!(f.acknowledge(11).is_empty());
    assert_eq!(f.count_at(10), 1);
}

#[test]
fn direct_confirmation_never_goes_back() {
    let mut f = FenceTracker::new();
    assert_eq!(f.confirm_direct(50), 50);
    assert_eq!(f.confirm_direct(40), 50);
    assert_eq!(f.confirmed_lsn(), 50);
}

#[test]
fn micro_batch_gathers_same_topic() {
    let mut m = MicroBatch::start(batch("x", 20, 5, &[1]));
    assert!(m.wants_more(3));
    assert!(m.absorb(batch("x", 10, 3, &[2]), 3).is_ok());
    assert!(m.absorb(batch("x", 20, 9, &[3]), 3).is_ok());
    assert!(!m.wants_more(3));
    let refused = m.absorb(batch("x", 30, 1, &[4]), 3).err().unwrap();
    assert_eq!(refused.wal_end, 30);
    let other = m.absorb(batch("y", 40, 1, &[]), 10).err().unwrap();
    assert_eq!(other.topic, "y");
    assert_eq!(m.acknowledgements(), &vec![10, 20]);
    assert_eq!(m.max_wal_end(), 20);
    assert_eq!(m.oldest_created_at, 3);
    assert_eq!(m.source_batches, 3);
    let retry = m.into_retry();
    assert_eq!(retry.len(), 2);
    assert_eq!(retry[0].wal_end, 10);
    assert_eq!(retry[0].created_at, 3);
    assert_eq!(retry[0].records.iter().map(|r| r.tx_xid).collect::<Vec<_>>(), vec![1, 2, 3]);
    assert_eq!(retry[1].wal_end, 20);
    assert_eq!(retry[1].topic, "x");
    assert_eq!(retry[1].created_at, 3);
    assert!(retry[1].records.is_empty());
}

#[test]
fn retried_batches_acknowledge_every_covered_position() {
    let mut fences = FenceTracker::new();
    fences.add_batches(10, 1);
    fences.add_batches(20, 1);
    fences.add_batches(30, 1);
    let mut m = MicroBatch::start(batch("x", 10, 5, &[1]));
    assert!(m.absorb(batch("x", 20, 6, &[2]), 10).is_ok());
    assert!(m.absorb(batch("x", 30, 7, &[3]), 10).is_ok());
    let mut retry = m.into_retry().into_iter();
    let mut again = MicroBatch::start(retry.next().unwrap());
    for b in retry {
        assert!(again.absorb(b, 10).is_ok());
    }
    assert_eq!(again.records.iter().map(|r| r.tx_xid).collect::<Vec<_>>(), vec![1, 2, 3]);
    assert_eq!(again.acknowledgements(), &vec![10, 20, 30]);
    let mut confirmed = Vec::new();
    for w in again.acknowledgements().clone() {
        confirmed.extend(fences.acknowledge(w));
    }
    assert_eq!(fences.confirmed_lsn(), 30);
    assert_eq!(confirmed.last(), Some(&30));
}

#[test]
fn retry_of_an_empty_gathering_has_one_batch() {
    let m = MicroBatch { topic: "x".to_string(), records: Vec::new(), wal_ends: Vec::new(), oldest_created_at: 4, source_batches: 0 };
    let retry = m.into_retry();
    assert_eq!(retry.len(), 1);
    assert_eq!(retry[0].wal_end, 0);
    assert_eq!(retry[0].created_at, 4);
}

#[test]
fn keepalive_reply_reports_the_confirmed_position_when_asked() {
    let mut f = FenceTracker::new();
    f.add_batches(10, 1);
    f.add_batches(20, 1);
    assert!(f.acknowledge(10) == vec![10]);
    assert_eq!(f.keepalive_reply(true), Some(10));
    assert_eq!(f.keepalive_reply(false), None);
}

#[test]
fn confirmation_never_passes_an_unpublished_batch() {
    let mut f = FenceTracker::new();
    f.add_batches(10, 2);
    f.add_batches(20, 1);
    f.add_batches(30, 1);
    assert!(f.acknowledge(20).is_empty());
    assert!(f.acknowledge(30).is_empty());
    assert_eq!(f.confirmed_lsn(), 0);
    assert!(f.acknowledge(10).is_empty());
    assert_eq!(f.confirmed_lsn(), 0);
    assert_eq!(f.acknowledge(10), vec![10, 20, 30]);
    assert_eq!(f.confirmed_lsn(), 30);
}
