use rust_wal_cake_writer::state::{fnv1a_hash, topic_to_queue_index, BatchQueue, BatchQueueRouter, LsnState, LsnTracker, PendingBatch};

fn batch(topic: &str, wal_end: u64) -> PendingBatch {
    PendingBatch { records: vec![], wal_end, created_at: 0, topic: topic.to_string() }
}

#[test]
fn fnv1a_known_values() {
    assert_eq!(fnv1a_hash(""), 0xcbf29ce484222325);
    assert_eq!(fnv1a_hash("a"), 0xaf63dc4c8601ec8c);
    assert_eq!(fnv1a_hash("foobar"), 0x85944171f73967e8);
    assert_eq!(topic_to_queue_index("a", 4), (0xaf63dc4c8601ec8cu64 % 4) as usize);
}

#[test]
fn queue_is_fifo_and_bounded() {
    let mut q = BatchQueue::new(2);
    assert!(q.enqueue(batch("t", 1)).is_ok());
    assert!(q.enqueue(batch("t", 2)).is_ok());
    let full = q.enqueue(batch("t", 3)).err().unwrap();
    assert_eq!(full.pending, 2);
    let back = q.try_enqueue(batch("t", 4)).err().unwrap();
    assert_eq!(back.wal_end, 4);
    assert_eq!(q.count(), 2);
    assert_eq!(q.dequeue().unwrap().wal_end, 1);
    q.enqueue_front(batch("t", 0));
    q.enqueue_front(batch("t", 9));
    assert_eq!(q.count(), 3);
    assert_eq!(q.dequeue().unwrap().wal_end, 9);
    assert_eq!(q.dequeue().unwrap().wal_end, 0);
    assert_eq!(q.dequeue().unwrap().wal_end, 2);
    assert!(q.dequeue().is_none());
}

#[test]
fn router_sends_a_topic_to_one_queue() {
    let mut r = BatchQueueRouter::new(3, 10);
    let i = r.queue_for("cdc.public.users");
    assert_eq!(i, topic_to_queue_index("cdc.public.users", 3));
    r.enqueue(batch("cdc.public.users", 1)).unwrap();
    r.enqueue(batch("cdc.public.users", 2)).unwrap();
    assert_eq!(r.get_queue(i).count(), 2);
    assert_eq!(r.total_count(), 2);
    assert_eq!(r.dequeue(i).unwrap().wal_end, 1);
    r.enqueue_front(i, batch("cdc.public.users", 7));
    assert_eq!(r.dequeue(i).unwrap().wal_end, 7);
    assert_eq!(r.dequeue(i).unwrap().wal_end, 2);
    assert!(r.dequeue(i).is_none());
}

#[test]
fn router_refuses_when_the_topic_queue_is_full() {
    let mut r = BatchQueueRouter::new(2, 1);
    r.enqueue(batch("x", 1)).unwrap();
    assert!(r.enqueue(batch("x", 2)).is_err());
    assert_eq!(r.try_enqueue(batch("x", 3)).err().unwrap().wal_end, 3);
    assert_eq!(r.total_count(), 1);
}

#[test]
fn tracker_reads_back_what_was_persisted() {
    let mut t = LsnTracker::new(Some("/tmp/state/wal_position.json".to_string()));
    assert!(t.get_last_lsn("slot").is_none());
    t.persist("slot", "1/2", 100);
    t.persist("other", "0/5", 101);
    t.persist("slot", "3/4", 102);
    assert_eq!(t.get_last_lsn("slot").as_deref(), Some("3/4"));
    assert_eq!(t.get_last_lsn("other").as_deref(), Some("0/5"));
    assert_eq!(t.entries().len(), 2);
    assert_eq!(t.store_path().as_deref(), Some("/tmp/state/wal_position.json"));
}

#[test]
fn tracker_load_replaces_everything() {
    let mut t = LsnTracker::new(None);
    t.persist("old", "9/9", 1);
    t.load(vec![
        ("slot".to_string(), LsnState { last_lsn: "1/1".to_string(), last_commit_time: 5 }),
        ("slot".to_string(), LsnState { last_lsn: "2/2".to_string(), last_commit_time: 6 }),
    ]);
    assert!(t.get_last_lsn("old").is_none());
    assert_eq!(t.get_last_lsn("slot").as_deref(), Some("2/2"));
    assert_eq!(t.entries().len(), 1);
    let d = LsnState::default();
    assert_eq!(d.last_lsn, "");
    assert_eq!(d.last_commit_time, 0);
}

#[test]
fn reloading_entries_in_another_order_restores_every_position() {
    let mut t1 = LsnTracker::new(None);
    t1.persist("slot_a", "0/10", 1);
    t1.persist("slot_b", "1/FF", 2);
    t1.persist("slot_a", "0/20", 3);
    let mut saved: Vec<(String, LsnState)> = t1
        .entries()
        .iter()
        .map(|(k, v)| (k.clone(), LsnState { last_lsn: v.last_lsn.clone(), last_commit_time: v.last_commit_time }))
        .collect();
    saved.reverse();
    let mut t2 = LsnTracker::new(None);
    t2.persist("slot_c", "0/1", 4);
    t2.load(saved);
    assert_eq!(t2.get_last_lsn("slot_a"), Some("0/20".to_string()));
    assert_eq!(t2.get_last_lsn("slot_b"), Some("1/FF".to_string()));
    assert_eq!(t2.get_last_lsn("slot_c"), None);
    assert_eq!(t2.entries().len(), 2);
}
