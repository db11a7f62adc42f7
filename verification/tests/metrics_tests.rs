use rust_wal_cake_writer::metrics::{Metrics, TableMetrics};
use rust_wal_cake_writer::wal_parser::Operation;

#[test]
fn counters_start_at_zero_and_count() {
    let mut m = Metrics::new();
    assert_eq!(m.wal_bytes_received(), 0);
    m.inc_by(100);
    m.inc_by(20);
    assert_eq!(m.wal_bytes_received(), 120);
    m.wal_records_parsed_inc(3);
    assert_eq!(m.wal_records_parsed(), 3);
    m.batches_sent_inc();
    assert_eq!(m.batches_sent(), 1);
    m.parsing_errors_inc();
    assert_eq!(m.parsing_errors(), 1);
    m.kafka_messages_sent_inc();
    assert_eq!(m.kafka_messages_sent(), 1);
    m.kafka_send_errors_inc();
    assert_eq!(m.kafka_send_errors(), 1);
    m.set_last_lsn(77);
    assert_eq!(m.last_lsn(), 77);
}

#[test]
fn counters_wrap_around() {
    let mut m = Metrics::new();
    m.inc_by(u64::MAX);
    m.inc_by(2);
    assert_eq!(m.wal_bytes_received(), 1);
}

#[test]
fn message_types_and_operations_are_counted() {
    let mut m = Metrics::new();
    m.inc_wal_message("begin");
    m.inc_wal_message("begin");
    m.inc_wal_message("commit");
    m.inc_wal_message("bogus");
    assert_eq!(m.wal_messages_begin, 2);
    assert_eq!(m.wal_messages_commit, 1);
    assert_eq!(m.wal_messages_xlogdata, 0);
    m.published_record_inc(Operation::Delete);
    m.published_record_inc(Operation::Delete);
    m.published_record_inc(Operation::Truncate);
    assert_eq!(m.published_records_delete, 2);
    assert_eq!(m.published_records_truncate, 1);
    assert_eq!(m.published_records_insert, 0);
}

#[test]
fn exposition_text() {
    let mut m = Metrics::new();
    m.set_replication_connected(true);
    m.published_record_inc(Operation::Insert);
    m.observe_publish_duration(3_000_000, Some(1));
    m.observe_publish_duration(40_000_000, Some(3));
    m.observe_publish_duration(20_000_000_000, None);
    m.set_last_acked_lsn(4096);
    let text = m.gather_prometheus("20.043");
    assert!(text.starts_with("# HELP wal_writer_ready WAL writer process readiness\n# TYPE wal_writer_ready gauge\nwal_writer_ready 1\n"));
    assert!(text.contains("\nwal_writer_replication_connected 1\n"));
    assert!(text.contains("\nwal_writer_published_records_total{operation=\"insert\"} 1\n"));
    assert!(text.contains("\nwal_writer_publish_duration_seconds_bucket{le=\"0.001\"} 0\n"));
    assert!(text.contains("\nwal_writer_publish_duration_seconds_bucket{le=\"0.005\"} 1\n"));
    assert!(text.contains("\nwal_writer_publish_duration_seconds_bucket{le=\"0.05\"} 2\n"));
    assert!(text.contains("\nwal_writer_publish_duration_seconds_bucket{le=\"10\"} 2\n"));
    assert!(text.contains("\nwal_writer_publish_duration_seconds_bucket{le=\"+Inf\"} 3\n"));
    assert!(text.contains("\nwal_writer_publish_duration_seconds_sum 20.043\n"));
    assert!(text.contains("\nwal_writer_publish_duration_seconds_count 3\n"));
    assert!(text.contains("\nwal_writer_last_acked_lsn 4096\n"));
    assert!(text.ends_with("# TYPE wal_writer_process_wal_errors_total counter\nwal_writer_process_wal_errors_total 0\n"));
    assert_eq!(m.publish_duration_sum_ns, 20_043_000_000);
}

#[test]
fn table_metrics_count() {
    let mut t = TableMetrics::new();
    t.insert_inc();
    t.insert_inc();
    t.update_inc();
    t.delete_inc();
    assert_eq!(t.insert_count, 2);
    assert_eq!(t.update_count, 1);
    assert_eq!(t.delete_count, 1);
    assert_eq!(t.lag_ms, 0);
}

#[test]
fn cumulative_buckets_never_exceed_the_count() {
    let mut m = Metrics::new();
    for (nanos, bucket) in [(500_000u64, Some(0usize)), (2_000_000, Some(1)), (2_000_000, Some(1)), (7_000_000_000, Some(10)), (30_000_000_000, None)] {
        m.observe_publish_duration(nanos, bucket);
    }
    let text = m.gather_prometheus("37.0045");
    let values: Vec<u64> = text
        .lines()
        .filter(|l| l.starts_with("wal_writer_publish_duration_seconds_bucket{"))
        .map(|l| l.rsplit(' ').next().unwrap().parse().unwrap())
        .collect();
    assert_eq!(values, vec![1, 3, 3, 3, 3, 3, 3, 3, 3, 3, 4, 5]);
    assert!(values.windows(2).all(|w| w[0] <= w[1]));
    assert!(text.contains("wal_writer_publish_duration_seconds_count 5\n"));
}

#[test]
fn one_observation_raises_the_buckets_from_its_own_on() {
    let mut m = Metrics::new();
    m.observe_publish_duration(2_000_000, Some(1));
    let before: Vec<u64> = bucket_values(&m.gather_prometheus("0"));
    m.observe_publish_duration(40_000_000, Some(4));
    let after: Vec<u64> = bucket_values(&m.gather_prometheus("0"));
    for k in 0..11 {
        assert_eq!(after[k], before[k] + if k >= 4 { 1 } else { 0 });
    }
    assert_eq!(after[11], before[11] + 1);
    m.observe_publish_duration(60_000_000_000, None);
    let last: Vec<u64> = bucket_values(&m.gather_prometheus("0"));
    assert_eq!(&last[..11], &after[..11]);
    assert_eq!(last[11], after[11] + 1);
}

fn bucket_values(text: &str) -> Vec<u64> {
    text.lines()
        .filter(|l| l.starts_with("wal_writer_publish_duration_seconds_bucket{"))
        .map(|l| l.rsplit(' ').next().unwrap().parse().unwrap())
        .collect()
}
