use rust_wal_cake_writer::decoder::{is_queue_full, raw_topic, record_key, table_topic, text_contains, DecoderConfig, RetryDecision, SendRetry};

#[test]
fn topic_names_and_keys() {
    assert_eq!(table_topic("cdc", "public", "users"), "cdc.public.users");
    assert_eq!(raw_topic("cdc"), "cdc.raw");
    assert_eq!(record_key(731), "731");
    assert_eq!(record_key(0), "0");
}

#[test]
fn queue_full_detection() {
    assert!(is_queue_full("Message production error: QueueFull (Local: Queue full)"));
    assert!(!is_queue_full("Message production error: MessageSizeTooLarge"));
    assert!(text_contains("abc", ""));
    assert!(!text_contains("ab", "abc"));
}

#[test]
fn retry_schedule() {
    let mut r = SendRetry::new();
    let mut waits = Vec::new();
    loop {
        match r.on_failure(true) {
            RetryDecision::Retry(ms) => waits.push(ms),
            RetryDecision::GiveUp => break,
        }
    }
    assert_eq!(waits, vec![10, 20, 40, 80, 160]);
    assert_eq!(r.retry_count, 5);
}

#[test]
fn other_errors_give_up_at_once() {
    let mut r = SendRetry::new();
    assert!(matches!(r.on_failure(false), RetryDecision::GiveUp));
    assert_eq!(r.retry_count, 0);
}

#[test]
fn decoder_defaults() {
    let c = DecoderConfig::default();
    assert_eq!(c.batch_size, 100);
    assert_eq!(c.flush_interval_ms, 100);
    assert_eq!(c.max_retries, 3);
}
