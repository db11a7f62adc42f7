use rust_wal_cake_writer::config::AppConfig;
use rust_wal_cake_writer::kafka::producer_client_config;

#[test]
fn producer_settings() {
    let c = AppConfig::from_vars(&vec![("WAL_WRITER_KAFKA_LINGER_MS".to_string(), "7".to_string())]);
    let cc = producer_client_config(&c.kafka);
    assert_eq!(cc.get("bootstrap.servers"), Some("localhost:9092"));
    assert_eq!(cc.get("acks"), Some("all"));
    assert_eq!(cc.get("linger.ms"), Some("7"));
    assert_eq!(cc.get("batch.size"), Some("65536"));
    assert_eq!(cc.get("queue.buffering.max.ms"), Some("0"));
    assert_eq!(cc.get("api.version.request"), Some("true"));
    assert_eq!(cc.get("socket.timeout.ms"), Some("30000"));
    assert_eq!(cc.get("compression.type"), None);
}

#[test]
fn producer_compression() {
    let c = AppConfig::from_vars(&vec![("WAL_WRITER_KAFKA_COMPRESSION".to_string(), "zstd".to_string())]);
    let cc = producer_client_config(&c.kafka);
    assert_eq!(cc.get("compression.type"), Some("zstd"));
}
