use rust_wal_cake_writer::config::{AppConfig, IcebergConfig, LoggingConfig, ReplicationConfig, StateConfig};

fn vars(pairs: &[(&str, &str)]) -> Vec<(String, String)> {
    pairs.iter().map(|(k, v)| (k.to_string(), v.to_string())).collect()
}

#[test]
fn defaults_without_variables() {
    let c = AppConfig::from_vars(&vec![]);
    assert_eq!(c.pg.host, "localhost");
    assert_eq!(c.pg.port, 5432);
    assert_eq!(c.pg.user, "postgres");
    assert_eq!(c.pg.password, "");
    assert_eq!(c.pg.database, "postgres");
    assert_eq!(c.pg.slot_name(), "wal_writer_slot");
    assert_eq!(c.kafka.brokers, "localhost:9092");
    assert_eq!(c.kafka.topic_prefix(), "cdc");
    assert_eq!(c.kafka.acks, "all");
    assert_eq!(c.kafka.linger_ms, 5);
    assert_eq!(c.kafka.batch_size, 65536);
    assert!(c.kafka.compression.is_none());
    assert!(!c.kafka.debug_no_kafka);
    assert!(!c.kafka.publish_raw_wal);
    assert!(c.kafka.enable_dlq);
    assert_eq!(c.kafka.num_publishers, 4);
    assert_eq!(c.replication.publication, "wal_writer_publication");
    assert_eq!(c.replication.batch_size, 5000);
    assert_eq!(c.logging.directory, "/var/log/wal-writer");
    assert_eq!(c.logging.level, "info");
    assert!(c.state.directory.is_none());
    assert_eq!(c.state.persist_interval_secs, 60);
    assert_eq!(c.pending_batch_queue_size, 4000);
}

#[test]
fn variables_override_defaults() {
    let c = AppConfig::from_vars(&vars(&[
        ("WAL_WRITER_PG_HOST", "db"),
        ("WAL_WRITER_PG_PORT", "6543"),
        ("WAL_WRITER_PG_SLOT_NAME", "my_slot"),
        ("WAL_WRITER_KAFKA_TOPIC_PREFIX", "app"),
        ("WAL_WRITER_KAFKA_COMPRESSION", "lz4"),
        ("WAL_WRITER_DEBUG_NO_KAFKA", "TRUE"),
        ("WAL_WRITER_ENABLE_DLQ", "no"),
        ("WAL_WRITER_NUM_PUBLISHERS", "+8"),
        ("WAL_WRITER_STATE_DIR", "/data"),
    ]));
    assert_eq!(c.pg.host, "db");
    assert_eq!(c.pg.port, 6543);
    assert_eq!(c.pg.slot_name(), "my_slot");
    assert_eq!(c.kafka.topic_prefix(), "app");
    assert_eq!(c.kafka.compression.as_deref(), Some("lz4"));
    assert!(c.kafka.debug_no_kafka);
    assert!(!c.kafka.enable_dlq);
    assert_eq!(c.kafka.num_publishers, 8);
    assert_eq!(c.state.directory.as_deref(), Some("/data"));
}

#[test]
fn unparsable_numbers_keep_their_default() {
    let c = AppConfig::from_vars(&vars(&[("WAL_WRITER_PG_PORT", "70000"), ("WAL_WRITER_KAFKA_LINGER_MS", "-1"), ("WAL_WRITER_REPLICATION_BATCH_SIZE", "")]));
    assert_eq!(c.pg.port, 5432);
    assert_eq!(c.kafka.linger_ms, 5);
    assert_eq!(c.replication.batch_size, 5000);
}

#[test]
fn first_variable_of_a_name_wins() {
    let c = AppConfig::from_vars(&vars(&[("WAL_WRITER_PG_HOST", "a"), ("WAL_WRITER_PG_HOST", "b")]));
    assert_eq!(c.pg.host, "a");
}

#[test]
fn connection_strings() {
    let c = AppConfig::from_vars(&vars(&[("WAL_WRITER_PG_PASSWORD", "pw"), ("WAL_WRITER_PG_DATABASE", "shop")]));
    assert_eq!(c.pg.connection_string(), "host=localhost port=5432 user=postgres password=pw dbname=shop");
    let ice = IcebergConfig::from_vars(&vars(&[("WAL_CONSUMER_PG_HOST", "catalog-db"), ("WAL_CONSUMER_PG_PORT", "5433")]));
    assert_eq!(ice.pg_connection_string(), "host=catalog-db port=5433 user=postgres password= dbname=postgres");
    assert_eq!(ice.polaris_endpoint, "http://polaris:8181");
    assert_eq!(ice.polaris_realm, "POLARIS");
    assert_eq!(ice.polaris_catalog, "quickstart_catalog");
}

#[test]
fn section_defaults() {
    let r = ReplicationConfig::default();
    assert_eq!(r.publication, "wal_writer_publication");
    assert_eq!(r.batch_size, 100);
    assert_eq!(r.poll_interval_ms, 10);
    let l = LoggingConfig::default();
    assert_eq!(l.directory, "/var/log/wal-writer");
    assert_eq!(l.level, "info");
    let s = StateConfig::default();
    assert!(s.directory.is_none());
    assert_eq!(s.persist_interval_secs, 60);
}

#[test]
fn slot_creation_statement() {
    assert_eq!(rust_wal_cake_writer::config::create_slot_statement("wal_writer_slot"), "CREATE_REPLICATION SLOT wal_writer_slot LOGICAL pgoutput");
}
