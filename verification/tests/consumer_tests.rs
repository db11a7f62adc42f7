use rust_wal_cake_writer::consumer::{
    consumer_client_config, default_channel_capacity, default_group, should_flush, validate_config, ConsumerConfig, ConsumerKafkaConfig,
};

fn config(topics: Vec<&str>) -> ConsumerConfig {
    ConsumerConfig {
        kafka: ConsumerKafkaConfig { brokers: "b:9092".to_string(), group: default_group(), channel_capacity: default_channel_capacity() },
        topics: topics.into_iter().map(String::from).collect(),
    }
}

#[test]
fn defaults() {
    assert_eq!(default_group(), "wal-consumer");
    assert_eq!(default_channel_capacity(), 1000);
}

#[test]
fn config_needs_a_topic() {
    let e = validate_config(config(vec![])).err().unwrap();
    assert_eq!(e.message(), "No topics configured in config file");
    let ok = validate_config(config(vec!["cdc.public.users"])).ok().unwrap();
    assert_eq!(ok.topics, vec!["cdc.public.users".to_string()]);
}

#[test]
fn flush_rule() {
    assert!(!should_flush(99, 5_000_000_000));
    assert!(should_flush(100, 0));
    assert!(should_flush(0, 5_000_000_001));
}

#[test]
fn consumer_client_settings() {
    let c = consumer_client_config(&config(vec!["t"]).kafka);
    assert_eq!(c.get("group.id"), Some("wal-consumer"));
    assert_eq!(c.get("bootstrap.servers"), Some("b:9092"));
    assert_eq!(c.get("auto.offset.reset"), Some("earliest"));
    assert_eq!(c.get("enable.auto.commit"), Some("false"));
    assert_eq!(c.get("enable.partition.eof"), Some("false"));
    assert_eq!(c.get("session.timeout.ms"), Some("30000"));
    assert_eq!(c.get("socket.keepalive.enable"), Some("true"));
    assert_eq!(c.get("fetch.min.bytes"), Some("1"));
    assert_eq!(c.get("fetch.wait.max.ms"), Some("100"));
}
