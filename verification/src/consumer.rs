//! The change-event consumer's settings and its flushing rule.
use vstd::prelude::*;
use rdkafka::config::ClientConfig;
use crate::kafka::{client_config_entries, client_config_new, client_config_set, no_entries};

verus! {

/// The broker settings of the consumer.
pub struct ConsumerKafkaConfig {
    pub brokers: String,
    pub group: String,
    pub channel_capacity: usize,
}

/// The consumer's settings: the broker, and the topics to read.
pub struct ConsumerConfig {
    pub kafka: ConsumerKafkaConfig,
    pub topics: Vec<String>,
}

/// The consumer group used when none is configured.
pub fn default_group() -> (r: String)
    ensures
        r@ == "wal-consumer"@,
{
    String::from_str("wal-consumer")
}

/// The capacity of each topic's channel when none is configured.
pub fn default_channel_capacity() -> (r: usize)
    ensures
        r == 1000,
{
    1000
}

/// A configuration the consumer cannot run with.
#[derive(Debug)]
pub enum ConsumerConfigError {
    /// No topic is configured.
    NoTopics,
}

impl ConsumerConfigError {
    /// The error message.
    pub fn message(&self) -> (r: String)
        ensures
            r@ == "No topics configured in config file"@,
    {
        String::from_str("No topics configured in config file")
    }
}

/// Accepts a configuration with at least one topic.
pub fn validate_config(config: ConsumerConfig) -> (r: Result<ConsumerConfig, ConsumerConfigError>)
    ensures
        config.topics@.len() == 0 ==> r is Err,
        config.topics@.len() > 0 ==> r == Ok::<ConsumerConfig, ConsumerConfigError>(config),
{
    if config.topics.len() == 0 {
        Err(ConsumerConfigError::NoTopics)
    } else {
        Ok(config)
    }
}

/// A table's buffer is flushed once it holds this many rows.
pub const FLUSH_BATCH_SIZE: usize = 100;

/// Buffers are flushed once this many nanoseconds passed since the last flush.
pub const FLUSH_INTERVAL_NS: u64 = 5_000_000_000;

/// Whether to flush after an event: its table holds `FLUSH_BATCH_SIZE` rows or
/// more, or more than five seconds passed since the last flush.
pub fn should_flush(table_rows: usize, since_last_flush_ns: u64) -> (r: bool)
    ensures
        r == (table_rows >= FLUSH_BATCH_SIZE || since_last_flush_ns > FLUSH_INTERVAL_NS),
{
    table_rows >= FLUSH_BATCH_SIZE || since_last_flush_ns > FLUSH_INTERVAL_NS
}

/// The parameters the consumer client is created with.
pub open spec fn consumer_entries(k: ConsumerKafkaConfig) -> Map<Seq<char>, Seq<char>> {
    no_entries()
        .insert("group.id"@, k.group@)
        .insert("bootstrap.servers"@, k.brokers@)
        .insert("auto.offset.reset"@, "earliest"@)
        .insert("enable.auto.commit"@, "false"@)
        .insert("enable.partition.eof"@, "false"@)
        .insert("session.timeout.ms"@, "30000"@)
        .insert("socket.keepalive.enable"@, "true"@)
        .insert("fetch.min.bytes"@, "1"@)
        .insert("fetch.wait.max.ms"@, "100"@)
}

/// The client configuration of the consumer: its group and brokers, reading
/// from the earliest offset, committing by hand, no end-of-partition events, a
/// 30 s session timeout, TCP keepalive, and fetches of any size waiting at most
/// 100 ms.
pub fn consumer_client_config(k: &ConsumerKafkaConfig) -> (c: ClientConfig)
    ensures
        client_config_entries(c) == consumer_entries(*k),
{
    let mut c = client_config_new();
    client_config_set(&mut c, "group.id", k.group.as_str());
    client_config_set(&mut c, "bootstrap.servers", k.brokers.as_str());
    client_config_set(&mut c, "auto.offset.reset", "earliest");
    client_config_set(&mut c, "enable.auto.commit", "false");
    client_config_set(&mut c, "enable.partition.eof", "false");
    client_config_set(&mut c, "session.timeout.ms", "30000");
    client_config_set(&mut c, "socket.keepalive.enable", "true");
    client_config_set(&mut c, "fetch.min.bytes", "1");
    client_config_set(&mut c, "fetch.wait.max.ms", "100");
    c
}

/// Law: the consumer client joins the configured group on the configured
/// brokers, reads from the earliest offset, commits by hand, gets no
/// end-of-partition events, has a 30 s session timeout and TCP keepalive, and
/// fetches from one byte on, waiting at most 100 ms.
pub proof fn lemma_consumer_settings(k: ConsumerKafkaConfig)
    ensures
        consumer_entries(k)["group.id"@] == k.group@,
        consumer_entries(k)["bootstrap.servers"@] == k.brokers@,
        consumer_entries(k)["auto.offset.reset"@] == "earliest"@,
        consumer_entries(k)["enable.auto.commit"@] == "false"@,
        consumer_entries(k)["enable.partition.eof"@] == "false"@,
        consumer_entries(k)["session.timeout.ms"@] == "30000"@,
        consumer_entries(k)["socket.keepalive.enable"@] == "true"@,
        consumer_entries(k)["fetch.min.bytes"@] == "1"@,
        consumer_entries(k)["fetch.wait.max.ms"@] == "100"@,
{
    reveal_strlit("group.id");
    reveal_strlit("bootstrap.servers");
    reveal_strlit("auto.offset.reset");
    reveal_strlit("enable.auto.commit");
    reveal_strlit("enable.partition.eof");
    reveal_strlit("session.timeout.ms");
    reveal_strlit("socket.keepalive.enable");
    reveal_strlit("fetch.min.bytes");
    reveal_strlit("fetch.wait.max.ms");
    assert("group.id"@.len() == 8 && "bootstrap.servers"@.len() == 17 && "auto.offset.reset"@.len() == 17 && "enable.auto.commit"@.len() == 18 && "enable.partition.eof"@.len() == 20 && "session.timeout.ms"@.len() == 18 && "socket.keepalive.enable"@.len() == 23 && "fetch.min.bytes"@.len() == 15 && "fetch.wait.max.ms"@.len() == 17);
    assert("bootstrap.servers"@[0] != "auto.offset.reset"@[0] && "bootstrap.servers"@[0] != "fetch.wait.max.ms"@[0]
        && "auto.offset.reset"@[0] != "fetch.wait.max.ms"@[0]);
    assert("enable.auto.commit"@[0] != "session.timeout.ms"@[0]);
}

} // verus!
