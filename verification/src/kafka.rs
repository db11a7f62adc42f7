//! The broker client settings of the record producer.
use vstd::prelude::*;
use rdkafka::config::ClientConfig;
use crate::config::KafkaConfig;
use crate::text::{decimal, push_decimal};

verus! {

#[verifier::external_type_specification]
#[verifier::external_body]
pub struct ExClientConfig(ClientConfig);

/// What a client configuration holds: its parameters, by name.
pub uninterp spec fn client_config_entries(c: ClientConfig) -> Map<Seq<char>, Seq<char>>;

/// A configuration with no parameter.
pub open spec fn no_entries() -> Map<Seq<char>, Seq<char>> {
    Map::empty()
}

/// `ClientConfig::new`: a configuration with no parameter set. (Its log level,
/// which it takes from the global logger, is not a parameter.)
#[verifier::external_body]
pub(crate) fn client_config_new() -> (c: ClientConfig)
    ensures
        client_config_entries(c) == no_entries(),
{
    ClientConfig::new()
}

/// `ClientConfig::set`: sets parameter `key` to `value`, replacing an earlier
/// value of `key`, and leaves the other parameters as they were.
#[verifier::external_body]
pub(crate) fn client_config_set(c: &mut ClientConfig, key: &str, value: &str)
    ensures
        client_config_entries(*final(c)) == client_config_entries(*old(c)).insert(key@, value@),
{
    c.set(key, value);
}

/// The parameters the producer client is created with.
pub open spec fn producer_entries(k: KafkaConfig) -> Map<Seq<char>, Seq<char>> {
    let base = no_entries()
        .insert("bootstrap.servers"@, k.brokers@)
        .insert("acks"@, k.acks@)
        .insert("linger.ms"@, decimal(k.linger_ms as nat))
        .insert("batch.size"@, decimal(k.batch_size as nat))
        .insert("queue.buffering.max.ms"@, "0"@)
        .insert("api.version.request"@, "true"@)
        .insert("socket.timeout.ms"@, "30000"@);
    match k.compression {
        Some(c) => base.insert("compression.type"@, c@),
        None => base,
    }
}

fn decimal_string(n: u64) -> (r: String)
    ensures
        r@ == decimal(n as nat),
{
    let mut s = String::new();
    push_decimal(&mut s, n);
    s
}

/// The client configuration of the record producer: brokers, acknowledgement
/// mode, linger time and batch size from the settings, no extra queue
/// buffering, broker version probing on, a 30 s socket timeout, and the
/// compression codec where one is set.
pub fn producer_client_config(k: &KafkaConfig) -> (c: ClientConfig)
    ensures
        client_config_entries(c) == producer_entries(*k),
{
    let mut c = client_config_new();
    client_config_set(&mut c, "bootstrap.servers", k.brokers.as_str());
    client_config_set(&mut c, "acks", k.acks.as_str());
    let linger = decimal_string(k.linger_ms as u64);
    client_config_set(&mut c, "linger.ms", linger.as_str());
    let batch = decimal_string(k.batch_size as u64);
    client_config_set(&mut c, "batch.size", batch.as_str());
    client_config_set(&mut c, "queue.buffering.max.ms", "0");
    client_config_set(&mut c, "api.version.request", "true");
    client_config_set(&mut c, "socket.timeout.ms", "30000");
    match &k.compression {
        Some(codec) => {
            client_config_set(&mut c, "compression.type", codec.as_str());
        },
        None => {},
    }
    c
}

/// Law: the producer is configured with the brokers, acknowledgement level,
/// linger time and batch size of the settings, no extra buffering delay, API
/// version requests, a 30 s socket timeout, and the compression type exactly
/// when one is set.
pub proof fn lemma_producer_settings(k: KafkaConfig)
    ensures
        producer_entries(k)["bootstrap.servers"@] == k.brokers@,
        producer_entries(k)["acks"@] == k.acks@,
        producer_entries(k)["linger.ms"@] == decimal(k.linger_ms as nat),
        producer_entries(k)["batch.size"@] == decimal(k.batch_size as nat),
        producer_entries(k)["queue.buffering.max.ms"@] == "0"@,
        producer_entries(k)["api.version.request"@] == "true"@,
        producer_entries(k)["socket.timeout.ms"@] == "30000"@,
        producer_entries(k).contains_key("compression.type"@) == k.compression is Some,
        k.compression matches Some(c) ==> producer_entries(k)["compression.type"@] == c@,
{
    reveal_strlit("bootstrap.servers");
    reveal_strlit("acks");
    reveal_strlit("linger.ms");
    reveal_strlit("batch.size");
    reveal_strlit("queue.buffering.max.ms");
    reveal_strlit("api.version.request");
    reveal_strlit("socket.timeout.ms");
    reveal_strlit("compression.type");
    assert("bootstrap.servers"@.len() == 17 && "acks"@.len() == 4 && "linger.ms"@.len() == 9);
    assert("batch.size"@.len() == 10 && "queue.buffering.max.ms"@.len() == 22);
    assert("api.version.request"@.len() == 19 && "socket.timeout.ms"@.len() == 17 && "compression.type"@.len() == 16);
    assert("bootstrap.servers"@[0] != "socket.timeout.ms"@[0]);
}

} // verus!
