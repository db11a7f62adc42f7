//! Service configuration read from environment variables, with a default for
//! every setting.
//!
//! The environment is handed in as a list of `(name, value)` pairs; a setting
//! takes the first pair with its name. Numeric settings that are missing or do
//! not parse as a decimal number of their type keep their default; flags are on
//! exactly when their value is `true` in any letter case.
use vstd::prelude::*;
use crate::text::{
    decimal, eq_ignore_ascii_case, equals_ignore_ascii_case, parse_unsigned, parse_unsigned_text,
    push_decimal, str_equal,
};

verus! {

/// The value of the first variable named `name`.
pub open spec fn env_value(vars: Seq<(String, String)>, name: Seq<char>) -> Option<Seq<char>>
    decreases vars.len(),
{
    if vars.len() == 0 {
        None
    } else if vars[0].0@ == name {
        Some(vars[0].1@)
    } else {
        env_value(vars.drop_first(), name)
    }
}

/// A text setting: the variable's value, or `default`.
pub open spec fn text_setting(vars: Seq<(String, String)>, name: Seq<char>, default: Seq<char>) -> Seq<char> {
    match env_value(vars, name) {
        Some(v) => v,
        None => default,
    }
}

/// An optional text setting: the variable's value if it is set.
pub open spec fn optional_setting(vars: Seq<(String, String)>, name: Seq<char>) -> Option<Seq<char>> {
    env_value(vars, name)
}

/// A numeric setting of a type whose largest value is `max`: the variable's value
/// when it parses as a decimal number of that type, else `default`.
pub open spec fn number_setting(vars: Seq<(String, String)>, name: Seq<char>, default: nat, max: nat) -> nat {
    match env_value(vars, name) {
        Some(v) => match parse_unsigned(v, 10, max) {
            Some(x) => x,
            None => default,
        },
        None => default,
    }
}

/// A flag: whether the variable equals `true` up to ASCII case, `default` when
/// it is not set.
pub open spec fn flag_setting(vars: Seq<(String, String)>, name: Seq<char>, default: bool) -> bool {
    match env_value(vars, name) {
        Some(v) => eq_ignore_ascii_case(v, seq!['t', 'r', 'u', 'e']),
        None => default,
    }
}

/// Finds the value of the first variable named `name`.
pub fn lookup<'a>(vars: &'a Vec<(String, String)>, name: &str) -> (r: Option<&'a String>)
    ensures
        match env_value(vars@, name@) {
            Some(v) => r matches Some(s) && s@ == v,
            None => r is None,
        },
{
    let mut i: usize = 0;
    assert(vars@.skip(0) =~= vars@);
    while i < vars.len()
        invariant
            i <= vars@.len(),
            env_value(vars@, name@) == env_value(vars@.skip(i as int), name@),
        decreases vars@.len() - i,
    {
        assert(vars@.skip(i as int).drop_first() =~= vars@.skip(i + 1));
        if str_equal(vars[i].0.as_str(), name) {
            return Some(&vars[i].1);
        }
        i = i + 1;
    }
    None
}

/// A text setting.
pub fn text_or(vars: &Vec<(String, String)>, name: &str, default: &str) -> (r: String)
    ensures
        r@ == text_setting(vars@, name@, default@),
{
    match lookup(vars, name) {
        Some(v) => v.clone(),
        None => String::from_str(default),
    }
}

/// An optional text setting.
pub fn optional_text(vars: &Vec<(String, String)>, name: &str) -> (r: Option<String>)
    ensures
        match optional_setting(vars@, name@) {
            Some(v) => r matches Some(s) && s@ == v,
            None => r is None,
        },
{
    match lookup(vars, name) {
        Some(v) => Some(v.clone()),
        None => None,
    }
}

/// A numeric setting no larger than `max`.
pub fn number_or(vars: &Vec<(String, String)>, name: &str, default: u64, max: u64) -> (r: u64)
    requires
        default <= max,
    ensures
        r == number_setting(vars@, name@, default as nat, max as nat),
        r <= max,
{
    match lookup(vars, name) {
        Some(v) => match parse_unsigned_text(v.as_str(), 10, max) {
            Some(x) => x,
            None => default,
        },
        None => default,
    }
}

/// A flag setting.
pub fn flag_or(vars: &Vec<(String, String)>, name: &str, default: bool) -> (r: bool)
    ensures
        r == flag_setting(vars@, name@, default),
{
    match lookup(vars, name) {
        Some(v) => {
            proof {
                reveal_strlit("true");
            }
            equals_ignore_ascii_case(v.as_str(), "true")
        },
        None => default,
    }
}

/// The PostgreSQL connection string
/// `host=H port=P user=U password=W dbname=D`, the port in decimal.
pub open spec fn connection_text(
    host: Seq<char>,
    port: u16,
    user: Seq<char>,
    password: Seq<char>,
    database: Seq<char>,
) -> Seq<char> {
    "host="@ + host + " port="@ + decimal(port as nat) + " user="@ + user + " password="@ + password
        + " dbname="@ + database
}

fn connection_string_of(host: &String, port: u16, user: &String, password: &String, database: &String) -> (r: String)
    ensures
        r@ == connection_text(host@, port, user@, password@, database@),
{
    let mut s = String::from_str("host=");
    s.append(host.as_str());
    s.append(" port=");
    push_decimal(&mut s, port as u64);
    s.append(" user=");
    s.append(user.as_str());
    s.append(" password=");
    s.append(password.as_str());
    s.append(" dbname=");
    s.append(database.as_str());
    s
}

/// Where the PostgreSQL server is and who connects to it.
pub struct PostgresConfig {
    pub host: String,
    pub port: u16,
    pub user: String,
    pub password: String,
    pub database: String,
    pub slot_name: Option<String>,
}

impl PostgresConfig {
    /// The connection string for this server.
    pub fn connection_string(&self) -> (r: String)
        ensures
            r@ == connection_text(self.host@, self.port, self.user@, self.password@, self.database@),
    {
        connection_string_of(&self.host, self.port, &self.user, &self.password, &self.database)
    }

    /// The replication slot: the configured one, else `wal_writer_slot`.
    pub fn slot_name(&self) -> (r: &str)
        ensures
            r@ == match self.slot_name {
                Some(s) => s@,
                None => "wal_writer_slot"@,
            },
    {
        match &self.slot_name {
            Some(s) => s.as_str(),
            None => "wal_writer_slot",
        }
    }
}

/// The replication command that creates a logical slot named `slot_name` for
/// the pgoutput plugin.
pub open spec fn create_slot_text(slot_name: Seq<char>) -> Seq<char> {
    "CREATE_REPLICATION SLOT "@ + slot_name + " LOGICAL pgoutput"@
}

/// The replication command that creates a logical slot named `slot_name` for
/// the pgoutput plugin.
pub fn create_slot_statement(slot_name: &str) -> (r: String)
    ensures
        r@ == create_slot_text(slot_name@),
{
    let mut s = String::from_str("CREATE_REPLICATION SLOT ");
    s.append(slot_name);
    s.append(" LOGICAL pgoutput");
    s
}

/// The Kafka producer's settings.
pub struct KafkaConfig {
    pub brokers: String,
    pub topic_prefix: String,
    pub acks: String,
    pub linger_ms: u32,
    pub batch_size: u32,
    pub queue_buffering_max_ms: u32,
    pub compression: Option<String>,
    pub debug_no_kafka: bool,
    pub debug_print_wal: bool,
    pub publish_raw_wal: bool,
    pub max_publish_retries: u32,
    pub enable_dlq: bool,
    pub num_publishers: usize,
}

impl KafkaConfig {
    /// The prefix of every topic name.
    pub fn topic_prefix(&self) -> (r: &str)
        ensures
            r@ == self.topic_prefix@,
    {
        self.topic_prefix.as_str()
    }
}

/// What is replicated, and how records are batched.
pub struct ReplicationConfig {
    pub publication: String,
    pub wal_position: Option<String>,
    pub batch_size: u32,
    pub poll_interval_ms: u32,
}

impl Default for ReplicationConfig {
    fn default() -> (r: Self)
        ensures
            r.publication@ == "wal_writer_publication"@,
            r.wal_position is None,
            r.batch_size == 100,
            r.poll_interval_ms == 10,
    {
        ReplicationConfig {
            publication: String::from_str("wal_writer_publication"),
            wal_position: None,
            batch_size: 100,
            poll_interval_ms: 10,
        }
    }
}

/// Where logs go and how verbose they are.
pub struct LoggingConfig {
    pub directory: String,
    pub level: String,
}

impl Default for LoggingConfig {
    fn default() -> (r: Self)
        ensures
            r.directory@ == "/var/log/wal-writer"@,
            r.level@ == "info"@,
    {
        LoggingConfig { directory: String::from_str("/var/log/wal-writer"), level: String::from_str("info") }
    }
}

/// Where the replication position is persisted, and how often.
pub struct StateConfig {
    pub directory: Option<String>,
    pub persist_interval_secs: u64,
}

impl Default for StateConfig {
    fn default() -> (r: Self)
        ensures
            r.directory is None,
            r.persist_interval_secs == 60,
    {
        StateConfig { directory: None, persist_interval_secs: 60 }
    }
}

/// The Iceberg catalog and its PostgreSQL backend.
pub struct IcebergConfig {
    pub polaris_endpoint: String,
    pub polaris_realm: String,
    pub polaris_catalog: String,
    pub pg_host: String,
    pub pg_port: u16,
    pub pg_user: String,
    pub pg_password: String,
    pub pg_database: String,
}

/// The Iceberg settings `vars` give.
pub open spec fn iceberg_settings(vars: Seq<(String, String)>, c: IcebergConfig) -> bool {
    &&& c.polaris_endpoint@ == text_setting(vars, "WAL_CONSUMER_POLARIS_ENDPOINT"@, "http://polaris:8181"@)
    &&& c.polaris_realm@ == text_setting(vars, "WAL_CONSUMER_POLARIS_REALM"@, "POLARIS"@)
    &&& c.polaris_catalog@ == text_setting(vars, "WAL_CONSUMER_POLARIS_CATALOG"@, "quickstart_catalog"@)
    &&& c.pg_host@ == text_setting(vars, "WAL_CONSUMER_PG_HOST"@, "localhost"@)
    &&& c.pg_port == number_setting(vars, "WAL_CONSUMER_PG_PORT"@, 5432, u16::MAX as nat)
    &&& c.pg_user@ == text_setting(vars, "WAL_CONSUMER_PG_USER"@, "postgres"@)
    &&& c.pg_password@ == text_setting(vars, "WAL_CONSUMER_PG_PASSWORD"@, ""@)
    &&& c.pg_database@ == text_setting(vars, "WAL_CONSUMER_PG_DATABASE"@, "postgres"@)
}

impl IcebergConfig {
    /// The Iceberg settings from the `WAL_CONSUMER_*` variables.
    pub fn from_vars(vars: &Vec<(String, String)>) -> (c: Self)
        ensures
            iceberg_settings(vars@, c),
    {
        IcebergConfig {
            polaris_endpoint: text_or(vars, "WAL_CONSUMER_POLARIS_ENDPOINT", "http://polaris:8181"),
            polaris_realm: text_or(vars, "WAL_CONSUMER_POLARIS_REALM", "POLARIS"),
            polaris_catalog: text_or(vars, "WAL_CONSUMER_POLARIS_CATALOG", "quickstart_catalog"),
            pg_host: text_or(vars, "WAL_CONSUMER_PG_HOST", "localhost"),
            pg_port: number_or(vars, "WAL_CONSUMER_PG_PORT", 5432, 0xffff) as u16,
            pg_user: text_or(vars, "WAL_CONSUMER_PG_USER", "postgres"),
            pg_password: text_or(vars, "WAL_CONSUMER_PG_PASSWORD", ""),
            pg_database: text_or(vars, "WAL_CONSUMER_PG_DATABASE", "postgres"),
        }
    }

    /// The connection string of the catalog's PostgreSQL backend.
    pub fn pg_connection_string(&self) -> (r: String)
        ensures
            r@ == connection_text(self.pg_host@, self.pg_port, self.pg_user@, self.pg_password@, self.pg_database@),
    {
        connection_string_of(&self.pg_host, self.pg_port, &self.pg_user, &self.pg_password, &self.pg_database)
    }
}

/// Everything the WAL writer is configured with.
pub struct AppConfig {
    pub pg: PostgresConfig,
    pub kafka: KafkaConfig,
    pub replication: ReplicationConfig,
    pub logging: LoggingConfig,
    pub state: StateConfig,
    pub pending_batch_queue_size: usize,
    pub iceberg: Option<IcebergConfig>,
}

/// The PostgreSQL settings `vars` give.
pub open spec fn postgres_settings(vars: Seq<(String, String)>, c: PostgresConfig) -> bool {
    &&& c.host@ == text_setting(vars, "WAL_WRITER_PG_HOST"@, "localhost"@)
    &&& c.port == number_setting(vars, "WAL_WRITER_PG_PORT"@, 5432, u16::MAX as nat)
    &&& c.user@ == text_setting(vars, "WAL_WRITER_PG_USER"@, "postgres"@)
    &&& c.password@ == text_setting(vars, "WAL_WRITER_PG_PASSWORD"@, ""@)
    &&& c.database@ == text_setting(vars, "WAL_WRITER_PG_DATABASE"@, "postgres"@)
    &&& match optional_setting(vars, "WAL_WRITER_PG_SLOT_NAME"@) {
        Some(v) => c.slot_name matches Some(s) && s@ == v,
        None => c.slot_name is None,
    }
}

/// The Kafka settings `vars` give.
pub open spec fn kafka_settings(vars: Seq<(String, String)>, c: KafkaConfig) -> bool {
    &&& c.brokers@ == text_setting(vars, "WAL_WRITER_KAFKA_BROKERS"@, "localhost:9092"@)
    &&& c.topic_prefix@ == text_setting(vars, "WAL_WRITER_KAFKA_TOPIC_PREFIX"@, "cdc"@)
    &&& c.acks@ == text_setting(vars, "WAL_WRITER_KAFKA_ACKS"@, "all"@)
    &&& c.linger_ms == number_setting(vars, "WAL_WRITER_KAFKA_LINGER_MS"@, 5, u32::MAX as nat)
    &&& c.batch_size == number_setting(vars, "WAL_WRITER_KAFKA_BATCH_SIZE"@, 65536, u32::MAX as nat)
    &&& c.queue_buffering_max_ms == number_setting(
        vars,
        "WAL_WRITER_KAFKA_QUEUE_BUFFERING_MAX_MS"@,
        10,
        u32::MAX as nat,
    )
    &&& match optional_setting(vars, "WAL_WRITER_KAFKA_COMPRESSION"@) {
        Some(v) => c.compression matches Some(s) && s@ == v,
        None => c.compression is None,
    }
    &&& c.debug_no_kafka == flag_setting(vars, "WAL_WRITER_DEBUG_NO_KAFKA"@, false)
    &&& c.debug_print_wal == flag_setting(vars, "WAL_WRITER_DEBUG_PRINT_WAL"@, false)
    &&& c.publish_raw_wal == flag_setting(vars, "WAL_WRITER_PUBLISH_RAW_WAL"@, false)
    &&& c.max_publish_retries == number_setting(vars, "WAL_WRITER_MAX_PUBLISH_RETRIES"@, 5, u32::MAX as nat)
    &&& c.enable_dlq == flag_setting(vars, "WAL_WRITER_ENABLE_DLQ"@, true)
    &&& c.num_publishers == number_setting(vars, "WAL_WRITER_NUM_PUBLISHERS"@, 4, usize::MAX as nat)
}

/// The settings `vars` give for the whole service.
pub open spec fn app_settings(vars: Seq<(String, String)>, c: AppConfig) -> bool {
    &&& postgres_settings(vars, c.pg)
    &&& kafka_settings(vars, c.kafka)
    &&& c.replication.publication@ == text_setting(
        vars,
        "WAL_WRITER_PUBLICATION"@,
        "wal_writer_publication"@,
    )
    &&& c.replication.wal_position is None
    &&& c.replication.batch_size == number_setting(
        vars,
        "WAL_WRITER_REPLICATION_BATCH_SIZE"@,
        5000,
        u32::MAX as nat,
    )
    &&& c.replication.poll_interval_ms == number_setting(
        vars,
        "WAL_WRITER_REPLICATION_POLL_INTERVAL_MS"@,
        10,
        u32::MAX as nat,
    )
    &&& c.logging.directory@ == text_setting(vars, "WAL_WRITER_LOGGING_DIRECTORY"@, "/var/log/wal-writer"@)
    &&& c.logging.level@ == text_setting(vars, "WAL_WRITER_LOGGING_LEVEL"@, "info"@)
    &&& match optional_setting(vars, "WAL_WRITER_STATE_DIR"@) {
        Some(v) => c.state.directory matches Some(s) && s@ == v,
        None => c.state.directory is None,
    }
    &&& c.state.persist_interval_secs == number_setting(
        vars,
        "WAL_WRITER_STATE_PERSIST_INTERVAL_SECS"@,
        60,
        u64::MAX as nat,
    )
    &&& c.pending_batch_queue_size == number_setting(
        vars,
        "WAL_WRITER_PENDING_BATCH_QUEUE_SIZE"@,
        4000,
        usize::MAX as nat,
    )
    &&& c.iceberg matches Some(ice) && iceberg_settings(vars, ice)
}

impl AppConfig {
    /// The service configuration from the `WAL_WRITER_*` variables (and the
    /// `WAL_CONSUMER_*` ones for the Iceberg catalog).
    pub fn from_vars(vars: &Vec<(String, String)>) -> (c: Self)
        ensures
            app_settings(vars@, c),
    {
        let pg = PostgresConfig {
            host: text_or(vars, "WAL_WRITER_PG_HOST", "localhost"),
            port: number_or(vars, "WAL_WRITER_PG_PORT", 5432, 0xffff) as u16,
            user: text_or(vars, "WAL_WRITER_PG_USER", "postgres"),
            password: text_or(vars, "WAL_WRITER_PG_PASSWORD", ""),
            database: text_or(vars, "WAL_WRITER_PG_DATABASE", "postgres"),
            slot_name: optional_text(vars, "WAL_WRITER_PG_SLOT_NAME"),
        };
        let kafka = KafkaConfig {
            brokers: text_or(vars, "WAL_WRITER_KAFKA_BROKERS", "localhost:9092"),
            topic_prefix: text_or(vars, "WAL_WRITER_KAFKA_TOPIC_PREFIX", "cdc"),
            acks: text_or(vars, "WAL_WRITER_KAFKA_ACKS", "all"),
            linger_ms: number_or(vars, "WAL_WRITER_KAFKA_LINGER_MS", 5, 0xffff_ffff) as u32,
            batch_size: number_or(vars, "WAL_WRITER_KAFKA_BATCH_SIZE", 65536, 0xffff_ffff) as u32,
            queue_buffering_max_ms: number_or(vars, "WAL_WRITER_KAFKA_QUEUE_BUFFERING_MAX_MS", 10, 0xffff_ffff) as u32,
            compression: optional_text(vars, "WAL_WRITER_KAFKA_COMPRESSION"),
            debug_no_kafka: flag_or(vars, "WAL_WRITER_DEBUG_NO_KAFKA", false),
            debug_print_wal: flag_or(vars, "WAL_WRITER_DEBUG_PRINT_WAL", false),
            publish_raw_wal: flag_or(vars, "WAL_WRITER_PUBLISH_RAW_WAL", false),
            max_publish_retries: number_or(vars, "WAL_WRITER_MAX_PUBLISH_RETRIES", 5, 0xffff_ffff) as u32,
            enable_dlq: flag_or(vars, "WAL_WRITER_ENABLE_DLQ", true),
            num_publishers: number_or(vars, "WAL_WRITER_NUM_PUBLISHERS", 4, usize::MAX as u64) as usize,
        };
        let replication = ReplicationConfig {
            publication: text_or(vars, "WAL_WRITER_PUBLICATION", "wal_writer_publication"),
            wal_position: None,
            batch_size: number_or(vars, "WAL_WRITER_REPLICATION_BATCH_SIZE", 5000, 0xffff_ffff) as u32,
            poll_interval_ms: number_or(vars, "WAL_WRITER_REPLICATION_POLL_INTERVAL_MS", 10, 0xffff_ffff) as u32,
        };
        let logging = LoggingConfig {
            directory: text_or(vars, "WAL_WRITER_LOGGING_DIRECTORY", "/var/log/wal-writer"),
            level: text_or(vars, "WAL_WRITER_LOGGING_LEVEL", "info"),
        };
        let state = StateConfig {
            directory: optional_text(vars, "WAL_WRITER_STATE_DIR"),
            persist_interval_secs: number_or(vars, "WAL_WRITER_STATE_PERSIST_INTERVAL_SECS", 60, u64::MAX),
        };
        let pending_batch_queue_size = number_or(
            vars,
            "WAL_WRITER_PENDING_BATCH_QUEUE_SIZE",
            4000,
            usize::MAX as u64,
        ) as usize;
        AppConfig {
            pg,
            kafka,
            replication,
            logging,
            state,
            pending_batch_queue_size,
            iceberg: Some(IcebergConfig::from_vars(vars)),
        }
    }
}

/// Law: every setting of the service is read from its own variable: a text
/// setting is the variable's value, a number its value when it parses as a
/// decimal of the setting's type, a flag whether it equals `true` up to ASCII
/// case, an optional setting the value if the variable is set; a setting whose
/// variable is unset (or, for a number, does not parse) takes its default.
pub proof fn lemma_settings_from_their_variables(vars: Seq<(String, String)>, c: AppConfig)
    requires
        app_settings(vars, c),
    ensures
        match env_value(vars, "WAL_WRITER_PG_HOST"@) {
            Some(v) => c.pg.host@ == v,
            None => c.pg.host@ == "localhost"@,
        },
        match env_value(vars, "WAL_WRITER_PG_PORT"@) {
            Some(v) => c.pg.port == match parse_unsigned(v, 10, u16::MAX as nat) {
                Some(x) => x,
                None => 5432,
            },
            None => c.pg.port == 5432,
        },
        match env_value(vars, "WAL_WRITER_PG_USER"@) {
            Some(v) => c.pg.user@ == v,
            None => c.pg.user@ == "postgres"@,
        },
        match env_value(vars, "WAL_WRITER_PG_PASSWORD"@) {
            Some(v) => c.pg.password@ == v,
            None => c.pg.password@ == ""@,
        },
        match env_value(vars, "WAL_WRITER_PG_DATABASE"@) {
            Some(v) => c.pg.database@ == v,
            None => c.pg.database@ == "postgres"@,
        },
        match env_value(vars, "WAL_WRITER_PG_SLOT_NAME"@) {
            Some(v) => c.pg.slot_name matches Some(s) && s@ == v,
            None => c.pg.slot_name is None,
        },
        match env_value(vars, "WAL_WRITER_KAFKA_BROKERS"@) {
            Some(v) => c.kafka.brokers@ == v,
            None => c.kafka.brokers@ == "localhost:9092"@,
        },
        match env_value(vars, "WAL_WRITER_KAFKA_TOPIC_PREFIX"@) {
            Some(v) => c.kafka.topic_prefix@ == v,
            None => c.kafka.topic_prefix@ == "cdc"@,
        },
        match env_value(vars, "WAL_WRITER_KAFKA_ACKS"@) {
            Some(v) => c.kafka.acks@ == v,
            None => c.kafka.acks@ == "all"@,
        },
        match env_value(vars, "WAL_WRITER_KAFKA_LINGER_MS"@) {
            Some(v) => c.kafka.linger_ms == match parse_unsigned(v, 10, u32::MAX as nat) {
                Some(x) => x,
                None => 5,
            },
            None => c.kafka.linger_ms == 5,
        },
        match env_value(vars, "WAL_WRITER_KAFKA_BATCH_SIZE"@) {
            Some(v) => c.kafka.batch_size == match parse_unsigned(v, 10, u32::MAX as nat) {
                Some(x) => x,
                None => 65536,
            },
            None => c.kafka.batch_size == 65536,
        },
        match env_value(vars, "WAL_WRITER_KAFKA_QUEUE_BUFFERING_MAX_MS"@) {
            Some(v) => c.kafka.queue_buffering_max_ms == match parse_unsigned(v, 10, u32::MAX as nat) {
                Some(x) => x,
                None => 10,
            },
            None => c.kafka.queue_buffering_max_ms == 10,
        },
        match env_value(vars, "WAL_WRITER_KAFKA_COMPRESSION"@) {
            Some(v) => c.kafka.compression matches Some(s) && s@ == v,
            None => c.kafka.compression is None,
        },
        match env_value(vars, "WAL_WRITER_DEBUG_NO_KAFKA"@) {
            Some(v) => c.kafka.debug_no_kafka == eq_ignore_ascii_case(v, "true"@),
            None => c.kafka.debug_no_kafka == false,
        },
        match env_value(vars, "WAL_WRITER_DEBUG_PRINT_WAL"@) {
            Some(v) => c.kafka.debug_print_wal == eq_ignore_ascii_case(v, "true"@),
            None => c.kafka.debug_print_wal == false,
        },
        match env_value(vars, "WAL_WRITER_PUBLISH_RAW_WAL"@) {
            Some(v) => c.kafka.publish_raw_wal == eq_ignore_ascii_case(v, "true"@),
            None => c.kafka.publish_raw_wal == false,
        },
        match env_value(vars, "WAL_WRITER_MAX_PUBLISH_RETRIES"@) {
            Some(v) => c.kafka.max_publish_retries == match parse_unsigned(v, 10, u32::MAX as nat) {
                Some(x) => x,
                None => 5,
            },
            None => c.kafka.max_publish_retries == 5,
        },
        match env_value(vars, "WAL_WRITER_ENABLE_DLQ"@) {
            Some(v) => c.kafka.enable_dlq == eq_ignore_ascii_case(v, "true"@),
            None => c.kafka.enable_dlq == true,
        },
        match env_value(vars, "WAL_WRITER_NUM_PUBLISHERS"@) {
            Some(v) => c.kafka.num_publishers == match parse_unsigned(v, 10, usize::MAX as nat) {
                Some(x) => x,
                None => 4,
            },
            None => c.kafka.num_publishers == 4,
        },
        match env_value(vars, "WAL_WRITER_PUBLICATION"@) {
            Some(v) => c.replication.publication@ == v,
            None => c.replication.publication@ == "wal_writer_publication"@,
        },
        match env_value(vars, "WAL_WRITER_REPLICATION_BATCH_SIZE"@) {
            Some(v) => c.replication.batch_size == match parse_unsigned(v, 10, u32::MAX as nat) {
                Some(x) => x,
                None => 5000,
            },
            None => c.replication.batch_size == 5000,
        },
        match env_value(vars, "WAL_WRITER_REPLICATION_POLL_INTERVAL_MS"@) {
            Some(v) => c.replication.poll_interval_ms == match parse_unsigned(v, 10, u32::MAX as nat) {
                Some(x) => x,
                None => 10,
            },
            None => c.replication.poll_interval_ms == 10,
        },
        match env_value(vars, "WAL_WRITER_LOGGING_DIRECTORY"@) {
            Some(v) => c.logging.directory@ == v,
            None => c.logging.directory@ == "/var/log/wal-writer"@,
        },
        match env_value(vars, "WAL_WRITER_LOGGING_LEVEL"@) {
            Some(v) => c.logging.level@ == v,
            None => c.logging.level@ == "info"@,
        },
        match env_value(vars, "WAL_WRITER_STATE_DIR"@) {
            Some(v) => c.state.directory matches Some(s) && s@ == v,
            None => c.state.directory is None,
        },
        match env_value(vars, "WAL_WRITER_STATE_PERSIST_INTERVAL_SECS"@) {
            Some(v) => c.state.persist_interval_secs == match parse_unsigned(v, 10, u64::MAX as nat) {
                Some(x) => x,
                None => 60,
            },
            None => c.state.persist_interval_secs == 60,
        },
        match env_value(vars, "WAL_WRITER_PENDING_BATCH_QUEUE_SIZE"@) {
            Some(v) => c.pending_batch_queue_size == match parse_unsigned(v, 10, usize::MAX as nat) {
                Some(x) => x,
                None => 4000,
            },
            None => c.pending_batch_queue_size == 4000,
        },
{
    reveal_strlit("true");
}

/// Law: every catalog setting is read from its own `WAL_CONSUMER_*` variable,
/// with its default when the variable is unset (or, for the port, does not
/// parse).
pub proof fn lemma_catalog_settings_from_their_variables(vars: Seq<(String, String)>, c: IcebergConfig)
    requires
        iceberg_settings(vars, c),
    ensures
        match env_value(vars, "WAL_CONSUMER_POLARIS_ENDPOINT"@) {
            Some(v) => c.polaris_endpoint@ == v,
            None => c.polaris_endpoint@ == "http://polaris:8181"@,
        },
        match env_value(vars, "WAL_CONSUMER_POLARIS_REALM"@) {
            Some(v) => c.polaris_realm@ == v,
            None => c.polaris_realm@ == "POLARIS"@,
        },
        match env_value(vars, "WAL_CONSUMER_POLARIS_CATALOG"@) {
            Some(v) => c.polaris_catalog@ == v,
            None => c.polaris_catalog@ == "quickstart_catalog"@,
        },
        match env_value(vars, "WAL_CONSUMER_PG_HOST"@) {
            Some(v) => c.pg_host@ == v,
            None => c.pg_host@ == "localhost"@,
        },
        match env_value(vars, "WAL_CONSUMER_PG_PORT"@) {
            Some(v) => c.pg_port == match parse_unsigned(v, 10, u16::MAX as nat) {
                Some(x) => x,
                None => 5432,
            },
            None => c.pg_port == 5432,
        },
        match env_value(vars, "WAL_CONSUMER_PG_USER"@) {
            Some(v) => c.pg_user@ == v,
            None => c.pg_user@ == "postgres"@,
        },
        match env_value(vars, "WAL_CONSUMER_PG_PASSWORD"@) {
            Some(v) => c.pg_password@ == v,
            None => c.pg_password@ == ""@,
        },
        match env_value(vars, "WAL_CONSUMER_PG_DATABASE"@) {
            Some(v) => c.pg_database@ == v,
            None => c.pg_database@ == "postgres"@,
        },
{
}

/// Law: the connection string starts with `host=` and the host, and names
/// every other part of the connection after its keyword: `port=` (in decimal),
/// `user=`, `password=`, `dbname=`, each after a space.
pub proof fn lemma_connection_text_parts(host: Seq<char>, port: u16, user: Seq<char>, password: Seq<char>, database: Seq<char>)
    ensures
        connection_text(host, port, user, password, database).take((host.len() + 5) as int) == "host="@ + host,
        crate::text::contains_text(connection_text(host, port, user, password, database), " port="@ + decimal(port as nat)),
        crate::text::contains_text(connection_text(host, port, user, password, database), " user="@ + user),
        crate::text::contains_text(connection_text(host, port, user, password, database), " password="@ + password),
        crate::text::contains_text(connection_text(host, port, user, password, database), " dbname="@ + database),
{
    crate::text::lemma_contains_text_rules();
    reveal_strlit("host=");
    let t = connection_text(host, port, user, password, database);
    assert(t.take((host.len() + 5) as int) =~= "host="@ + host);
    assert(t =~= ("host="@ + host) + (" port="@ + decimal(port as nat)) + (" user="@ + user) + (" password="@
        + password) + (" dbname="@ + database));
}

} // verus!
