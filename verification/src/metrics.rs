//! Counters and gauges of the WAL writer, and their Prometheus text rendering.
use vstd::prelude::*;
use crate::text::{contains_text, decimal, lemma_contains_text_rules, push_decimal, str_equal};
use crate::wal_parser::Operation;

verus! {

/// `x + y` modulo 2^64, as an atomic counter adds.
pub open spec fn wrapped_sum(x: u64, y: u64) -> u64 {
    if x + y > u64::MAX {
        (x + y - 0x1_0000_0000_0000_0000) as u64
    } else {
        (x + y) as u64
    }
}

/// The latency buckets after one observation in bucket `bucket` (none where
/// it exceeds the largest bound).
pub open spec fn observed_buckets(buckets: Seq<u64>, bucket: Option<usize>) -> Seq<u64> {
    match bucket {
        Some(i) => buckets.update(i as int, wrapped_sum(buckets[i as int], 1)),
        None => buckets,
    }
}

/// The number of latency buckets of the publish-duration histogram.
pub const PUBLISH_DURATION_BUCKET_COUNT: usize = 11;

/// Process counters and gauges. Counters wrap around at 2^64.
pub struct Metrics {
    pub ready: bool,
    pub replication_connected: bool,
    pub wal_bytes_received: u64,
    pub wal_records_parsed: u64,
    pub batches_sent: u64,
    pub parsing_errors: u64,
    pub kafka_messages_sent: u64,
    pub kafka_send_errors: u64,
    pub publish_failures: u64,
    pub publish_duration_count: u64,
    pub publish_duration_sum_ns: u64,
    /// Observations per latency bucket, each counted in the smallest bucket
    /// whose bound it does not exceed.
    pub publish_duration_buckets: Vec<u64>,
    pub published_records_insert: u64,
    pub published_records_update: u64,
    pub published_records_delete: u64,
    pub published_records_truncate: u64,
    pub wal_messages_xlogdata: u64,
    pub wal_messages_begin: u64,
    pub wal_messages_commit: u64,
    pub wal_messages_keepalive: u64,
    pub wal_messages_message: u64,
    pub wal_messages_stopped: u64,
    pub last_receive_lsn: u64,
    pub last_process_lsn: u64,
    pub last_acked_lsn: u64,
    pub last_lsn: u64,
    pub replication_loop_exits: u64,
    pub process_wal_errors: u64,
}

/// The metrics as a process starts: ready, not connected, everything zero.
pub open spec fn fresh_metrics(m: Metrics) -> bool {
    &&& m.ready
    &&& !m.replication_connected
    &&& m.wal_bytes_received == 0
    &&& m.wal_records_parsed == 0
    &&& m.batches_sent == 0
    &&& m.parsing_errors == 0
    &&& m.kafka_messages_sent == 0
    &&& m.kafka_send_errors == 0
    &&& m.publish_failures == 0
    &&& m.publish_duration_count == 0
    &&& m.publish_duration_sum_ns == 0
    &&& m.publish_duration_buckets@ == Seq::new(11, |i: int| 0u64)
    &&& m.published_records_insert == 0
    &&& m.published_records_update == 0
    &&& m.published_records_delete == 0
    &&& m.published_records_truncate == 0
    &&& m.wal_messages_xlogdata == 0
    &&& m.wal_messages_begin == 0
    &&& m.wal_messages_commit == 0
    &&& m.wal_messages_keepalive == 0
    &&& m.wal_messages_message == 0
    &&& m.wal_messages_stopped == 0
    &&& m.last_receive_lsn == 0
    &&& m.last_process_lsn == 0
    &&& m.last_acked_lsn == 0
    &&& m.last_lsn == 0
    &&& m.replication_loop_exits == 0
    &&& m.process_wal_errors == 0
}

/// The metrics after one replication message of type `t` was counted.
pub open spec fn after_wal_message(m: Metrics, t: Seq<char>) -> Metrics {
    if t == "xlogdata"@ {
        Metrics { wal_messages_xlogdata: wrapped_sum(m.wal_messages_xlogdata, 1), ..m }
    } else if t == "begin"@ {
        Metrics { wal_messages_begin: wrapped_sum(m.wal_messages_begin, 1), ..m }
    } else if t == "commit"@ {
        Metrics { wal_messages_commit: wrapped_sum(m.wal_messages_commit, 1), ..m }
    } else if t == "keepalive"@ {
        Metrics { wal_messages_keepalive: wrapped_sum(m.wal_messages_keepalive, 1), ..m }
    } else if t == "message"@ {
        Metrics { wal_messages_message: wrapped_sum(m.wal_messages_message, 1), ..m }
    } else if t == "stopped"@ {
        Metrics { wal_messages_stopped: wrapped_sum(m.wal_messages_stopped, 1), ..m }
    } else {
        m
    }
}

/// The metrics after one published record of operation `op` was counted.
pub open spec fn after_published_record(m: Metrics, op: Operation) -> Metrics {
    match op {
        Operation::Insert => Metrics { published_records_insert: wrapped_sum(m.published_records_insert, 1), ..m },
        Operation::Update => Metrics { published_records_update: wrapped_sum(m.published_records_update, 1), ..m },
        Operation::Delete => Metrics { published_records_delete: wrapped_sum(m.published_records_delete, 1), ..m },
        Operation::Truncate => Metrics { published_records_truncate: wrapped_sum(m.published_records_truncate, 1), ..m },
    }
}

impl Metrics {
    /// The histogram has its eleven buckets.
    pub open spec fn has_histogram(&self) -> bool {
        self.publish_duration_buckets@.len() == PUBLISH_DURATION_BUCKET_COUNT
    }

    /// The histogram has its eleven buckets, which together hold no more
    /// observations than the count.
    pub open spec fn wf(&self) -> bool {
        &&& self.has_histogram()
        &&& bucket_total(self.publish_duration_buckets@, PUBLISH_DURATION_BUCKET_COUNT as int)
            <= self.publish_duration_count
    }

    /// Fresh metrics: ready, not connected, every counter and gauge zero.
    pub fn new() -> (m: Self)
        ensures
            m.wf(),
            fresh_metrics(m),
    {
        let mut buckets: Vec<u64> = Vec::new();
        let mut i: usize = 0;
        while i < PUBLISH_DURATION_BUCKET_COUNT
            invariant
                i <= PUBLISH_DURATION_BUCKET_COUNT,
                buckets@ == Seq::new(i as nat, |k: int| 0u64),
            decreases PUBLISH_DURATION_BUCKET_COUNT - i,
        {
            buckets.push(0);
            i = i + 1;
            assert(buckets@ =~= Seq::new(i as nat, |k: int| 0u64));
        }
        proof {
            lemma_bucket_total_zero(buckets@, PUBLISH_DURATION_BUCKET_COUNT as int);
        }
        Metrics {
            ready: true,
            replication_connected: false,
            wal_bytes_received: 0,
            wal_records_parsed: 0,
            batches_sent: 0,
            parsing_errors: 0,
            kafka_messages_sent: 0,
            kafka_send_errors: 0,
            publish_failures: 0,
            publish_duration_count: 0,
            publish_duration_sum_ns: 0,
            publish_duration_buckets: buckets,
            published_records_insert: 0,
            published_records_update: 0,
            published_records_delete: 0,
            published_records_truncate: 0,
            wal_messages_xlogdata: 0,
            wal_messages_begin: 0,
            wal_messages_commit: 0,
            wal_messages_keepalive: 0,
            wal_messages_message: 0,
            wal_messages_stopped: 0,
            last_receive_lsn: 0,
            last_process_lsn: 0,
            last_acked_lsn: 0,
            last_lsn: 0,
            replication_loop_exits: 0,
            process_wal_errors: 0,
        }
    }

    /// Counts `val` more received WAL bytes.
    pub fn inc_by(&mut self, val: u64)
        ensures
            *final(self) == (Metrics { wal_bytes_received: wrapped_sum(old(self).wal_bytes_received, val), ..*old(self) }),
    {
        self.wal_bytes_received = self.wal_bytes_received.wrapping_add(val);
    }

    /// Received WAL bytes so far.
    pub fn wal_bytes_received(&self) -> (r: u64)
        ensures
            r == self.wal_bytes_received,
    {
        self.wal_bytes_received
    }

    /// Records parsed so far.
    pub fn wal_records_parsed(&self) -> (r: u64)
        ensures
            r == self.wal_records_parsed,
    {
        self.wal_records_parsed
    }

    /// Counts `val` more parsed records.
    pub fn wal_records_parsed_inc(&mut self, val: u64)
        ensures
            *final(self) == (Metrics { wal_records_parsed: wrapped_sum(old(self).wal_records_parsed, val), ..*old(self) }),
    {
        self.wal_records_parsed = self.wal_records_parsed.wrapping_add(val);
    }

    /// Batches sent so far.
    pub fn batches_sent(&self) -> (r: u64)
        ensures
            r == self.batches_sent,
    {
        self.batches_sent
    }

    /// Counts one more sent batch.
    pub fn batches_sent_inc(&mut self)
        ensures
            *final(self) == (Metrics { batches_sent: wrapped_sum(old(self).batches_sent, 1), ..*old(self) }),
    {
        self.batches_sent = self.batches_sent.wrapping_add(1);
    }

    /// Parsing errors so far.
    pub fn parsing_errors(&self) -> (r: u64)
        ensures
            r == self.parsing_errors,
    {
        self.parsing_errors
    }

    /// Counts one more parsing error.
    pub fn parsing_errors_inc(&mut self)
        ensures
            *final(self) == (Metrics { parsing_errors: wrapped_sum(old(self).parsing_errors, 1), ..*old(self) }),
    {
        self.parsing_errors = self.parsing_errors.wrapping_add(1);
    }

    /// Messages sent to the broker so far.
    pub fn kafka_messages_sent(&self) -> (r: u64)
        ensures
            r == self.kafka_messages_sent,
    {
        self.kafka_messages_sent
    }

    /// Counts one more message sent to the broker.
    pub fn kafka_messages_sent_inc(&mut self)
        ensures
            *final(self) == (Metrics { kafka_messages_sent: wrapped_sum(old(self).kafka_messages_sent, 1), ..*old(self) }),
    {
        self.kafka_messages_sent = self.kafka_messages_sent.wrapping_add(1);
    }

    /// Broker send errors so far.
    pub fn kafka_send_errors(&self) -> (r: u64)
        ensures
            r == self.kafka_send_errors,
    {
        self.kafka_send_errors
    }

    /// Counts one more broker send error.
    pub fn kafka_send_errors_inc(&mut self)
        ensures
            *final(self) == (Metrics { kafka_send_errors: wrapped_sum(old(self).kafka_send_errors, 1), ..*old(self) }),
    {
        self.kafka_send_errors = self.kafka_send_errors.wrapping_add(1);
    }

    /// The last LSN recorded with `set_last_lsn`.
    pub fn last_lsn(&self) -> (r: u64)
        ensures
            r == self.last_lsn,
    {
        self.last_lsn
    }

    /// Records the last LSN.
    pub fn set_last_lsn(&mut self, lsn: u64)
        ensures
            *final(self) == (Metrics { last_lsn: lsn, ..*old(self) }),
    {
        self.last_lsn = lsn;
    }

    /// Records whether the replication client is connected.
    pub fn set_replication_connected(&mut self, connected: bool)
        ensures
            *final(self) == (Metrics { replication_connected: connected, ..*old(self) }),
    {
        self.replication_connected = connected;
    }

    /// Counts one more publish failure.
    pub fn publish_failure_inc(&mut self)
        ensures
            *final(self) == (Metrics { publish_failures: wrapped_sum(old(self).publish_failures, 1), ..*old(self) }),
    {
        self.publish_failures = self.publish_failures.wrapping_add(1);
    }

    /// Records one publish that took `nanos` nanoseconds and falls into latency
    /// bucket `bucket` (none where it exceeds the largest bound).
    pub fn observe_publish_duration(&mut self, nanos: u64, bucket: Option<usize>)
        requires
            old(self).has_histogram(),
            bucket matches Some(i) ==> i < PUBLISH_DURATION_BUCKET_COUNT,
        ensures
            final(self).has_histogram(),
            old(self).wf() && old(self).publish_duration_count < u64::MAX ==> final(self).wf(),
            final(self).publish_duration_sum_ns == wrapped_sum(old(self).publish_duration_sum_ns, nanos),
            final(self).publish_duration_count == wrapped_sum(old(self).publish_duration_count, 1),
            final(self).publish_duration_buckets@ == observed_buckets(old(self).publish_duration_buckets@, bucket),
            *final(self) == (Metrics {
                publish_duration_sum_ns: final(self).publish_duration_sum_ns,
                publish_duration_count: final(self).publish_duration_count,
                publish_duration_buckets: final(self).publish_duration_buckets,
                ..*old(self)
            }),
    {
        self.publish_duration_sum_ns = self.publish_duration_sum_ns.wrapping_add(nanos);
        self.publish_duration_count = self.publish_duration_count.wrapping_add(1);
        if let Some(i) = bucket {
            let v = self.publish_duration_buckets[i].wrapping_add(1);
            self.publish_duration_buckets.set(i, v);
        }
        proof {
            if old(self).wf() && old(self).publish_duration_count < u64::MAX {
                lemma_observation_keeps_buckets_within_count(
                old(self).publish_duration_buckets@,
                old(self).publish_duration_count,
                    bucket,
                );
            }
        }
    }

    /// Counts one more published record of operation `operation`.
    pub fn published_record_inc(&mut self, operation: Operation)
        ensures
            *final(self) == after_published_record(*old(self), operation),
    {
        match operation {
            Operation::Insert => {
                self.published_records_insert = self.published_records_insert.wrapping_add(1);
            },
            Operation::Update => {
                self.published_records_update = self.published_records_update.wrapping_add(1);
            },
            Operation::Delete => {
                self.published_records_delete = self.published_records_delete.wrapping_add(1);
            },
            Operation::Truncate => {
                self.published_records_truncate = self.published_records_truncate.wrapping_add(1);
            },
        }
    }

    /// Counts one replication message of type `message_type`; types without a
    /// counter of their own are ignored.
    pub fn inc_wal_message(&mut self, message_type: &str)
        ensures
            *final(self) == after_wal_message(*old(self), message_type@),
    {
        if str_equal(message_type, "xlogdata") {
            self.wal_messages_xlogdata = self.wal_messages_xlogdata.wrapping_add(1);
        } else if str_equal(message_type, "begin") {
            self.wal_messages_begin = self.wal_messages_begin.wrapping_add(1);
        } else if str_equal(message_type, "commit") {
            self.wal_messages_commit = self.wal_messages_commit.wrapping_add(1);
        } else if str_equal(message_type, "keepalive") {
            self.wal_messages_keepalive = self.wal_messages_keepalive.wrapping_add(1);
        } else if str_equal(message_type, "message") {
            self.wal_messages_message = self.wal_messages_message.wrapping_add(1);
        } else if str_equal(message_type, "stopped") {
            self.wal_messages_stopped = self.wal_messages_stopped.wrapping_add(1);
        }
    }

    /// Records the end LSN of the last received WAL message.
    pub fn set_last_receive_lsn(&mut self, lsn: u64)
        ensures
            *final(self) == (Metrics { last_receive_lsn: lsn, ..*old(self) }),
    {
        self.last_receive_lsn = lsn;
    }

    /// Records the LSN of the last processed record.
    pub fn set_last_process_lsn(&mut self, lsn: u64)
        ensures
            *final(self) == (Metrics { last_process_lsn: lsn, ..*old(self) }),
    {
        self.last_process_lsn = lsn;
    }

    /// Records the last position acknowledged to the server.
    pub fn set_last_acked_lsn(&mut self, lsn: u64)
        ensures
            *final(self) == (Metrics { last_acked_lsn: lsn, ..*old(self) }),
    {
        self.last_acked_lsn = lsn;
    }

    /// Counts one more exit of the replication loop.
    pub fn inc_replication_loop_exits(&mut self)
        ensures
            *final(self) == (Metrics { replication_loop_exits: wrapped_sum(old(self).replication_loop_exits, 1), ..*old(self) }),
    {
        self.replication_loop_exits = self.replication_loop_exits.wrapping_add(1);
    }

    /// Counts one more WAL processing error.
    pub fn process_wal_errors_inc(&mut self)
        ensures
            *final(self) == (Metrics { process_wal_errors: wrapped_sum(old(self).process_wal_errors, 1), ..*old(self) }),
    {
        self.process_wal_errors = self.process_wal_errors.wrapping_add(1);
    }
}

impl Default for Metrics {
    fn default() -> (m: Self)
        ensures
            m.wf(),
            fresh_metrics(m),
    {
        Metrics::new()
    }
}

/// Per-table operation counters.
pub struct TableMetrics {
    pub insert_count: u64,
    pub update_count: u64,
    pub delete_count: u64,
    pub lag_ms: u64,
}

impl TableMetrics {
    /// All counters zero.
    pub fn new() -> (t: Self)
        ensures
            t.insert_count == 0,
            t.update_count == 0,
            t.delete_count == 0,
            t.lag_ms == 0,
    {
        TableMetrics { insert_count: 0, update_count: 0, delete_count: 0, lag_ms: 0 }
    }

    /// Counts one more insert.
    pub fn insert_inc(&mut self)
        ensures
            *final(self) == (TableMetrics { insert_count: wrapped_sum(old(self).insert_count, 1), ..*old(self) }),
    {
        self.insert_count = self.insert_count.wrapping_add(1);
    }

    /// Counts one more update.
    pub fn update_inc(&mut self)
        ensures
            *final(self) == (TableMetrics { update_count: wrapped_sum(old(self).update_count, 1), ..*old(self) }),
    {
        self.update_count = self.update_count.wrapping_add(1);
    }

    /// Counts one more delete.
    pub fn delete_inc(&mut self)
        ensures
            *final(self) == (TableMetrics { delete_count: wrapped_sum(old(self).delete_count, 1), ..*old(self) }),
    {
        self.delete_count = self.delete_count.wrapping_add(1);
    }
}

/// `text` followed by a line break.
pub open spec fn text_line(text: Seq<char>) -> Seq<char> {
    text + "\n"@
}

/// A sample line: the metric name with its labels and a space, then the value.
pub open spec fn sample_line(name: Seq<char>, value: nat) -> Seq<char> {
    name + decimal(value) + "\n"@
}

/// A metric family with one sample: its HELP line, its TYPE line, the sample.
pub open spec fn family(help: Seq<char>, kind: Seq<char>, name: Seq<char>, value: nat) -> Seq<char> {
    text_line(help) + text_line(kind) + sample_line(name, value)
}

/// The number a gauge of a flag shows.
pub open spec fn flag_value(b: bool) -> nat {
    if b { 1 } else { 0 }
}

/// The upper bound of latency bucket `k`, in seconds, as the exposition shows it.
pub open spec fn bucket_bound(k: int) -> Seq<char> {
    if k == 0 { "0.001"@ }
    else if k == 1 { "0.005"@ }
    else if k == 2 { "0.01"@ }
    else if k == 3 { "0.05"@ }
    else if k == 4 { "0.1"@ }
    else if k == 5 { "0.2"@ }
    else if k == 6 { "0.5"@ }
    else if k == 7 { "1"@ }
    else if k == 8 { "2.5"@ }
    else if k == 9 { "5"@ }
    else { "10"@ }
}

/// The observations in the first `k` buckets, summed modulo 2^64.
pub open spec fn cumulative(buckets: Seq<u64>, k: int) -> u64
    decreases k,
{
    if k <= 0 { 0 } else { wrapped_sum(cumulative(buckets, k - 1), buckets[k - 1]) }
}

/// The cumulative bucket lines of the first `k` latency buckets.
pub open spec fn bucket_lines(buckets: Seq<u64>, k: int) -> Seq<char>
    decreases k,
{
    if k <= 0 {
        Seq::empty()
    } else {
        bucket_lines(buckets, k - 1) + "wal_writer_publish_duration_seconds_bucket{le=\""@
            + bucket_bound(k - 1) + "\"} "@ + decimal(cumulative(buckets, k) as nat) + "\n"@
    }
}

/// The publish-duration histogram family; `sum_seconds` is the rendered sum of
/// all observed durations in seconds.
pub open spec fn histogram_text(m: Metrics, sum_seconds: Seq<char>) -> Seq<char> {
    text_line("# HELP wal_writer_publish_duration_seconds Publish duration histogram"@)
        + text_line("# TYPE wal_writer_publish_duration_seconds histogram"@)
        + bucket_lines(m.publish_duration_buckets@, 11)
        + sample_line("wal_writer_publish_duration_seconds_bucket{le=\"+Inf\"} "@, m.publish_duration_count as nat)
        + "wal_writer_publish_duration_seconds_sum "@ + sum_seconds + "\n"@
        + sample_line("wal_writer_publish_duration_seconds_count "@, m.publish_duration_count as nat)
}

/// The published-records family, one sample per operation.
pub open spec fn published_records_text(m: Metrics) -> Seq<char> {
    text_line("# HELP wal_writer_published_records_total Published CDC records by operation"@)
        + text_line("# TYPE wal_writer_published_records_total counter"@)
        + sample_line("wal_writer_published_records_total{operation=\"insert\"} "@, m.published_records_insert as nat)
        + sample_line("wal_writer_published_records_total{operation=\"update\"} "@, m.published_records_update as nat)
        + sample_line("wal_writer_published_records_total{operation=\"delete\"} "@, m.published_records_delete as nat)
        + sample_line("wal_writer_published_records_total{operation=\"truncate\"} "@, m.published_records_truncate as nat)
}

/// The replication-message family, one sample per counted message type.
pub open spec fn wal_messages_text(m: Metrics) -> Seq<char> {
    text_line("# HELP wal_writer_wal_messages_total Replication event counts by type"@)
        + text_line("# TYPE wal_writer_wal_messages_total counter"@)
        + sample_line("wal_writer_wal_messages_total{type=\"xlogdata\"} "@, m.wal_messages_xlogdata as nat)
        + sample_line("wal_writer_wal_messages_total{type=\"begin\"} "@, m.wal_messages_begin as nat)
        + sample_line("wal_writer_wal_messages_total{type=\"commit\"} "@, m.wal_messages_commit as nat)
        + sample_line("wal_writer_wal_messages_total{type=\"keepalive\"} "@, m.wal_messages_keepalive as nat)
        + sample_line("wal_writer_wal_messages_total{type=\"message\"} "@, m.wal_messages_message as nat)
        + sample_line("wal_writer_wal_messages_total{type=\"stopped\"} "@, m.wal_messages_stopped as nat)
}

/// The whole Prometheus exposition of the metrics; `sum_seconds` is the
/// rendered sum of the observed publish durations in seconds.
pub open spec fn prometheus_text(m: Metrics, sum_seconds: Seq<char>) -> Seq<char> {
    family(
        "# HELP wal_writer_ready WAL writer process readiness"@,
        "# TYPE wal_writer_ready gauge"@,
        "wal_writer_ready "@,
        flag_value(m.ready),
    ) + family(
        "# HELP wal_writer_replication_connected Replication client connectivity status"@,
        "# TYPE wal_writer_replication_connected gauge"@,
        "wal_writer_replication_connected "@,
        flag_value(m.replication_connected),
    ) + published_records_text(m) + family(
        "# HELP wal_writer_publish_failures_total Kafka publish failures"@,
        "# TYPE wal_writer_publish_failures_total counter"@,
        "wal_writer_publish_failures_total "@,
        m.publish_failures as nat,
    ) + family(
        "# HELP wal_writer_kafka_messages_sent_total Kafka messages successfully sent"@,
        "# TYPE wal_writer_kafka_messages_sent_total counter"@,
        "wal_writer_kafka_messages_sent_total "@,
        m.kafka_messages_sent as nat,
    ) + family(
        "# HELP wal_writer_kafka_send_errors_total Kafka send error count"@,
        "# TYPE wal_writer_kafka_send_errors_total counter"@,
        "wal_writer_kafka_send_errors_total "@,
        m.kafka_send_errors as nat,
    ) + histogram_text(m, sum_seconds) + wal_messages_text(m) + family(
        "# HELP wal_writer_last_receive_lsn Last received WAL end LSN"@,
        "# TYPE wal_writer_last_receive_lsn gauge"@,
        "wal_writer_last_receive_lsn "@,
        m.last_receive_lsn as nat,
    ) + family(
        "# HELP wal_writer_last_process_lsn Last successfully processed record LSN"@,
        "# TYPE wal_writer_last_process_lsn gauge"@,
        "wal_writer_last_process_lsn "@,
        m.last_process_lsn as nat,
    ) + family(
        "# HELP wal_writer_last_acked_lsn Last WAL position acknowledged to PostgreSQL"@,
        "# TYPE wal_writer_last_acked_lsn gauge"@,
        "wal_writer_last_acked_lsn "@,
        m.last_acked_lsn as nat,
    ) + family(
        "# HELP wal_writer_replication_loop_exits_total Replication run loop exits"@,
        "# TYPE wal_writer_replication_loop_exits_total counter"@,
        "wal_writer_replication_loop_exits_total "@,
        m.replication_loop_exits as nat,
    ) + family(
        "# HELP wal_writer_process_wal_errors_total WAL processing errors"@,
        "# TYPE wal_writer_process_wal_errors_total counter"@,
        "wal_writer_process_wal_errors_total "@,
        m.process_wal_errors as nat,
    )
}

fn push_text(out: &mut String, text: &str)
    ensures
        final(out)@ == old(out)@ + text@,
{
    out.append(text);
}

fn push_line(out: &mut String, text: &str)
    ensures
        final(out)@ == old(out)@ + text_line(text@),
{
    out.append(text);
    out.append("\n");
    assert(final(out)@ =~= old(out)@ + text_line(text@));
}

fn push_sample(out: &mut String, name: &str, value: u64)
    ensures
        final(out)@ == old(out)@ + sample_line(name@, value as nat),
{
    out.append(name);
    push_decimal(out, value);
    out.append("\n");
    assert(final(out)@ =~= old(out)@ + sample_line(name@, value as nat));
}

fn push_family(out: &mut String, help: &str, kind: &str, name: &str, value: u64)
    ensures
        final(out)@ == old(out)@ + family(help@, kind@, name@, value as nat),
{
    push_line(out, help);
    push_line(out, kind);
    push_sample(out, name, value);
    assert(final(out)@ =~= old(out)@ + family(help@, kind@, name@, value as nat));
}

fn bucket_bound_text(k: usize) -> (r: &'static str)
    ensures
        r@ == bucket_bound(k as int),
{
    if k == 0 { "0.001" }
    else if k == 1 { "0.005" }
    else if k == 2 { "0.01" }
    else if k == 3 { "0.05" }
    else if k == 4 { "0.1" }
    else if k == 5 { "0.2" }
    else if k == 6 { "0.5" }
    else if k == 7 { "1" }
    else if k == 8 { "2.5" }
    else if k == 9 { "5" }
    else { "10" }
}

impl Metrics {
    #[verifier::rlimit(30)]
    fn push_histogram(&self, out: &mut String, sum_seconds: &str)
        requires
            self.has_histogram(),
        ensures
            final(out)@ == old(out)@ + histogram_text(*self, sum_seconds@),
    {
        push_line(out, "# HELP wal_writer_publish_duration_seconds Publish duration histogram");
        push_line(out, "# TYPE wal_writer_publish_duration_seconds histogram");
        let ghost start = out@;
        let mut cum: u64 = 0;
        let mut k: usize = 0;
        while k < PUBLISH_DURATION_BUCKET_COUNT
            invariant
                self.has_histogram(),
                k <= PUBLISH_DURATION_BUCKET_COUNT,
                cum == cumulative(self.publish_duration_buckets@, k as int),
                out@ == start + bucket_lines(self.publish_duration_buckets@, k as int),
            decreases PUBLISH_DURATION_BUCKET_COUNT - k,
        {
            let ghost before = out@;
            cum = cum.wrapping_add(self.publish_duration_buckets[k]);
            assert(cum == cumulative(self.publish_duration_buckets@, k + 1));
            push_text(out, "wal_writer_publish_duration_seconds_bucket{le=\"");
            push_text(out, bucket_bound_text(k));
            push_text(out, "\"} ");
            push_decimal(out, cum);
            push_text(out, "\n");
            assert(out@ =~= before + "wal_writer_publish_duration_seconds_bucket{le=\""@ + bucket_bound(k as int) + "\"} "@
                + decimal(cum as nat) + "\n"@);
            k = k + 1;
            assert(out@ =~= start + bucket_lines(self.publish_duration_buckets@, k as int));
        }
        push_sample(out, "wal_writer_publish_duration_seconds_bucket{le=\"+Inf\"} ", self.publish_duration_count);
        push_text(out, "wal_writer_publish_duration_seconds_sum ");
        push_text(out, sum_seconds);
        push_text(out, "\n");
        push_sample(out, "wal_writer_publish_duration_seconds_count ", self.publish_duration_count);
        assert(out@ =~= old(out)@ + histogram_text(*self, sum_seconds@));
    }

    fn push_published_records(&self, out: &mut String)
        ensures
            final(out)@ == old(out)@ + published_records_text(*self),
    {
        push_line(out, "# HELP wal_writer_published_records_total Published CDC records by operation");
        push_line(out, "# TYPE wal_writer_published_records_total counter");
        push_sample(out, "wal_writer_published_records_total{operation=\"insert\"} ", self.published_records_insert);
        push_sample(out, "wal_writer_published_records_total{operation=\"update\"} ", self.published_records_update);
        push_sample(out, "wal_writer_published_records_total{operation=\"delete\"} ", self.published_records_delete);
        push_sample(out, "wal_writer_published_records_total{operation=\"truncate\"} ", self.published_records_truncate);
        assert(out@ =~= old(out)@ + published_records_text(*self));
    }

    fn push_wal_messages(&self, out: &mut String)
        ensures
            final(out)@ == old(out)@ + wal_messages_text(*self),
    {
        push_line(out, "# HELP wal_writer_wal_messages_total Replication event counts by type");
        push_line(out, "# TYPE wal_writer_wal_messages_total counter");
        push_sample(out, "wal_writer_wal_messages_total{type=\"xlogdata\"} ", self.wal_messages_xlogdata);
        push_sample(out, "wal_writer_wal_messages_total{type=\"begin\"} ", self.wal_messages_begin);
        push_sample(out, "wal_writer_wal_messages_total{type=\"commit\"} ", self.wal_messages_commit);
        push_sample(out, "wal_writer_wal_messages_total{type=\"keepalive\"} ", self.wal_messages_keepalive);
        push_sample(out, "wal_writer_wal_messages_total{type=\"message\"} ", self.wal_messages_message);
        push_sample(out, "wal_writer_wal_messages_total{type=\"stopped\"} ", self.wal_messages_stopped);
        assert(out@ =~= old(out)@ + wal_messages_text(*self));
    }

    /// The Prometheus text exposition of all metrics. `sum_seconds` is the sum
    /// of the observed publish durations in seconds, as the exposition shows it.
    pub fn gather_prometheus(&self, sum_seconds: &str) -> (r: String)
        requires
            self.has_histogram(),
        ensures
            r@ == prometheus_text(*self, sum_seconds@),
    {
        let mut out = String::new();
        push_family(
            &mut out,
            "# HELP wal_writer_ready WAL writer process readiness",
            "# TYPE wal_writer_ready gauge",
            "wal_writer_ready ",
            if self.ready { 1 } else { 0 },
        );
        push_family(
            &mut out,
            "# HELP wal_writer_replication_connected Replication client connectivity status",
            "# TYPE wal_writer_replication_connected gauge",
            "wal_writer_replication_connected ",
            if self.replication_connected { 1 } else { 0 },
        );
        self.push_published_records(&mut out);
        push_family(
            &mut out,
            "# HELP wal_writer_publish_failures_total Kafka publish failures",
            "# TYPE wal_writer_publish_failures_total counter",
            "wal_writer_publish_failures_total ",
            self.publish_failures,
        );
        push_family(
            &mut out,
            "# HELP wal_writer_kafka_messages_sent_total Kafka messages successfully sent",
            "# TYPE wal_writer_kafka_messages_sent_total counter",
            "wal_writer_kafka_messages_sent_total ",
            self.kafka_messages_sent,
        );
        push_family(
            &mut out,
            "# HELP wal_writer_kafka_send_errors_total Kafka send error count",
            "# TYPE wal_writer_kafka_send_errors_total counter",
            "wal_writer_kafka_send_errors_total ",
            self.kafka_send_errors,
        );
        self.push_histogram(&mut out, sum_seconds);
        self.push_wal_messages(&mut out);
        push_family(
            &mut out,
            "# HELP wal_writer_last_receive_lsn Last received WAL end LSN",
            "# TYPE wal_writer_last_receive_lsn gauge",
            "wal_writer_last_receive_lsn ",
            self.last_receive_lsn,
        );
        push_family(
            &mut out,
            "# HELP wal_writer_last_process_lsn Last successfully processed record LSN",
            "# TYPE wal_writer_last_process_lsn gauge",
            "wal_writer_last_process_lsn ",
            self.last_process_lsn,
        );
        push_family(
            &mut out,
            "# HELP wal_writer_last_acked_lsn Last WAL position acknowledged to PostgreSQL",
            "# TYPE wal_writer_last_acked_lsn gauge",
            "wal_writer_last_acked_lsn ",
            self.last_acked_lsn,
        );
        push_family(
            &mut out,
            "# HELP wal_writer_replication_loop_exits_total Replication run loop exits",
            "# TYPE wal_writer_replication_loop_exits_total counter",
            "wal_writer_replication_loop_exits_total ",
            self.replication_loop_exits,
        );
        push_family(
            &mut out,
            "# HELP wal_writer_process_wal_errors_total WAL processing errors",
            "# TYPE wal_writer_process_wal_errors_total counter",
            "wal_writer_process_wal_errors_total ",
            self.process_wal_errors,
        );
        assert(out@ =~= prometheus_text(*self, sum_seconds@));
        out
    }
}

/// The observations in the first `k` buckets, as a plain sum.
pub open spec fn bucket_total(buckets: Seq<u64>, k: int) -> nat
    decreases k,
{
    if k <= 0 { 0 } else { bucket_total(buckets, k - 1) + buckets[k - 1] as nat }
}

proof fn lemma_bucket_total_zero(buckets: Seq<u64>, k: int)
    requires
        0 <= k <= buckets.len(),
        forall|i: int| 0 <= i < buckets.len() ==> buckets[i] == 0,
    ensures
        bucket_total(buckets, k) == 0,
    decreases k,
{
    if k > 0 {
        lemma_bucket_total_zero(buckets, k - 1);
    }
}

proof fn lemma_bucket_total_update(buckets: Seq<u64>, i: int, v: u64, k: int)
    requires
        0 <= i < buckets.len(),
        0 <= k <= buckets.len(),
    ensures
        bucket_total(buckets.update(i, v), k) == if i < k {
            bucket_total(buckets, k) - buckets[i] + v
        } else {
            bucket_total(buckets, k) as int
        },
    decreases k,
{
    if k > 0 {
        lemma_bucket_total_update(buckets, i, v, k - 1);
    }
}

proof fn lemma_bucket_total_grows(buckets: Seq<u64>, j: int, k: int)
    requires
        0 <= j <= k <= buckets.len(),
    ensures
        bucket_total(buckets, j) <= bucket_total(buckets, k),
    decreases k - j,
{
    if j < k {
        lemma_bucket_total_grows(buckets, j, k - 1);
    }
}

/// Law: while the buckets hold no more observations than the count, and the
/// count has not reached its largest value, one more observation keeps it so:
/// the count grows by one and at most one bucket by one.
pub proof fn lemma_observation_keeps_buckets_within_count(buckets: Seq<u64>, count: u64, bucket: Option<usize>)
    requires
        buckets.len() == PUBLISH_DURATION_BUCKET_COUNT,
        bucket matches Some(i) ==> i < PUBLISH_DURATION_BUCKET_COUNT,
        bucket_total(buckets, PUBLISH_DURATION_BUCKET_COUNT as int) <= count,
        count < u64::MAX,
    ensures
        bucket_total(observed_buckets(buckets, bucket), PUBLISH_DURATION_BUCKET_COUNT as int) <= wrapped_sum(count, 1),
{
    if let Some(i) = bucket {
        lemma_bucket_total_grows(buckets, i as int + 1, PUBLISH_DURATION_BUCKET_COUNT as int);
        lemma_bucket_total_grows(buckets, i as int, i as int + 1);
        assert(buckets[i as int] <= bucket_total(buckets, PUBLISH_DURATION_BUCKET_COUNT as int)) by {
            lemma_bucket_total_grows(buckets, 0, i as int);
        }
        lemma_bucket_total_update(
            buckets,
            i as int,
            wrapped_sum(buckets[i as int], 1),
            PUBLISH_DURATION_BUCKET_COUNT as int,
        );
    }
}

/// Law: in well-formed metrics the cumulative bucket values of the exposition
/// never decrease from one bound to the next and none exceeds the count, which
/// the `+Inf` bucket and `_count` show.
pub proof fn lemma_cumulative_buckets_within_count(m: Metrics)
    requires
        m.wf(),
    ensures
        forall|j: int, k: int|
            0 <= j <= k <= PUBLISH_DURATION_BUCKET_COUNT ==> #[trigger] cumulative(m.publish_duration_buckets@, j)
                <= #[trigger] cumulative(m.publish_duration_buckets@, k) <= m.publish_duration_count,
{
    let buckets = m.publish_duration_buckets@;
    let count = m.publish_duration_count;
    assert forall|k: int| 0 <= k <= PUBLISH_DURATION_BUCKET_COUNT implies cumulative(buckets, k) == bucket_total(buckets, k) by {
        lemma_cumulative_is_total(buckets, count, k);
    }
    assert forall|j: int, k: int| 0 <= j <= k <= PUBLISH_DURATION_BUCKET_COUNT implies #[trigger] cumulative(buckets, j)
        <= #[trigger] cumulative(buckets, k) <= count by {
        lemma_bucket_total_grows(buckets, j, k);
        lemma_bucket_total_grows(buckets, k, PUBLISH_DURATION_BUCKET_COUNT as int);
    }
}

/// Law: in well-formed metrics, one more observation in bucket `i` raises by
/// one the cumulative value of every bound from the `i`-th on and leaves those
/// below it; one above every bound leaves every bucket; the count grows by one.
pub proof fn lemma_observation_updates_cumulative(m: Metrics, bucket: Option<usize>)
    requires
        m.wf(),
        m.publish_duration_count < u64::MAX,
        bucket matches Some(i) ==> i < PUBLISH_DURATION_BUCKET_COUNT,
    ensures
        wrapped_sum(m.publish_duration_count, 1) == m.publish_duration_count + 1,
        forall|k: int|
            0 <= k <= PUBLISH_DURATION_BUCKET_COUNT ==> #[trigger] cumulative(
                observed_buckets(m.publish_duration_buckets@, bucket),
                k,
            ) == cumulative(m.publish_duration_buckets@, k) + if bucket matches Some(i) && k > i {
                1int
            } else {
                0int
            },
{
    let buckets = m.publish_duration_buckets@;
    let count = m.publish_duration_count;
    let after = observed_buckets(buckets, bucket);
    lemma_observation_keeps_buckets_within_count(buckets, count, bucket);
    assert forall|k: int| 0 <= k <= PUBLISH_DURATION_BUCKET_COUNT implies #[trigger] cumulative(after, k) == cumulative(
        buckets,
        k,
    ) + if bucket matches Some(i) && k > i {
        1int
    } else {
        0int
    } by {
        lemma_cumulative_is_total(buckets, count, k);
        lemma_cumulative_is_total(after, (count + 1) as u64, k);
        if let Some(i) = bucket {
            assert(buckets[i as int] <= bucket_total(buckets, PUBLISH_DURATION_BUCKET_COUNT as int)) by {
                lemma_bucket_total_grows(buckets, i as int + 1, PUBLISH_DURATION_BUCKET_COUNT as int);
            }
            lemma_bucket_total_update(buckets, i as int, wrapped_sum(buckets[i as int], 1), k);
        }
    }
}

proof fn lemma_cumulative_is_total(buckets: Seq<u64>, count: u64, k: int)
    requires
        0 <= k <= buckets.len(),
        bucket_total(buckets, buckets.len() as int) <= count,
    ensures
        cumulative(buckets, k) == bucket_total(buckets, k),
    decreases k,
{
    if k > 0 {
        lemma_cumulative_is_total(buckets, count, k - 1);
        lemma_bucket_total_grows(buckets, k, buckets.len() as int);
    }
}

/// Law: the exposition holds a sample line for every counter and gauge: the
/// metric's name, and the decimal value of the field it is named for.
pub proof fn lemma_exposition_shows_each_field(m: Metrics, sum_seconds: Seq<char>)
    ensures
        contains_text(prometheus_text(m, sum_seconds), "wal_writer_ready "@ + decimal((if m.ready { 1nat } else { 0nat })) + "\n"@),
        contains_text(prometheus_text(m, sum_seconds), "wal_writer_replication_connected "@ + decimal((if m.replication_connected { 1nat } else { 0nat })) + "\n"@),
        contains_text(prometheus_text(m, sum_seconds), "wal_writer_published_records_total{operation=\"insert\"} "@ + decimal(m.published_records_insert as nat) + "\n"@),
        contains_text(prometheus_text(m, sum_seconds), "wal_writer_published_records_total{operation=\"update\"} "@ + decimal(m.published_records_update as nat) + "\n"@),
        contains_text(prometheus_text(m, sum_seconds), "wal_writer_published_records_total{operation=\"delete\"} "@ + decimal(m.published_records_delete as nat) + "\n"@),
        contains_text(prometheus_text(m, sum_seconds), "wal_writer_published_records_total{operation=\"truncate\"} "@ + decimal(m.published_records_truncate as nat) + "\n"@),
        contains_text(prometheus_text(m, sum_seconds), "wal_writer_publish_failures_total "@ + decimal(m.publish_failures as nat) + "\n"@),
        contains_text(prometheus_text(m, sum_seconds), "wal_writer_kafka_messages_sent_total "@ + decimal(m.kafka_messages_sent as nat) + "\n"@),
        contains_text(prometheus_text(m, sum_seconds), "wal_writer_kafka_send_errors_total "@ + decimal(m.kafka_send_errors as nat) + "\n"@),
        contains_text(prometheus_text(m, sum_seconds), "wal_writer_publish_duration_seconds_bucket{le=\"+Inf\"} "@ + decimal(m.publish_duration_count as nat) + "\n"@),
        contains_text(prometheus_text(m, sum_seconds), "wal_writer_publish_duration_seconds_count "@ + decimal(m.publish_duration_count as nat) + "\n"@),
        contains_text(prometheus_text(m, sum_seconds), "wal_writer_wal_messages_total{type=\"xlogdata\"} "@ + decimal(m.wal_messages_xlogdata as nat) + "\n"@),
        contains_text(prometheus_text(m, sum_seconds), "wal_writer_wal_messages_total{type=\"begin\"} "@ + decimal(m.wal_messages_begin as nat) + "\n"@),
        contains_text(prometheus_text(m, sum_seconds), "wal_writer_wal_messages_total{type=\"commit\"} "@ + decimal(m.wal_messages_commit as nat) + "\n"@),
        contains_text(prometheus_text(m, sum_seconds), "wal_writer_wal_messages_total{type=\"keepalive\"} "@ + decimal(m.wal_messages_keepalive as nat) + "\n"@),
        contains_text(prometheus_text(m, sum_seconds), "wal_writer_wal_messages_total{type=\"message\"} "@ + decimal(m.wal_messages_message as nat) + "\n"@),
        contains_text(prometheus_text(m, sum_seconds), "wal_writer_wal_messages_total{type=\"stopped\"} "@ + decimal(m.wal_messages_stopped as nat) + "\n"@),
        contains_text(prometheus_text(m, sum_seconds), "wal_writer_last_receive_lsn "@ + decimal(m.last_receive_lsn as nat) + "\n"@),
        contains_text(prometheus_text(m, sum_seconds), "wal_writer_last_process_lsn "@ + decimal(m.last_process_lsn as nat) + "\n"@),
        contains_text(prometheus_text(m, sum_seconds), "wal_writer_last_acked_lsn "@ + decimal(m.last_acked_lsn as nat) + "\n"@),
        contains_text(prometheus_text(m, sum_seconds), "wal_writer_replication_loop_exits_total "@ + decimal(m.replication_loop_exits as nat) + "\n"@),
        contains_text(prometheus_text(m, sum_seconds), "wal_writer_process_wal_errors_total "@ + decimal(m.process_wal_errors as nat) + "\n"@),
{
    lemma_contains_text_rules();
}

/// Law: counting a replication message of type `t` raises by one the counter
/// named for `t` and leaves every other field as it was; a type without a
/// counter changes nothing.
pub proof fn lemma_wal_message_counted_once(m: Metrics, t: Seq<char>)
    ensures
        after_wal_message(m, t).wal_messages_xlogdata == if t == "xlogdata"@ {
            wrapped_sum(m.wal_messages_xlogdata, 1)
        } else {
            m.wal_messages_xlogdata
        },
        after_wal_message(m, t).wal_messages_begin == if t == "begin"@ {
            wrapped_sum(m.wal_messages_begin, 1)
        } else {
            m.wal_messages_begin
        },
        after_wal_message(m, t).wal_messages_commit == if t == "commit"@ {
            wrapped_sum(m.wal_messages_commit, 1)
        } else {
            m.wal_messages_commit
        },
        after_wal_message(m, t).wal_messages_keepalive == if t == "keepalive"@ {
            wrapped_sum(m.wal_messages_keepalive, 1)
        } else {
            m.wal_messages_keepalive
        },
        after_wal_message(m, t).wal_messages_message == if t == "message"@ {
            wrapped_sum(m.wal_messages_message, 1)
        } else {
            m.wal_messages_message
        },
        after_wal_message(m, t).wal_messages_stopped == if t == "stopped"@ {
            wrapped_sum(m.wal_messages_stopped, 1)
        } else {
            m.wal_messages_stopped
        },
        after_wal_message(m, t) == (Metrics {
            wal_messages_xlogdata: after_wal_message(m, t).wal_messages_xlogdata,
            wal_messages_begin: after_wal_message(m, t).wal_messages_begin,
            wal_messages_commit: after_wal_message(m, t).wal_messages_commit,
            wal_messages_keepalive: after_wal_message(m, t).wal_messages_keepalive,
            wal_messages_message: after_wal_message(m, t).wal_messages_message,
            wal_messages_stopped: after_wal_message(m, t).wal_messages_stopped,
            ..m
        }),
{
    reveal_strlit("xlogdata");
    reveal_strlit("begin");
    reveal_strlit("commit");
    reveal_strlit("keepalive");
    reveal_strlit("message");
    reveal_strlit("stopped");
    assert("xlogdata"@.len() == 8 && "begin"@.len() == 5 && "commit"@.len() == 6 && "keepalive"@.len() == 9);
    assert("message"@.len() == 7 && "stopped"@.len() == 7);
    assert("message"@[0] != "stopped"@[0]);
}

/// Law: counting a published record of operation `op` raises by one the
/// counter named for `op` and leaves every other field as it was.
pub proof fn lemma_published_record_counted_once(m: Metrics, op: Operation)
    ensures
        after_published_record(m, op).published_records_insert == if op == Operation::Insert {
            wrapped_sum(m.published_records_insert, 1)
        } else {
            m.published_records_insert
        },
        after_published_record(m, op).published_records_update == if op == Operation::Update {
            wrapped_sum(m.published_records_update, 1)
        } else {
            m.published_records_update
        },
        after_published_record(m, op).published_records_delete == if op == Operation::Delete {
            wrapped_sum(m.published_records_delete, 1)
        } else {
            m.published_records_delete
        },
        after_published_record(m, op).published_records_truncate == if op == Operation::Truncate {
            wrapped_sum(m.published_records_truncate, 1)
        } else {
            m.published_records_truncate
        },
        after_published_record(m, op) == (Metrics {
            published_records_insert: after_published_record(m, op).published_records_insert,
            published_records_update: after_published_record(m, op).published_records_update,
            published_records_delete: after_published_record(m, op).published_records_delete,
            published_records_truncate: after_published_record(m, op).published_records_truncate,
            ..m
        }),
{
}

} // verus!
