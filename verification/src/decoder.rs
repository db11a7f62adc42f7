//! What the record publisher decides: topic names, message keys, and when a
//! refused send is retried.
use vstd::prelude::*;
use crate::text::{chars_of, decimal, parse_unsigned, push_decimal};

verus! {

/// The topic of a table: `{prefix}.{schema}.{table}`.
pub open spec fn table_topic_text(prefix: Seq<char>, schema: Seq<char>, table: Seq<char>) -> Seq<char> {
    prefix + seq!['.'] + schema + seq!['.'] + table
}

/// The topic of a table: `{prefix}.{schema}.{table}`.
pub fn table_topic(prefix: &str, schema: &str, table: &str) -> (r: String)
    ensures
        r@ == table_topic_text(prefix@, schema@, table@),
{
    proof {
        reveal_strlit(".");
    }
    let mut t = String::from_str(prefix);
    t.append(".");
    t.append(schema);
    t.append(".");
    t.append(table);
    t
}

/// The topic that raw WAL payloads go to: `{prefix}.raw`.
pub fn raw_topic(prefix: &str) -> (r: String)
    ensures
        r@ == prefix@ + seq!['.', 'r', 'a', 'w'],
{
    proof {
        reveal_strlit(".raw");
    }
    let mut t = String::from_str(prefix);
    t.append(".raw");
    t
}

/// The key of a published record: its transaction id in decimal.
pub fn record_key(xid: u64) -> (r: String)
    ensures
        r@ == decimal(xid as nat),
{
    let mut k = String::new();
    push_decimal(&mut k, xid);
    k
}

/// `needle` occurs in `hay` at position `i`.
pub open spec fn occurs_at(hay: Seq<char>, needle: Seq<char>, i: int) -> bool {
    0 <= i && i + needle.len() <= hay.len() && hay.subrange(i, i + needle.len()) == needle
}

/// Whether `needle` occurs in `hay`.
pub fn text_contains(hay: &str, needle: &str) -> (r: bool)
    ensures
        r == exists|i: int| occurs_at(hay@, needle@, i),
{
    let h = chars_of(hay);
    let n = chars_of(needle);
    if n.len() > h.len() {
        assert forall|i: int| !occurs_at(hay@, needle@, i) by {}
        return false;
    }
    let mut i: usize = 0;
    while i <= h.len() - n.len()
        invariant
            h@ == hay@,
            n@ == needle@,
            n@.len() <= h@.len(),
            i <= h@.len() - n@.len() + 1,
            forall|k: int| 0 <= k < i ==> !occurs_at(hay@, needle@, k),
        decreases h@.len() - i,
    {
        let mut j: usize = 0;
        let mut same: bool = true;
        while same && j < n.len()
            invariant
                j <= n@.len(),
                i + n.len() <= h.len(),
                forall|k: int| 0 <= k < j ==> h@[i + k] == n@[k],
                !same ==> j < n@.len() && h@[i + j] != n@[j as int],
            decreases n@.len() - j + (if same { 1int } else { 0int }),
        {
            if h[i + j] == n[j] {
                j = j + 1;
            } else {
                same = false;
            }
        }
        if j == n.len() {
            assert(hay@.subrange(i as int, i + needle@.len()) =~= needle@);
            assert(occurs_at(hay@, needle@, i as int));
            return true;
        }
        assert(!occurs_at(hay@, needle@, i as int)) by {
            if occurs_at(hay@, needle@, i as int) {
                assert(hay@.subrange(i as int, i + needle@.len())[j as int] == needle@[j as int]);
            }
        }
        i = i + 1;
    }
    assert forall|k: int| !occurs_at(hay@, needle@, k) by {
        if occurs_at(hay@, needle@, k) {
            assert(k < i);
        }
    }
    false
}

/// Whether a send error's text says the producer queue is full.
pub fn is_queue_full(error_text: &str) -> (r: bool)
    ensures
        r == exists|i: int| occurs_at(error_text@, "QueueFull"@, i),
{
    text_contains(error_text, "QueueFull")
}

/// How many times a send refused for a full queue is retried.
pub const MAX_SEND_RETRIES: u32 = 5;

/// The first wait before a retry, in milliseconds.
pub const INITIAL_BACKOFF_MS: u64 = 10;

/// The longest wait before a retry, in milliseconds.
pub const MAX_BACKOFF_MS: u64 = 500;

/// What to do after a failed send.
pub enum RetryDecision {
    /// Wait this many milliseconds, then send again.
    Retry(u64),
    /// Count the record as failed and go on.
    GiveUp,
}

/// The wait before retry `k` (counting from zero): 10 ms, doubling each time,
/// at most 500 ms.
pub open spec fn backoff_for(k: nat) -> nat
    decreases k,
{
    if k == 0 {
        INITIAL_BACKOFF_MS as nat
    } else if 2 * backoff_for((k - 1) as nat) < MAX_BACKOFF_MS {
        2 * backoff_for((k - 1) as nat)
    } else {
        MAX_BACKOFF_MS as nat
    }
}

/// The retry state of one record's send: retries made so far, and the next wait.
pub struct SendRetry {
    pub retry_count: u32,
    pub backoff_ms: u64,
}

impl SendRetry {
    /// No retry yet; the first wait is 10 ms.
    pub fn new() -> (r: Self)
        ensures
            r.retry_count == 0,
            r.backoff_ms == INITIAL_BACKOFF_MS,
            r.backoff_ms == backoff_for(r.retry_count as nat),
    {
        SendRetry { retry_count: 0, backoff_ms: INITIAL_BACKOFF_MS }
    }

    /// After a failed send: a full producer queue is retried up to five times,
    /// waiting the current backoff, which then doubles up to 500 ms; any other
    /// failure, or a sixth full queue, gives up.
    pub fn on_failure(&mut self, queue_full: bool) -> (d: RetryDecision)
        requires
            old(self).backoff_ms <= MAX_BACKOFF_MS,
        ensures
            final(self).backoff_ms <= MAX_BACKOFF_MS,
            old(self).retry_count < MAX_SEND_RETRIES && queue_full ==> {
                &&& d == RetryDecision::Retry(old(self).backoff_ms)
                &&& final(self).retry_count == old(self).retry_count + 1
                &&& final(self).backoff_ms == if old(self).backoff_ms * 2 < MAX_BACKOFF_MS {
                    old(self).backoff_ms * 2
                } else {
                    MAX_BACKOFF_MS as int
                }
            },
            !(old(self).retry_count < MAX_SEND_RETRIES && queue_full) ==> d == RetryDecision::GiveUp && *final(self) == *old(self),
            old(self).retry_count <= MAX_SEND_RETRIES ==> final(self).retry_count <= MAX_SEND_RETRIES,
            old(self).backoff_ms == backoff_for(old(self).retry_count as nat) ==> final(self).backoff_ms == backoff_for(
                final(self).retry_count as nat,
            ),
    {
        if self.retry_count < MAX_SEND_RETRIES && queue_full {
            let wait = self.backoff_ms;
            let doubled = self.backoff_ms * 2;
            self.backoff_ms = if doubled < MAX_BACKOFF_MS { doubled } else { MAX_BACKOFF_MS };
            self.retry_count = self.retry_count + 1;
            RetryDecision::Retry(wait)
        } else {
            RetryDecision::GiveUp
        }
    }
}

/// Batching settings of the record decoder.
pub struct DecoderConfig {
    pub batch_size: usize,
    pub flush_interval_ms: u64,
    pub max_retries: u32,
}

impl Default for DecoderConfig {
    fn default() -> (c: Self)
        ensures
            c.batch_size == 100,
            c.flush_interval_ms == 100,
            c.max_retries == 3,
    {
        DecoderConfig { batch_size: 100, flush_interval_ms: 100, max_retries: 3 }
    }
}

/// Law: the waits before successive retries start at 10 ms and double, never
/// exceeding 500 ms: 10, 20, 40, 80, 160, 320, then 500.
pub proof fn lemma_backoff_doubles_to_cap(k: nat)
    ensures
        backoff_for(0) == 10,
        backoff_for(k) <= 500,
        backoff_for(k + 1) == if 2 * backoff_for(k) < 500 {
            2 * backoff_for(k)
        } else {
            500
        },
{
}

/// Law: a record's key is its transaction id in decimal, and reads back as it.
pub proof fn lemma_record_key_reads_back(xid: u64)
    ensures
        parse_unsigned(decimal(xid as nat), 10, u64::MAX as nat) == Some(xid as nat),
{
    crate::text::lemma_decimal_value(xid as nat);
}

/// Law: a table's topic is the prefix, a dot, the schema, a dot and the table,
/// each found back at its place.
pub proof fn lemma_table_topic_parts(prefix: Seq<char>, schema: Seq<char>, table: Seq<char>)
    ensures
        ({
            let t = table_topic_text(prefix, schema, table);
            let p = prefix.len() as int;
            let q = p + 1 + schema.len();
            &&& t.len() == prefix.len() + schema.len() + table.len() + 2
            &&& t.take(p) == prefix
            &&& t[p] == '.'
            &&& t.subrange(p + 1, q) == schema
            &&& t[q] == '.'
            &&& t.skip(q + 1) == table
        }),
{
    let t = table_topic_text(prefix, schema, table);
    let p = prefix.len() as int;
    let q = p + 1 + schema.len();
    assert(t.take(p) =~= prefix);
    assert(t.subrange(p + 1, q) =~= schema);
    assert(t.skip(q + 1) =~= table);
}

} // verus!
