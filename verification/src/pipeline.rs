//! What the replication loop does with one WAL data message: publish it raw,
//! or decode it, fence its position and cut its records into batches.
use vstd::prelude::*;
use crate::decoder::{raw_topic, record_key, table_topic, table_topic_text};
use crate::replication::{
    batches_for, chunks, count_batches, fence_count, first_keys, group_by_table, grouped_by_table,
    grouped_total, lemma_grouping_partition, lemma_split_partition, records_of_table, split_into_batches,
    stamp_lsn, stamped, FenceTracker, TableGroup,
};
use crate::state::PendingBatch;
use crate::text::{decimal, hex_encode, hex_text};
use crate::wal_parser::{
    initial_decode_state, parse_error_prefix, payload_outcome, records_view, WalParseError, WalParser, WalRecord, WalRecordView,
};

verus! {

/// Record views with every LSN of zero replaced by `wal_end`.
pub open spec fn stamp_views(recs: Seq<WalRecordView>, wal_end: u64) -> Seq<WalRecordView> {
    Seq::new(
        recs.len(),
        |i: int|
            if recs[i].lsn == 0 {
                WalRecordView { lsn: wal_end, ..recs[i] }
            } else {
                recs[i]
            },
    )
}

/// The batches of the tables `keys`, in that order: each table's records cut
/// into chunks of `n`, each chunk with the table's topic.
pub open spec fn planned_batches(
    s: Seq<WalRecord>,
    prefix: Seq<char>,
    n: nat,
    keys: Seq<(Seq<char>, Seq<char>)>,
) -> Seq<(Seq<char>, Seq<WalRecord>)>
    decreases keys.len(),
{
    if keys.len() == 0 {
        Seq::empty()
    } else {
        let k = keys.last();
        planned_batches(s, prefix, n, keys.drop_last()) + chunks(records_of_table(s, k), n).map_values(
            |c: Seq<WalRecord>| (table_topic_text(prefix, k.0, k.1), c),
        )
    }
}

/// The topic and records of each batch.
pub open spec fn batch_parts(b: Seq<PendingBatch>) -> Seq<(Seq<char>, Seq<WalRecord>)> {
    b.map_values(|x: PendingBatch| (x.topic@, x.records@))
}

/// `plan` is what the decoded records `recs` of position `wal_end` are cut
/// into: the records, stamped with `wal_end` where they have no LSN, grouped
/// by table in order of first appearance, each table's records in chunks of
/// `n` under the table's topic.
pub open spec fn plan_of(
    recs: Seq<WalRecordView>,
    wal_end: u64,
    prefix: Seq<char>,
    n: nat,
    plan: Seq<(Seq<char>, Seq<WalRecord>)>,
) -> bool {
    exists|s: Seq<WalRecord>|
        records_view(s) == stamp_views(recs, wal_end) && #[trigger] planned_batches(s, prefix, n, first_keys(s)) == plan
}

/// What to do with one WAL data message.
pub enum XLogPlan {
    /// Publish the payload as it is.
    PublishRaw { topic: String, key: String, value: String },
    /// Queue these batches; their position's fence already counts them.
    Enqueue { records_parsed: usize, batches: Vec<PendingBatch> },
    /// The payload did not decode.
    ParseFailed(WalParseError),
    /// The position's fence cannot count that many more batches.
    FenceOverflow,
}

proof fn lemma_planned_prefix(groups: Seq<TableGroup>, s: Seq<WalRecord>, prefix: Seq<char>, n: nat, k: int)
    requires
        grouped_by_table(groups, s),
        n > 0,
        0 <= k <= groups.len(),
    ensures
        batches_for(groups.take(k), n) == planned_batches(s, prefix, n, first_keys(s).take(k)).len(),
        batches_for(groups.take(k), n) <= grouped_total(s, first_keys(s).take(k)),
    decreases k,
{
    let keys = first_keys(s);
    if k > 0 {
        lemma_planned_prefix(groups, s, prefix, n, k - 1);
        assert(groups.take(k).drop_last() =~= groups.take(k - 1));
        assert(keys.take(k).drop_last() =~= keys.take(k - 1));
        let g = groups[k - 1];
        assert(groups.take(k).last() == g);
        assert(keys.take(k).last() == keys[k - 1]);
        assert(g.records@ == records_of_table(s, keys[k - 1]));
        lemma_split_partition(g.records@, n);
        crate::replication::lemma_chunk_count_exact(g.records@.len(), n);
    } else {
        assert(groups.take(0) =~= Seq::<TableGroup>::empty());
        assert(keys.take(0) =~= Seq::<(Seq<char>, Seq<char>)>::empty());
    }
}

/// Decides what to do with the WAL data message `data` ending at `wal_end`.
/// In raw mode the payload is published as lowercase hex to `{prefix}.raw`,
/// keyed by the position in decimal. Otherwise it is decoded; its records,
/// stamped with `wal_end` where they have no LSN, are grouped by table and cut
/// into batches of at most `max_records_per_batch` for the topics
/// `{prefix}.{schema}.{table}`, and the fence of `wal_end` counts them all
/// before any is handed out.
pub fn plan_xlog_data(
    prefix: &str,
    publish_raw_wal: bool,
    max_records_per_batch: usize,
    parser: &WalParser,
    fences: &mut FenceTracker,
    wal_end: u64,
    data: &[u8],
    created_at: u64,
) -> (p: XLogPlan)
    requires
        max_records_per_batch > 0,
        old(fences).wf(),
    ensures
        final(fences).wf(),
        final(fences).confirmed() == old(fences).confirmed(),
        publish_raw_wal ==> {
            &&& p matches XLogPlan::PublishRaw { topic, key, value } && topic@ == prefix@ + seq!['.', 'r', 'a', 'w']
                && key@ == decimal(wal_end as nat) && value@ == hex_text(data@)
            &&& final(fences).fences() == old(fences).fences()
        },
        !publish_raw_wal ==> match payload_outcome(data@, initial_decode_state()) {
            Err(t) => (p matches XLogPlan::ParseFailed(e) && e.message@ == parse_error_prefix() + t) && final(fences).fences() == old(fences).fences(),
            Ok(recs) => match p {
                XLogPlan::Enqueue { records_parsed, batches } => {
                    &&& records_parsed == recs.len()
                    &&& plan_of(recs, wal_end, prefix@, max_records_per_batch as nat, batch_parts(batches@))
                    &&& forall|i: int|
                        0 <= i < batches@.len() ==> (#[trigger] batches@[i]).wal_end == wal_end
                            && batches@[i].created_at == created_at
                    &&& forall|w: u64|
                        #[trigger] fence_count(final(fences).fences(), w) == if w == wal_end {
                            fence_count(old(fences).fences(), w) + batches@.len()
                        } else {
                            fence_count(old(fences).fences(), w)
                        }
                },
                XLogPlan::FenceOverflow => {
                    &&& final(fences).fences() == old(fences).fences()
                    &&& exists|plan: Seq<(Seq<char>, Seq<WalRecord>)>|
                        #[trigger] plan_of(recs, wal_end, prefix@, max_records_per_batch as nat, plan)
                            && fence_count(old(fences).fences(), wal_end) + plan.len() > usize::MAX
                },
                _ => false,
            },
        },
{
    if publish_raw_wal {
        let topic = raw_topic(prefix);
        let key = record_key(wal_end);
        let value = hex_encode(data);
        return XLogPlan::PublishRaw { topic, key, value };
    }
    let records = match parser.parse(data) {
        Ok(r) => r,
        Err(e) => {
            return XLogPlan::ParseFailed(e);
        },
    };
    let ghost recs = records_view(records@);
    let records_parsed = records.len();
    let ghost parsed = records@;
    let stamped_records = stamp_lsn(records, wal_end);
    let ghost s = stamped_records@;
    assert(records_view(s) =~= stamp_views(recs, wal_end)) by {
        assert(records_view(s) == stamped(parsed, wal_end));
    }
    let groups = group_by_table(stamped_records);
    let ghost keys = first_keys(s);
    let ghost n = max_records_per_batch as nat;
    proof {
        lemma_grouping_partition(s);
        lemma_planned_prefix(groups@, s, prefix@, n, groups@.len() as int);
        assert(groups@.take(groups@.len() as int) =~= groups@);
        assert(keys.take(keys.len() as int) =~= keys);
    }
    let total = count_batches(&groups, max_records_per_batch);
    let ghost plan = planned_batches(s, prefix@, n, keys);
    assert(plan_of(recs, wal_end, prefix@, n, plan));
    if fences.count_at(wal_end) > usize::MAX - total {
        return XLogPlan::FenceOverflow;
    }
    fences.add_batches(wal_end, total);
    let mut batches: Vec<PendingBatch> = Vec::new();
    let ghost all_groups = groups@;
    assert(keys.take(0) =~= Seq::<(Seq<char>, Seq<char>)>::empty());
    assert(batch_parts(batches@) =~= Seq::<(Seq<char>, Seq<WalRecord>)>::empty());
    for g in it: groups
        invariant
            it.seq() == all_groups,
            grouped_by_table(all_groups, s),
            keys == first_keys(s),
            n == max_records_per_batch,
            n > 0,
            batch_parts(batches@) == planned_batches(s, prefix@, n, keys.take(it.index() as int)),
            forall|i: int|
                0 <= i < batches@.len() ==> (#[trigger] batches@[i]).wal_end == wal_end && batches@[i].created_at
                    == created_at,
    {
        let ghost k = it.index();
        let topic = table_topic(prefix, g.table_schema.as_str(), g.table_name.as_str());
        let ghost key = keys[k as int];
        assert(g.records@ == records_of_table(s, key));
        let mut produced = split_into_batches(topic.as_str(), g.records, max_records_per_batch, wal_end, created_at);
        let ghost prev = batches@;
        let ghost piece = produced@;
        batches.append(&mut produced);
        proof {
            assert(keys.take(k + 1).drop_last() =~= keys.take(k as int));
            assert(keys.take(k + 1).last() == key);
            assert(batch_parts(piece) =~= chunks(records_of_table(s, key), n).map_values(
                |c: Seq<WalRecord>| (table_topic_text(prefix@, key.0, key.1), c),
            ));
            assert(batch_parts(batches@) =~= batch_parts(prev) + batch_parts(piece));
            assert forall|i: int| 0 <= i < batches@.len() implies (#[trigger] batches@[i]).wal_end == wal_end
                && batches@[i].created_at == created_at by {
                if i >= prev.len() {
                    assert(batches@[i] == piece[i - prev.len()]);
                }
            }
        }
    }
    assert(keys.take(all_groups.len() as int) =~= keys);
    assert(batch_parts(batches@) == plan);
    assert(plan_of(recs, wal_end, prefix@, n, batch_parts(batches@)));
    XLogPlan::Enqueue { records_parsed, batches }
}

} // verus!
