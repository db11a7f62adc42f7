//! Decisions of the replication loop and of the batch publishers.
//!
//! Records decoded from one WAL message are grouped by table and split into
//! batches; a fence counts, per WAL position, the batches still unpublished, and
//! the confirmed position advances only over positions whose batches have all
//! been acknowledged, lowest first. Publishers coalesce consecutive batches of
//! one topic into a single publication.
use vstd::prelude::*;
use crate::wal_parser::WalRecord;
use crate::state::PendingBatch;

verus! {

/// The table a record belongs to: its schema and table name.
pub open spec fn table_key(r: WalRecord) -> (Seq<char>, Seq<char>) {
    (r.table_schema@, r.table_name@)
}

/// The tables of a list of records, each once, in order of first appearance.
pub open spec fn first_keys(s: Seq<WalRecord>) -> Seq<(Seq<char>, Seq<char>)>
    decreases s.len(),
{
    if s.len() == 0 {
        Seq::empty()
    } else {
        let ks = first_keys(s.drop_last());
        if ks.contains(table_key(s.last())) {
            ks
        } else {
            ks.push(table_key(s.last()))
        }
    }
}

/// The records of one table, in their order.
pub open spec fn records_of_table(s: Seq<WalRecord>, k: (Seq<char>, Seq<char>)) -> Seq<WalRecord>
    decreases s.len(),
{
    if s.len() == 0 {
        Seq::empty()
    } else {
        let p = records_of_table(s.drop_last(), k);
        if table_key(s.last()) == k {
            p.push(s.last())
        } else {
            p
        }
    }
}

/// The records of one table.
pub struct TableGroup {
    pub table_schema: String,
    pub table_name: String,
    pub records: Vec<WalRecord>,
}

/// `groups` holds the records of `s` by table: one group per table, tables in
/// order of first appearance, each group with that table's records in order.
pub open spec fn grouped_by_table(groups: Seq<TableGroup>, s: Seq<WalRecord>) -> bool {
    &&& groups.len() == first_keys(s).len()
    &&& forall|i: int|
        0 <= i < groups.len() ==> {
            &&& (#[trigger] groups[i]).table_schema@ == first_keys(s)[i].0
            &&& groups[i].table_name@ == first_keys(s)[i].1
            &&& groups[i].records@ == records_of_table(s, first_keys(s)[i])
        }
}

proof fn lemma_first_keys_contains(s: Seq<WalRecord>, k: (Seq<char>, Seq<char>))
    ensures
        !first_keys(s).contains(k) ==> records_of_table(s, k) == Seq::<WalRecord>::empty(),
        first_keys(s).no_duplicates(),
    decreases s.len(),
{
    if s.len() > 0 {
        lemma_first_keys_contains(s.drop_last(), k);
        let ks = first_keys(s.drop_last());
        if !ks.contains(table_key(s.last())) {
            assert(ks.push(table_key(s.last())).no_duplicates()) by {
                assert forall|i: int, j: int|
                    0 <= i < j < ks.len() + 1 implies ks.push(table_key(s.last()))[i] != ks.push(
                        table_key(s.last()),
                    )[j] by {
                    if j == ks.len() {
                        assert(ks[i] == ks.push(table_key(s.last()))[i]);
                    }
                }
            }
        }
        if !first_keys(s).contains(k) {
            if table_key(s.last()) == k {
                if ks.contains(k) {
                } else {
                    assert(first_keys(s)[ks.len() as int] == k);
                }
            }
            assert(!ks.contains(k)) by {
                if ks.contains(k) {
                    let i = choose|i: int| 0 <= i < ks.len() && ks[i] == k;
                    assert(first_keys(s)[i] == k);
                }
            }
        }
    }
}

/// The position of the group of table `(schema, table)`, if there is one.
fn find_group(groups: &Vec<TableGroup>, schema: &String, table: &String) -> (r: Option<usize>)
    ensures
        match r {
            Some(j) => j < groups@.len() && groups@[j as int].table_schema@ == schema@ && groups@[j as int].table_name@ == table@,
            None => forall|i: int| 0 <= i < groups@.len() ==> (#[trigger] groups@[i]).table_schema@ != schema@ || groups@[i].table_name@ != table@,
        },
{
    let mut j: usize = 0;
    while j < groups.len()
        invariant
            j <= groups@.len(),
            forall|i: int| 0 <= i < j ==> (#[trigger] groups@[i]).table_schema@ != schema@ || groups@[i].table_name@ != table@,
        decreases groups@.len() - j,
    {
        if groups[j].table_schema == *schema && groups[j].table_name == *table {
            return Some(j);
        }
        j = j + 1;
    }
    None
}

/// Groups records by table, keeping each table's records in order and the
/// tables in order of first appearance.
pub fn group_by_table(records: Vec<WalRecord>) -> (groups: Vec<TableGroup>)
    ensures
        grouped_by_table(groups@, records@),
{
    let ghost all = records@;
    let mut groups: Vec<TableGroup> = Vec::new();
    for r in it: records
        invariant
            it.seq() == all,
            grouped_by_table(groups@, all.take(it.index() as int)),
    {
        let ghost p = all.take(it.index() as int);
        let ghost p2 = all.take(it.index() + 1);
        assert(p2.drop_last() =~= p);
        assert(p2.last() == r);
        proof {
            lemma_first_keys_contains(p, table_key(r));
            lemma_first_keys_contains(p2, table_key(r));
        }
        let ghost ks = first_keys(p);
        let pos = find_group(&groups, &r.table_schema, &r.table_name);
        if let Some(j) = pos {
            assert(ks[j as int] == table_key(r));
            assert(ks.contains(table_key(r)));
            let mut g = groups.remove(j);
            g.records.push(r);
            groups.insert(j, g);
            assert forall|i: int| 0 <= i < groups@.len() implies {
                &&& (#[trigger] groups@[i]).table_schema@ == first_keys(p2)[i].0
                &&& groups@[i].table_name@ == first_keys(p2)[i].1
                &&& groups@[i].records@ == records_of_table(p2, first_keys(p2)[i])
            } by {
                if i != j {
                    assert(ks[i] != ks[j as int]);
                }
            }
        } else {
            assert(!ks.contains(table_key(r))) by {
                if ks.contains(table_key(r)) {
                    let i = choose|i: int| 0 <= i < ks.len() && ks[i] == table_key(r);
                    assert(groups@[i].table_schema@ == ks[i].0);
                    assert(groups@[i].table_name@ == ks[i].1);
                }
            }
            let g = TableGroup { table_schema: r.table_schema.clone(), table_name: r.table_name.clone(), records: vec![r] };
            let ghost gv = g.records@;
            assert(gv =~= seq![r]);
            assert(records_of_table(p, table_key(r)) == Seq::<WalRecord>::empty());
            groups.push(g);
            assert forall|i: int| 0 <= i < groups@.len() implies {
                &&& (#[trigger] groups@[i]).table_schema@ == first_keys(p2)[i].0
                &&& groups@[i].table_name@ == first_keys(p2)[i].1
                &&& groups@[i].records@ == records_of_table(p2, first_keys(p2)[i])
            } by {
                if i < ks.len() {
                    assert(ks[i] != table_key(r));
                } else {
                    assert(records_of_table(p2, table_key(r)) =~= seq![r]);
                }
            }
        }
    }
    assert(all.take(all.len() as int) =~= all);
    groups
}

/// A list cut into consecutive chunks of `n` items, the last possibly shorter.
pub open spec fn chunks<T>(s: Seq<T>, n: nat) -> Seq<Seq<T>>
    decreases s.len(),
{
    if s.len() == 0 || n == 0 {
        Seq::empty()
    } else if s.len() <= n {
        seq![s]
    } else {
        seq![s.take(n as int)] + chunks(s.skip(n as int), n)
    }
}

/// The number of chunks of `n` items a list of `len` items takes.
pub open spec fn chunk_count(len: nat, n: nat) -> nat {
    if n == 0 {
        0
    } else {
        ((len + n - 1) / n as int) as nat
    }
}

proof fn lemma_chunks_len<T>(s: Seq<T>, n: nat)
    requires
        n > 0,
    ensures
        chunks(s, n).len() == chunk_count(s.len(), n),
        forall|i: int| 0 <= i < chunks(s, n).len() ==> (#[trigger] chunks(s, n)[i]).len() > 0,
    decreases s.len(),
{
    if s.len() == 0 {
        assert((n - 1) / (n as int) == 0) by (nonlinear_arith)
            requires
                n > 0,
        ;
    } else if s.len() <= n {
        assert((s.len() + n - 1) / (n as int) == 1) by (nonlinear_arith)
            requires
                0 < s.len() <= n,
        ;
    } else {
        lemma_chunks_len(s.skip(n as int), n);
        assert(((s.len() - n) + n - 1) / (n as int) + 1 == (s.len() + n - 1) / (n as int)) by (nonlinear_arith)
            requires
                n > 0,
                s.len() > n,
        ;
        assert forall|i: int| 0 <= i < chunks(s, n).len() implies (#[trigger] chunks(s, n)[i]).len() > 0 by {
            if i > 0 {
                assert(chunks(s, n)[i] == chunks(s.skip(n as int), n)[i - 1]);
            }
        }
    }
}

/// Splits the records of one table into batches of at most
/// `max_records_per_batch`, each stamped with the topic, the WAL end of the
/// message they came from, and the creation time.
pub fn split_into_batches(
    topic: &str,
    records: Vec<WalRecord>,
    max_records_per_batch: usize,
    wal_end: u64,
    created_at: u64,
) -> (batches: Vec<PendingBatch>)
    requires
        max_records_per_batch > 0,
    ensures
        batches@.len() == chunks(records@, max_records_per_batch as nat).len(),
        forall|i: int|
            0 <= i < batches@.len() ==> {
                &&& (#[trigger] batches@[i]).records@ == chunks(records@, max_records_per_batch as nat)[i]
                &&& batches@[i].topic@ == topic@
                &&& batches@[i].wal_end == wal_end
                &&& batches@[i].created_at == created_at
            },
{
    let ghost n = max_records_per_batch as nat;
    let ghost all = records@;
    let mut batches: Vec<PendingBatch> = Vec::new();
    let mut rest = records;
    while rest.len() > 0
        invariant
            n == max_records_per_batch,
            n > 0,
            chunks(all, n) == batches@.map_values(|b: PendingBatch| b.records@) + chunks(rest@, n),
            forall|i: int|
                0 <= i < batches@.len() ==> {
                    &&& (#[trigger] batches@[i]).topic@ == topic@
                    &&& batches@[i].wal_end == wal_end
                    &&& batches@[i].created_at == created_at
                },
        decreases rest@.len(),
    {
        let cut = if rest.len() <= max_records_per_batch {
            rest.len()
        } else {
            max_records_per_batch
        };
        let ghost before = rest@;
        let tail = rest.split_off(cut);
        let chunk = rest;
        rest = tail;
        let ghost prev = batches@;
        batches.push(PendingBatch { records: chunk, wal_end, created_at, topic: String::from_str(topic) });
        proof {
            if before.len() <= n {
                assert(chunk@ =~= before);
                assert(rest@ =~= Seq::<WalRecord>::empty());
            }
            assert(chunks(before, n) =~= seq![chunk@] + chunks(rest@, n));
            assert(batches@.map_values(|b: PendingBatch| b.records@) =~= prev.map_values(|b: PendingBatch| b.records@).push(chunk@));
        }
    }
    assert(chunks(rest@, n) =~= Seq::<Seq<WalRecord>>::empty());
    assert forall|i: int| 0 <= i < batches@.len() implies (#[trigger] batches@[i]).records@ == chunks(all, n)[i] by {
        assert(batches@.map_values(|b: PendingBatch| b.records@)[i] == batches@[i].records@);
    }
    batches
}

/// The number of batches the groups split into, `max_records_per_batch` records
/// at most each.
pub open spec fn batches_for(groups: Seq<TableGroup>, max_records_per_batch: nat) -> nat
    decreases groups.len(),
{
    if groups.len() == 0 {
        0
    } else {
        batches_for(groups.drop_last(), max_records_per_batch) + chunk_count(
            groups.last().records@.len(),
            max_records_per_batch,
        )
    }
}

/// Counts the batches the groups will split into, before any is queued, so that
/// the fence of the WAL position is in place before a publisher can acknowledge.
pub fn count_batches(groups: &Vec<TableGroup>, max_records_per_batch: usize) -> (n: usize)
    requires
        max_records_per_batch > 0,
        batches_for(groups@, max_records_per_batch as nat) <= usize::MAX,
    ensures
        n == batches_for(groups@, max_records_per_batch as nat),
{
    let mut total: usize = 0;
    let mut i: usize = 0;
    while i < groups.len()
        invariant
            i <= groups@.len(),
            max_records_per_batch > 0,
            total == batches_for(groups@.take(i as int), max_records_per_batch as nat),
            batches_for(groups@, max_records_per_batch as nat) <= usize::MAX,
        decreases groups@.len() - i,
    {
        assert(groups@.take(i + 1).drop_last() =~= groups@.take(i as int));
        proof {
            lemma_batches_prefix(groups@, i as int + 1, max_records_per_batch as nat);
        }
        let len = groups[i].records.len();
        proof {
            lemma_chunk_count_exact(len as nat, max_records_per_batch as nat);
        }
        let chunks_here = if len % max_records_per_batch == 0 {
            len / max_records_per_batch
        } else {
            len / max_records_per_batch + 1
        };
        total = total + chunks_here;
        i = i + 1;
    }
    assert(groups@.take(groups@.len() as int) =~= groups@);
    total
}

pub(crate) proof fn lemma_chunk_count_exact(len: nat, n: nat)
    requires
        n > 0,
    ensures
        chunk_count(len, n) == len / n + if len % n == 0 { 0nat } else { 1nat },
        chunk_count(len, n) <= len,
{
    let q = len / n;
    let r = len % n;
    assert(len == q * n + r && 0 <= r < n) by (nonlinear_arith)
        requires
            n > 0,
            q == len / n,
            r == len % n,
    ;
    if r == 0 {
        assert((len + n - 1) / (n as int) == q) by (nonlinear_arith)
            requires
                n > 0,
                len == q * n,
        ;
        assert(q <= len) by (nonlinear_arith)
            requires
                n > 0,
                len == q * n,
        ;
    } else {
        assert((len + n - 1) / (n as int) == q + 1) by (nonlinear_arith)
            requires
                n > 0,
                len == q * n + r,
                0 < r < n,
        ;
        assert(q + 1 <= len) by (nonlinear_arith)
            requires
                n > 0,
                len == q * n + r,
                0 < r < n,
        ;
    }
}

proof fn lemma_batches_prefix(groups: Seq<TableGroup>, k: int, n: nat)
    requires
        0 <= k <= groups.len(),
    ensures
        batches_for(groups.take(k), n) <= batches_for(groups, n),
    decreases groups.len(),
{
    if k < groups.len() {
        assert(groups.drop_last().take(k) =~= groups.take(k));
        lemma_batches_prefix(groups.drop_last(), k, n);
    } else {
        assert(groups.take(k) =~= groups);
    }
}

/// The records with every LSN of zero replaced by `wal_end`.
pub open spec fn stamped(s: Seq<WalRecord>, wal_end: u64) -> Seq<crate::wal_parser::WalRecordView> {
    Seq::new(
        s.len(),
        |i: int|
            if s[i].lsn == 0 {
                crate::wal_parser::WalRecordView { lsn: wal_end, ..s[i]@ }
            } else {
                s[i]@
            },
    )
}

/// Gives every record without an LSN (zero) the WAL end of its message.
pub fn stamp_lsn(records: Vec<WalRecord>, wal_end: u64) -> (r: Vec<WalRecord>)
    ensures
        crate::wal_parser::records_view(r@) == stamped(records@, wal_end),
{
    let ghost all = records@;
    let mut out: Vec<WalRecord> = Vec::new();
    for rec in it: records
        invariant
            it.seq() == all,
            crate::wal_parser::records_view(out@) =~= stamped(all, wal_end).take(it.index() as int),
    {
        let mut rec = rec;
        if rec.lsn == 0 {
            rec.lsn = wal_end;
        }
        let ghost prev = out@;
        out.push(rec);
        assert(crate::wal_parser::records_view(out@) =~= crate::wal_parser::records_view(prev).push(rec@));
    }
    assert(stamped(all, wal_end).take(all.len() as int) =~= stamped(all, wal_end));
    out
}

/// Fence entries are ordered by strictly increasing WAL position.
pub open spec fn fences_sorted(f: Seq<(u64, usize)>) -> bool {
    forall|i: int, j: int| 0 <= i < j < f.len() ==> f[i].0 < f[j].0
}

/// Position `w` has a fence.
pub open spec fn has_fence(f: Seq<(u64, usize)>, w: u64) -> bool {
    exists|i: int| 0 <= i < f.len() && f[i].0 == w
}

/// The pending batch count of position `w`, zero when it has no fence.
pub open spec fn fence_count(f: Seq<(u64, usize)>, w: u64) -> nat
    decreases f.len(),
{
    if f.len() == 0 {
        0
    } else if f.last().0 == w {
        f.last().1 as nat
    } else {
        fence_count(f.drop_last(), w)
    }
}

/// The fences after one batch of position `w` was acknowledged: its count goes
/// down by one, not below zero.
pub open spec fn after_ack(f: Seq<(u64, usize)>, w: u64) -> Seq<(u64, usize)> {
    Seq::new(
        f.len(),
        |i: int|
            if f[i].0 == w && f[i].1 > 0 {
                (f[i].0, (f[i].1 - 1) as usize)
            } else {
                f[i]
            },
    )
}

/// How many fences at the front have no pending batch left.
pub open spec fn cleared_prefix(f: Seq<(u64, usize)>) -> nat
    decreases f.len(),
{
    if f.len() > 0 && f[0].1 == 0 {
        1 + cleared_prefix(f.drop_first())
    } else {
        0
    }
}

/// Every fence lies above position `c`.
pub open spec fn fences_above(f: Seq<(u64, usize)>, c: u64) -> bool {
    forall|i: int| 0 <= i < f.len() ==> f[i].0 > c
}

proof fn lemma_cleared_prefix_bounds(f: Seq<(u64, usize)>)
    ensures
        cleared_prefix(f) <= f.len(),
        forall|i: int| 0 <= i < cleared_prefix(f) ==> f[i].1 == 0,
        cleared_prefix(f) < f.len() ==> f[cleared_prefix(f) as int].1 > 0,
    decreases f.len(),
{
    if f.len() > 0 && f[0].1 == 0 {
        lemma_cleared_prefix_bounds(f.drop_first());
        assert forall|i: int| 0 <= i < cleared_prefix(f) implies f[i].1 == 0 by {
            if i > 0 {
                assert(f[i] == f.drop_first()[i - 1]);
            }
        }
        if cleared_prefix(f) < f.len() {
            assert(f[cleared_prefix(f) as int] == f.drop_first()[cleared_prefix(f.drop_first()) as int]);
        }
    }
}

proof fn lemma_fences_above_has(f: Seq<(u64, usize)>)
    ensures
        forall|c: u64| fences_above(f, c) <==> (forall|x: u64| #[trigger] has_fence(f, x) ==> x > c),
{
    assert forall|c: u64| fences_above(f, c) <==> (forall|x: u64| #[trigger] has_fence(f, x) ==> x > c) by {
        if fences_above(f, c) {
            assert forall|x: u64| #[trigger] has_fence(f, x) implies x > c by {
                let i = choose|i: int| 0 <= i < f.len() && f[i].0 == x;
            }
        }
        if forall|x: u64| #[trigger] has_fence(f, x) ==> x > c {
            assert forall|i: int| 0 <= i < f.len() implies f[i].0 > c by {
                assert(has_fence(f, f[i].0));
            }
        }
    }
}

/// Law: an acknowledgement confirms only positions all of whose batches have
/// been acknowledged, sweeps every such position at the front, confirms them in
/// increasing order, and leaves every remaining fence above the last position it
/// confirmed.
pub proof fn lemma_acknowledge_sweep(f: Seq<(u64, usize)>, w: u64)
    requires
        fences_sorted(f),
    ensures
        ({
            let a = after_ack(f, w);
            let p = cleared_prefix(a) as int;
            &&& p <= a.len()
            &&& forall|i: int| 0 <= i < p ==> a[i].1 == 0
            &&& p < a.len() ==> a[p].1 > 0
            &&& strictly_increasing(a.take(p).map_values(|e: (u64, usize)| e.0))
            &&& p > 0 ==> fences_above(a.skip(p), a[p - 1].0)
        }),
{
    let a = after_ack(f, w);
    let p = cleared_prefix(a) as int;
    lemma_cleared_prefix_bounds(a);
    assert(fences_sorted(a));
    let c = a.take(p).map_values(|e: (u64, usize)| e.0);
    assert forall|i: int, j: int| 0 <= i < j < c.len() implies c[i] < c[j] by {
        assert(c[i] == a[i].0);
        assert(c[j] == a[j].0);
    }
    if p > 0 {
        assert forall|i: int| 0 <= i < a.skip(p).len() implies a.skip(p)[i].0 > a[p - 1].0 by {
            assert(a.skip(p)[i] == a[p + i]);
        }
    }
}

/// Law: while every fence lies above the confirmed position, an acknowledgement
/// never moves the confirmed position back, and every fence left still lies
/// above the position confirmed after it.
pub proof fn lemma_acknowledge_monotone(f: Seq<(u64, usize)>, confirmed: u64, w: u64)
    requires
        fences_sorted(f),
        fences_above(f, confirmed),
    ensures
        ({
            let a = after_ack(f, w);
            let p = cleared_prefix(a) as int;
            let next = if p > 0 { a[p - 1].0 } else { confirmed };
            &&& next >= confirmed
            &&& fences_above(a.skip(p), next)
        }),
{
    let a = after_ack(f, w);
    let p = cleared_prefix(a) as int;
    lemma_acknowledge_sweep(f, w);
    assert forall|i: int| 0 <= i < a.skip(p).len() implies a.skip(p)[i].0 > confirmed by {
        assert(a.skip(p)[i] == a[p + i]);
        assert(a[p + i].0 == f[p + i].0);
    }
    if p > 0 {
        assert(a[p - 1].0 == f[p - 1].0);
    }
}

/// The fences and the confirmed position after one batch of position `w` is
/// acknowledged: the batch is counted off, then every fence at the front that
/// has no batch left is cleared and confirmed.
pub open spec fn ack_step(f: Seq<(u64, usize)>, confirmed: u64, w: u64) -> (Seq<(u64, usize)>, u64) {
    let a = after_ack(f, w);
    let p = cleared_prefix(a) as int;
    (a.skip(p), if p > 0 { a[p - 1].0 } else { confirmed })
}

/// The fences and the confirmed position after `n` batches of position `w` are
/// acknowledged one after the other.
pub open spec fn ack_repeated(f: Seq<(u64, usize)>, confirmed: u64, w: u64, n: nat) -> (Seq<(u64, usize)>, u64)
    decreases n,
{
    if n == 0 {
        (f, confirmed)
    } else {
        let s = ack_step(f, confirmed, w);
        ack_repeated(s.0, s.1, w, (n - 1) as nat)
    }
}

/// Law: when `w` is the lowest position with pending batches, `n` of them,
/// acknowledging those `n` batches confirms `w` (or a position above it whose
/// batches were all acknowledged already) and leaves no fence at `w`.
pub proof fn lemma_all_batches_confirm(f: Seq<(u64, usize)>, confirmed: u64, w: u64, n: nat)
    requires
        fences_sorted(f),
        f.len() > 0,
        f[0].0 == w,
        f[0].1 == n,
        n > 0,
    ensures
        ack_repeated(f, confirmed, w, n).1 >= w,
        !has_fence(ack_repeated(f, confirmed, w, n).0, w),
    decreases n,
{
    let a = after_ack(f, w);
    assert(fences_sorted(a));
    assert(a[0] == (w, (n - 1) as usize));
    lemma_cleared_prefix_bounds(a);
    if n == 1 {
        let p = cleared_prefix(a) as int;
        assert(p >= 1);
        assert(a[p - 1].0 >= a[0].0);
        let rest = a.skip(p);
        assert(ack_repeated(f, confirmed, w, n) == ack_repeated(rest, a[p - 1].0, w, 0));
        assert(!has_fence(rest, w)) by {
            if has_fence(rest, w) {
                let i = choose|i: int| 0 <= i < rest.len() && rest[i].0 == w;
                assert(rest[i] == a[p + i]);
            }
        }
    } else {
        assert(cleared_prefix(a) == 0);
        assert(a.skip(0) =~= a);
        assert(ack_step(f, confirmed, w) == (a, confirmed));
        lemma_all_batches_confirm(a, confirmed, w, (n - 1) as nat);
    }
}

/// Law: acknowledging a position that has no fence leaves the fences as they are.
pub proof fn lemma_unfenced_ack_is_noop(f: Seq<(u64, usize)>, w: u64)
    requires
        !has_fence(f, w),
    ensures
        after_ack(f, w) == f,
{
    assert forall|i: int| 0 <= i < f.len() implies after_ack(f, w)[i] == f[i] by {
        assert(f[i].0 != w);
    }
    assert(after_ack(f, w) =~= f);
}

/// The fences are in step with a ledger of batches: `enqueued(w)` batches of
/// position `w` were handed to the publishers and `published(w)` of them were
/// acknowledged. Every fence lies above the confirmed position and holds the
/// batches of its position still unpublished.
pub open spec fn ledger_matches(
    f: Seq<(u64, usize)>,
    confirmed: u64,
    enqueued: spec_fn(u64) -> nat,
    published: spec_fn(u64) -> nat,
) -> bool {
    &&& fences_sorted(f)
    &&& fences_above(f, confirmed)
    &&& forall|w: u64| published(w) + #[trigger] fence_count(f, w) == enqueued(w)
}

/// A ledger with one more entry at position `w`.
pub open spec fn ledger_add(counts: spec_fn(u64) -> nat, w: u64, n: nat) -> spec_fn(u64) -> nat {
    |v: u64| if v == w { counts(v) + n } else { counts(v) }
}

/// Law: an empty tracker is in step with an empty ledger.
pub proof fn lemma_ledger_starts_empty()
    ensures
        ledger_matches(Seq::empty(), 0, |w: u64| 0nat, |w: u64| 0nat),
{
    assert forall|w: u64| (|w: u64| 0nat)(w) + #[trigger] fence_count(Seq::<(u64, usize)>::empty(), w) == (|w: u64| 0nat)(w) by {
        lemma_fence_count_absent(Seq::<(u64, usize)>::empty(), w);
    }
}

/// Law: adding `n` batches of a position above the confirmed one, as
/// `add_batches` does (its `ensures` are the premises on `after`), keeps the
/// tracker in step with the ledger that counts them as enqueued.
pub proof fn lemma_ledger_add_batches(
    f: Seq<(u64, usize)>,
    confirmed: u64,
    enqueued: spec_fn(u64) -> nat,
    published: spec_fn(u64) -> nat,
    after: Seq<(u64, usize)>,
    wal_end: u64,
    n: nat,
)
    requires
        ledger_matches(f, confirmed, enqueued, published),
        wal_end > confirmed,
        fences_sorted(after),
        forall|w: u64|
            #[trigger] fence_count(after, w) == if w == wal_end {
                fence_count(f, w) + n
            } else {
                fence_count(f, w)
            },
        forall|c: u64| fences_above(f, c) && wal_end > c ==> #[trigger] fences_above(after, c),
    ensures
        ledger_matches(after, confirmed, ledger_add(enqueued, wal_end, n), published),
{
    assert(fences_above(after, confirmed));
    assert forall|w: u64| published(w) + #[trigger] fence_count(after, w) == ledger_add(enqueued, wal_end, n)(w) by {
        assert(published(w) + fence_count(f, w) == enqueued(w));
    }
}

proof fn lemma_fence_count_of_index(f: Seq<(u64, usize)>, w: u64)
    requires
        fences_sorted(f),
    ensures
        forall|j: int| 0 <= j < f.len() && f[j].0 == w ==> fence_count(f, w) == #[trigger] f[j].1,
        (forall|j: int| 0 <= j < f.len() ==> f[j].0 != w) ==> fence_count(f, w) == 0,
{
    assert forall|j: int| 0 <= j < f.len() && f[j].0 == w implies fence_count(f, w) == #[trigger] f[j].1 by {
        lemma_fence_count_at(f, j);
    }
    if forall|j: int| 0 <= j < f.len() ==> f[j].0 != w {
        lemma_fence_count_absent(f, w);
    }
}

/// Law: acknowledging one more published batch of a position that still has
/// one unpublished, as `acknowledge` does, keeps the tracker in step with the
/// ledger that counts it as published, and the confirmed position does not go
/// back.
pub proof fn lemma_ledger_acknowledge(
    f: Seq<(u64, usize)>,
    confirmed: u64,
    enqueued: spec_fn(u64) -> nat,
    published: spec_fn(u64) -> nat,
    wal_end: u64,
)
    requires
        ledger_matches(f, confirmed, enqueued, published),
        published(wal_end) < enqueued(wal_end),
    ensures
        ({
            let a = after_ack(f, wal_end);
            let p = cleared_prefix(a) as int;
            let next = if p > 0 { a[p - 1].0 } else { confirmed };
            &&& next >= confirmed
            &&& ledger_matches(a.skip(p), next, enqueued, ledger_add(published, wal_end, 1))
        }),
{
    let a = after_ack(f, wal_end);
    let p = cleared_prefix(a) as int;
    lemma_acknowledge_sweep(f, wal_end);
    lemma_acknowledge_monotone(f, confirmed, wal_end);
    assert forall|w: u64| ledger_add(published, wal_end, 1)(w) + #[trigger] fence_count(a.skip(p), w) == enqueued(w) by {
        lemma_ack_fence_count(f, wal_end, w);
        assert(published(w) + fence_count(f, w) == enqueued(w));
    }
}

/// After one acknowledgement and the sweep of cleared fences, a position's
/// count is one lower when it was the acknowledged one and had a batch left,
/// and the same otherwise.
proof fn lemma_ack_fence_count(f: Seq<(u64, usize)>, w0: u64, w: u64)
    requires
        fences_sorted(f),
    ensures
        fences_sorted(after_ack(f, w0).skip(cleared_prefix(after_ack(f, w0)) as int)),
        fence_count(after_ack(f, w0).skip(cleared_prefix(after_ack(f, w0)) as int), w) == fence_count(f, w) - if w
            == w0 && fence_count(f, w) > 0 {
            1int
        } else {
            0int
        },
{
    let a = after_ack(f, w0);
    let p = cleared_prefix(a) as int;
    let rest = a.skip(p);
    lemma_acknowledge_sweep(f, w0);
    assert(fences_sorted(a));
    assert(fences_sorted(rest));
    lemma_fence_count_of_index(f, w);
    lemma_fence_count_of_index(a, w);
    lemma_fence_count_of_index(rest, w);
    if exists|j: int| 0 <= j < f.len() && f[j].0 == w {
        let j = choose|j: int| 0 <= j < f.len() && f[j].0 == w;
        assert(fence_count(f, w) == f[j].1);
        assert(a[j].0 == w);
        assert(fence_count(a, w) == a[j].1);
        if j < p {
            assert(a[j].1 == 0);
            assert forall|k: int| 0 <= k < rest.len() implies rest[k].0 != w by {
                assert(rest[k] == a[k + p]);
            }
            assert(fence_count(rest, w) == 0);
        } else {
            assert(rest[j - p] == a[j]);
            assert(fence_count(rest, w) == rest[j - p].1);
        }
    } else {
        assert forall|k: int| 0 <= k < rest.len() implies rest[k].0 != w by {
            assert(rest[k] == a[k + p]);
            assert(a[k + p].0 == f[k + p].0);
        }
        assert(fence_count(f, w) == 0);
        assert(fence_count(rest, w) == 0);
    }
}

/// Law: while the tracker is in step with the ledger, every batch of a position
/// at or below the confirmed one has been published: confirmation never passes
/// an unpublished batch.
pub proof fn lemma_confirmed_positions_published(
    f: Seq<(u64, usize)>,
    confirmed: u64,
    enqueued: spec_fn(u64) -> nat,
    published: spec_fn(u64) -> nat,
)
    requires
        ledger_matches(f, confirmed, enqueued, published),
    ensures
        forall|w: u64| w <= confirmed ==> #[trigger] published(w) == enqueued(w),
{
    assert forall|w: u64| w <= confirmed implies #[trigger] published(w) == enqueued(w) by {
        lemma_fence_count_of_index(f, w);
        assert(fence_count(f, w) == 0) by {
            assert forall|j: int| 0 <= j < f.len() implies f[j].0 != w by {}
        }
        assert(published(w) + fence_count(f, w) == enqueued(w));
    }
}

/// Law: splitting loses, duplicates and reorders no record: the batches put
/// back together are the records, each batch holds between one and `n`
/// records, and there are `ceil(len / n)` batches.
pub proof fn lemma_split_partition<T>(s: Seq<T>, n: nat)
    requires
        n > 0,
    ensures
        chunks(s, n).flatten() == s,
        forall|i: int| 0 <= i < chunks(s, n).len() ==> 0 < (#[trigger] chunks(s, n)[i]).len() <= n,
        chunks(s, n).len() == chunk_count(s.len(), n),
    decreases s.len(),
{
    lemma_chunks_len(s, n);
    if s.len() == 0 {
        assert(chunks(s, n).flatten() =~= s);
    } else if s.len() <= n {
        assert(chunks(s, n) == seq![s]);
        seq![s].lemma_flatten_one_element();
        assert(chunks(s, n).flatten() =~= s);
    } else {
        lemma_split_partition(s.skip(n as int), n);
        let c = chunks(s, n);
        assert(c.first() == s.take(n as int));
        assert(c.drop_first() =~= chunks(s.skip(n as int), n));
        assert(c.flatten() =~= s.take(n as int) + s.skip(n as int));
        assert(s.take(n as int) + s.skip(n as int) =~= s);
        assert forall|i: int| 0 <= i < c.len() implies 0 < (#[trigger] c[i]).len() <= n by {
            if i > 0 {
                assert(c[i] == chunks(s.skip(n as int), n)[i - 1]);
            }
        }
    }
}

/// The number of records in the groups of the tables `ks`.
pub open spec fn grouped_total(s: Seq<WalRecord>, ks: Seq<(Seq<char>, Seq<char>)>) -> nat
    decreases ks.len(),
{
    if ks.len() == 0 {
        0
    } else {
        grouped_total(s, ks.drop_last()) + records_of_table(s, ks.last()).len()
    }
}

proof fn lemma_grouped_total_push(s: Seq<WalRecord>, r: WalRecord, ks: Seq<(Seq<char>, Seq<char>)>)
    requires
        ks.no_duplicates(),
    ensures
        grouped_total(s.push(r), ks) == grouped_total(s, ks) + if ks.contains(table_key(r)) { 1nat } else { 0nat },
    decreases ks.len(),
{
    assert(s.push(r).drop_last() =~= s);
    if ks.len() > 0 {
        let rest = ks.drop_last();
        assert(rest.no_duplicates()) by {
            assert forall|i: int, j: int| 0 <= i < j < rest.len() implies rest[i] != rest[j] by {
                assert(rest[i] == ks[i] && rest[j] == ks[j]);
            }
        }
        lemma_grouped_total_push(s, r, rest);
        if ks.last() == table_key(r) {
            assert(!rest.contains(table_key(r))) by {
                if rest.contains(table_key(r)) {
                    let i = choose|i: int| 0 <= i < rest.len() && rest[i] == table_key(r);
                    assert(ks[i] == ks[ks.len() - 1]);
                }
            }
            assert(ks.contains(table_key(r))) by {
                assert(ks[ks.len() - 1] == table_key(r));
            }
        } else {
            assert(ks.contains(table_key(r)) == rest.contains(table_key(r))) by {
                if ks.contains(table_key(r)) {
                    let i = choose|i: int| 0 <= i < ks.len() && ks[i] == table_key(r);
                    assert(rest[i] == table_key(r));
                }
                if rest.contains(table_key(r)) {
                    let i = choose|i: int| 0 <= i < rest.len() && rest[i] == table_key(r);
                    assert(ks[i] == table_key(r));
                }
            }
        }
    }
}

/// Law: grouping by table loses and duplicates no record: every record's table
/// has a group, every group holds only records of its own table, and the groups
/// together hold exactly as many records as there were.
pub proof fn lemma_grouping_partition(s: Seq<WalRecord>)
    ensures
        forall|i: int| 0 <= i < s.len() ==> first_keys(s).contains(table_key(#[trigger] s[i])),
        forall|k: (Seq<char>, Seq<char>), j: int|
            0 <= j < records_of_table(s, k).len() ==> table_key(#[trigger] records_of_table(s, k)[j]) == k,
        grouped_total(s, first_keys(s)) == s.len(),
    decreases s.len(),
{
    if s.len() > 0 {
        let t = s.drop_last();
        let r = s.last();
        assert(t.push(r) =~= s);
        lemma_grouping_partition(t);
        lemma_first_keys_contains(t, table_key(r));
        let ks = first_keys(t);
        lemma_grouped_total_push(t, r, ks);
        assert forall|i: int| 0 <= i < s.len() implies first_keys(s).contains(table_key(#[trigger] s[i])) by {
            if i < t.len() {
                assert(s[i] == t[i]);
                let j = choose|j: int| 0 <= j < ks.len() && ks[j] == table_key(t[i]);
                assert(first_keys(s)[j] == ks[j]);
            } else if ks.contains(table_key(r)) {
                let j = choose|j: int| 0 <= j < ks.len() && ks[j] == table_key(r);
                assert(first_keys(s)[j] == ks[j]);
            } else {
                assert(first_keys(s)[ks.len() as int] == table_key(r));
            }
        }
        assert forall|k: (Seq<char>, Seq<char>), j: int|
            0 <= j < records_of_table(s, k).len() implies table_key(#[trigger] records_of_table(s, k)[j]) == k by {
            if table_key(r) == k && j == records_of_table(t, k).len() {
            } else {
                assert(records_of_table(s, k)[j] == records_of_table(t, k)[j]);
            }
        }
        if !ks.contains(table_key(r)) {
            let k = table_key(r);
            assert(first_keys(s) == ks.push(k));
            assert(ks.push(k).drop_last() =~= ks);
            lemma_grouped_total_push(t, r, ks);
            assert(records_of_table(t, k).len() == 0);
            assert(grouped_total(s, ks.push(k)) == grouped_total(s, ks) + records_of_table(s, k).len());
        }
    }
}

/// Per-WAL-position counts of batches still unpublished, and the position
/// confirmed to the server.
pub struct FenceTracker {
    fences: Vec<(u64, usize)>,
    confirmed: u64,
}

impl FenceTracker {
    /// The fences, by increasing WAL position.
    pub closed spec fn fences(&self) -> Seq<(u64, usize)> {
        self.fences@
    }

    /// The confirmed position.
    pub closed spec fn confirmed(&self) -> u64 {
        self.confirmed
    }

    /// Fences are ordered by strictly increasing position.
    pub closed spec fn wf(&self) -> bool {
        fences_sorted(self.fences@)
    }

    /// No fence and nothing confirmed.
    pub fn new() -> (t: Self)
        ensures
            t.wf(),
            t.fences() == Seq::<(u64, usize)>::empty(),
            t.confirmed() == 0,
    {
        FenceTracker { fences: Vec::new(), confirmed: 0 }
    }

    /// The confirmed position, reported to the server on keepalive.
    pub fn confirmed_lsn(&self) -> (r: u64)
        ensures
            r == self.confirmed(),
    {
        self.confirmed
    }

    /// The position to report in answer to a keepalive: the confirmed one when
    /// the server asks for a reply, none otherwise.
    pub fn keepalive_reply(&self, reply_requested: bool) -> (r: Option<u64>)
        ensures
            r == if reply_requested {
                Some(self.confirmed())
            } else {
                None::<u64>
            },
    {
        if reply_requested {
            Some(self.confirmed)
        } else {
            None
        }
    }

    /// The batches of position `wal_end` still unpublished.
    pub fn count_at(&self, wal_end: u64) -> (r: usize)
        ensures
            r == fence_count(self.fences(), wal_end),
    {
        let mut i: usize = self.fences.len();
        assert(self.fences@.take(i as int) =~= self.fences@);
        while i > 0
            invariant
                i <= self.fences@.len(),
                fence_count(self.fences@, wal_end) == fence_count(self.fences@.take(i as int), wal_end),
            decreases i,
        {
            assert(self.fences@.take(i as int).drop_last() =~= self.fences@.take(i - 1));
            if self.fences[i - 1].0 == wal_end {
                return self.fences[i - 1].1;
            }
            i = i - 1;
        }
        0
    }

    /// The number of positions with a fence.
    pub fn pending_fences(&self) -> (r: usize)
        ensures
            r == self.fences().len(),
    {
        self.fences.len()
    }

    /// Adds `n` pending batches to the fence of `wal_end`; nothing when `n` is zero.
    pub fn add_batches(&mut self, wal_end: u64, n: usize)
        requires
            old(self).wf(),
            fence_count(old(self).fences(), wal_end) + n <= usize::MAX,
        ensures
            final(self).wf(),
            final(self).confirmed() == old(self).confirmed(),
            forall|w: u64|
                #[trigger] fence_count(final(self).fences(), w) == if w == wal_end {
                    fence_count(old(self).fences(), w) + n
                } else {
                    fence_count(old(self).fences(), w) as int
                },
            forall|w: u64|
                #[trigger] has_fence(final(self).fences(), w) <==> (w == wal_end && n > 0 || has_fence(
                    old(self).fences(),
                    w,
                )),
            forall|c: u64|
                fences_above(old(self).fences(), c) && wal_end > c ==> #[trigger] fences_above(final(self).fences(), c),
    {
        if n == 0 {
            return;
        }
        proof {
            lemma_fences_above_has(self.fences@);
        }
        let ghost f = self.fences@;
        let mut i: usize = 0;
        while i < self.fences.len() && self.fences[i].0 < wal_end
            invariant
                i <= self.fences@.len(),
                self.fences@ == f,
                f == old(self).fences@,
                self.confirmed == old(self).confirmed,
                fences_sorted(f),
                forall|j: int| 0 <= j < i ==> f[j].0 < wal_end,
            decreases self.fences@.len() - i,
        {
            i = i + 1;
        }
        if i < self.fences.len() && self.fences[i].0 == wal_end {
            let c = self.fences[i].1;
            proof {
                lemma_fence_count_at(f, i as int);
            }
            self.fences.set(i, (wal_end, c + n));
            proof {
                lemma_fence_count_update(f, i as int, (c + n) as usize);
                assert forall|w: u64|
                    #[trigger] has_fence(self.fences@, w) <==> (w == wal_end && n > 0 || has_fence(f, w)) by {
                    if w == wal_end {
                        assert(self.fences@[i as int].0 == w);
                        assert(f[i as int].0 == w);
                    }
                    if exists|k: int| 0 <= k < f.len() && f[k].0 == w {
                        let k = choose|k: int| 0 <= k < f.len() && f[k].0 == w;
                        assert(self.fences@[k].0 == w);
                    }
                }
            }
        } else {
            self.fences.insert(i, (wal_end, n));
            proof {
                assert forall|k: int| 0 <= k < f.len() implies f[k].0 != wal_end by {
                    if k >= i {
                        assert(f[k].0 >= f[i as int].0);
                    }
                }
                lemma_fence_count_absent(f, wal_end);
                lemma_fence_count_insert(f, i as int, wal_end, n);
                assert forall|w: u64|
                    #[trigger] has_fence(self.fences@, w) <==> (w == wal_end && n > 0 || has_fence(f, w)) by {
                    if w == wal_end {
                        assert(self.fences@[i as int].0 == w);
                    }
                    if exists|k: int| 0 <= k < f.len() && f[k].0 == w {
                        let k = choose|k: int| 0 <= k < f.len() && f[k].0 == w;
                        if k < i {
                            assert(self.fences@[k].0 == w);
                        } else {
                            assert(self.fences@[k + 1].0 == w);
                        }
                    }
                    if exists|k: int| 0 <= k < self.fences@.len() && self.fences@[k].0 == w {
                        let k = choose|k: int| 0 <= k < self.fences@.len() && self.fences@[k].0 == w;
                        if k < i {
                            assert(f[k].0 == w);
                        } else if k > i {
                            assert(f[k - 1].0 == w);
                        }
                    }
                }
            }
        }
        proof {
            lemma_fences_above_has(self.fences@);
        }
    }

    /// Acknowledges one published batch of position `wal_end`, then clears every
    /// fence at the front whose batches are all published, lowest position first,
    /// confirming each. Returns the positions confirmed, in order.
    pub fn acknowledge(&mut self, wal_end: u64) -> (confirmed: Vec<u64>)
        requires
            old(self).wf(),
        ensures
            final(self).wf(),
            ({
                let a = after_ack(old(self).fences(), wal_end);
                let p = cleared_prefix(a);
                &&& confirmed@ == a.take(p as int).map_values(|e: (u64, usize)| e.0)
                &&& final(self).fences() == a.skip(p as int)
                &&& final(self).confirmed() == if p > 0 {
                    a[p - 1].0
                } else {
                    old(self).confirmed()
                }
            }),
            (final(self).fences(), final(self).confirmed()) == ack_step(old(self).fences(), old(self).confirmed(), wal_end),
    {
        let ghost f = self.fences@;
        let mut i: usize = 0;
        while i < self.fences.len()
            invariant
                i <= self.fences@.len(),
                self.fences@.len() == f.len(),
                f == old(self).fences@,
                self.confirmed == old(self).confirmed,
                fences_sorted(f),
                forall|k: int| 0 <= k < i ==> self.fences@[k] == after_ack(f, wal_end)[k],
                forall|k: int| i <= k < f.len() ==> self.fences@[k] == f[k],
            decreases self.fences@.len() - i,
        {
            if self.fences[i].0 == wal_end {
                let c = self.fences[i].1;
                if c > 0 {
                    self.fences.set(i, (wal_end, c - 1));
                }
            }
            i = i + 1;
        }
        let ghost a = after_ack(f, wal_end);
        assert(self.fences@ =~= a);
        assert(fences_sorted(a));
        let mut p: usize = 0;
        let mut out: Vec<u64> = Vec::new();
        assert(a.skip(0) =~= a);
        assert(a.take(0).map_values(|e: (u64, usize)| e.0) =~= Seq::<u64>::empty());
        while p < self.fences.len() && self.fences[p].1 == 0
            invariant
                p <= a.len(),
                self.fences@ == a,
                a == after_ack(old(self).fences@, wal_end),
                self.confirmed == old(self).confirmed,
                fences_sorted(a),
                cleared_prefix(a.skip(p as int)) + p == cleared_prefix(a),
                out@ == a.take(p as int).map_values(|e: (u64, usize)| e.0),
            decreases a.len() - p,
        {
            assert(a.skip(p as int).drop_first() =~= a.skip(p + 1));
            out.push(self.fences[p].0);
            assert(out@ =~= a.take(p + 1).map_values(|e: (u64, usize)| e.0));
            p = p + 1;
        }
        assert(cleared_prefix(a.skip(p as int)) == 0) by {
            if p < a.len() {
                assert(a.skip(p as int)[0] == a[p as int]);
            }
        }
        assert(p == cleared_prefix(a));
        if p > 0 {
            self.confirmed = self.fences[p - 1].0;
        }
        let rest = self.fences.split_off(p);
        self.fences = rest;
        assert(self.fences@ =~= a.skip(p as int));
        assert forall|i: int, j: int| 0 <= i < j < self.fences@.len() implies self.fences@[i].0 < self.fences@[j].0 by {
            assert(self.fences@[i] == a[i + p]);
            assert(self.fences@[j] == a[j + p]);
        }
        out
    }

    /// Confirms `wal_end` directly (raw publication), never moving backwards.
    pub fn confirm_direct(&mut self, wal_end: u64) -> (r: u64)
        requires
            old(self).wf(),
        ensures
            final(self).wf(),
            final(self).fences() == old(self).fences(),
            final(self).confirmed() == if wal_end > old(self).confirmed() {
                wal_end
            } else {
                old(self).confirmed()
            },
            r == final(self).confirmed(),
    {
        if wal_end > self.confirmed {
            self.confirmed = wal_end;
        }
        self.confirmed
    }
}

proof fn lemma_fence_count_at(f: Seq<(u64, usize)>, i: int)
    requires
        fences_sorted(f),
        0 <= i < f.len(),
    ensures
        fence_count(f, f[i].0) == f[i].1,
    decreases f.len(),
{
    if i < f.len() - 1 {
        lemma_fence_count_at(f.drop_last(), i);
    }
}

proof fn lemma_fence_count_absent(f: Seq<(u64, usize)>, w: u64)
    requires
        forall|k: int| 0 <= k < f.len() ==> f[k].0 != w,
    ensures
        fence_count(f, w) == 0,
    decreases f.len(),
{
    if f.len() > 0 {
        lemma_fence_count_absent(f.drop_last(), w);
    }
}

proof fn lemma_fence_count_update(f: Seq<(u64, usize)>, i: int, c: usize)
    requires
        fences_sorted(f),
        0 <= i < f.len(),
    ensures
        fences_sorted(f.update(i, (f[i].0, c))),
        forall|w: u64|
            #[trigger] fence_count(f.update(i, (f[i].0, c)), w) == if w == f[i].0 {
                c as nat
            } else {
                fence_count(f, w)
            },
    decreases f.len(),
{
    let g = f.update(i, (f[i].0, c));
    let last = f.len() - 1;
    if i < last {
        assert(g.drop_last() =~= f.drop_last().update(i, (f[i].0, c)));
        assert(f[i].0 < f[last].0);
        lemma_fence_count_update(f.drop_last(), i, c);
        assert forall|w: u64| #[trigger] fence_count(g, w) == if w == f[i].0 {
            c as nat
        } else {
            fence_count(f, w)
        } by {
            assert(g.last() == f.last());
            if w == f.last().0 {
                assert(fence_count(g, w) == g.last().1);
            } else {
                assert(fence_count(g, w) == fence_count(g.drop_last(), w));
                assert(fence_count(f, w) == fence_count(f.drop_last(), w));
            }
        }
    } else {
        assert(g.drop_last() =~= f.drop_last());
        assert forall|w: u64| #[trigger] fence_count(g, w) == if w == f[i].0 {
            c as nat
        } else {
            fence_count(f, w)
        } by {
            assert(g.last() == (f[i].0, c));
            if w != f[i].0 {
                assert(fence_count(g, w) == fence_count(g.drop_last(), w));
                assert(fence_count(f, w) == fence_count(f.drop_last(), w));
            }
        }
    }
}

proof fn lemma_fence_count_insert(f: Seq<(u64, usize)>, i: int, w0: u64, n: usize)
    requires
        fences_sorted(f),
        0 <= i <= f.len(),
        forall|k: int| 0 <= k < i ==> f[k].0 < w0,
        i < f.len() ==> f[i].0 > w0,
    ensures
        fences_sorted(f.insert(i, (w0, n))),
        forall|w: u64|
            #[trigger] fence_count(f.insert(i, (w0, n)), w) == if w == w0 {
                n as nat
            } else {
                fence_count(f, w)
            },
    decreases f.len(),
{
    let g = f.insert(i, (w0, n));
    assert forall|a: int, b: int| 0 <= a < b < g.len() implies g[a].0 < g[b].0 by {
        if b < i {
        } else if b == i {
        } else if a < i {
            assert(f[b - 1].0 >= f[i].0);
        } else if a == i {
            assert(f[b - 1].0 >= f[i].0);
        } else {
        }
    }
    if i == f.len() {
        assert(g.drop_last() =~= f);
        assert forall|w: u64| #[trigger] fence_count(g, w) == if w == w0 {
            n as nat
        } else {
            fence_count(f, w)
        } by {
            assert(g.last() == (w0, n));
            if w != w0 {
                assert(fence_count(g, w) == fence_count(g.drop_last(), w));
            }
        }
    } else {
        assert(g.drop_last() =~= f.drop_last().insert(i, (w0, n)));
        assert(f.last().0 >= f[i].0);
        lemma_fence_count_insert(f.drop_last(), i, w0, n);
        assert forall|w: u64| #[trigger] fence_count(g, w) == if w == w0 {
            n as nat
        } else {
            fence_count(f, w)
        } by {
            assert(g.last() == f.last());
            if w == f.last().0 {
                assert(fence_count(g, w) == g.last().1);
            } else {
                assert(fence_count(g, w) == fence_count(g.drop_last(), w));
                assert(fence_count(f, w) == fence_count(f.drop_last(), w));
            }
        }
    }
}

/// Consecutive batches of one topic gathered into a single publication.
pub struct MicroBatch {
    pub topic: String,
    pub records: Vec<WalRecord>,
    pub wal_ends: Vec<u64>,
    pub oldest_created_at: u64,
    pub source_batches: usize,
}

/// A list of positions is strictly increasing.
pub open spec fn strictly_increasing(s: Seq<u64>) -> bool {
    forall|i: int, j: int| 0 <= i < j < s.len() ==> s[i] < s[j]
}

impl MicroBatch {
    /// The WAL positions the gathered batches came from, each once, increasing.
    pub open spec fn covered(&self) -> Seq<u64> {
        self.wal_ends@
    }

    /// Gathering starts from one dequeued batch.
    pub fn start(first: PendingBatch) -> (m: Self)
        ensures
            m.topic == first.topic,
            m.records@ == first.records@,
            m.covered() == seq![first.wal_end],
            m.oldest_created_at == first.created_at,
            m.source_batches == 1,
    {
        let mut wal_ends: Vec<u64> = Vec::new();
        wal_ends.push(first.wal_end);
        MicroBatch {
            topic: first.topic,
            records: first.records,
            wal_ends,
            oldest_created_at: first.created_at,
            source_batches: 1,
        }
    }

    /// Whether the publication still has room below `max_records`.
    pub fn wants_more(&self, max_records: usize) -> (r: bool)
        ensures
            r == (self.records@.len() < max_records),
    {
        self.records.len() < max_records
    }

    /// Adds the next dequeued batch when it is of the same topic and the records
    /// together stay within `max_records`; otherwise hands it back, to be put
    /// back at the front of the queue.
    pub fn absorb(&mut self, next: PendingBatch, max_records: usize) -> (r: Result<(), PendingBatch>)
        requires
            strictly_increasing(old(self).covered()),
            old(self).source_batches < usize::MAX,
        ensures
            strictly_increasing(final(self).covered()),
            ({
                let fits = next.topic@ == old(self).topic@ && old(self).records@.len() + next.records@.len() <= max_records;
                &&& fits ==> {
                    &&& r is Ok
                    &&& final(self).topic == old(self).topic
                    &&& final(self).records@ == old(self).records@ + next.records@
                    &&& final(self).covered().to_set() == old(self).covered().to_set().insert(next.wal_end)
                    &&& final(self).oldest_created_at == if next.created_at < old(self).oldest_created_at {
                        next.created_at
                    } else {
                        old(self).oldest_created_at
                    }
                    &&& final(self).source_batches == old(self).source_batches + 1
                }
                &&& !fits ==> r == Err::<(), PendingBatch>(next) && *final(self) == *old(self)
            }),
    {
        if !crate::text::str_equal(next.topic.as_str(), self.topic.as_str()) || self.records.len() > max_records
            || next.records.len() > max_records - self.records.len() {
            return Err(next);
        }
        let PendingBatch { records, wal_end, created_at, topic: _ } = next;
        let ghost old_ends = self.wal_ends@;
        let mut i: usize = 0;
        while i < self.wal_ends.len() && self.wal_ends[i] < wal_end
            invariant
                i <= self.wal_ends@.len(),
                self.wal_ends@ == old_ends,
                strictly_increasing(old_ends),
                forall|j: int| 0 <= j < i ==> old_ends[j] < wal_end,
            decreases self.wal_ends@.len() - i,
        {
            i = i + 1;
        }
        if i < self.wal_ends.len() && self.wal_ends[i] == wal_end {
            assert(old_ends.to_set().insert(wal_end) =~= old_ends.to_set()) by {
                assert(old_ends.to_set().contains(old_ends[i as int]));
            }
        } else {
            self.wal_ends.insert(i, wal_end);
            proof {
                let e = self.wal_ends@;
                assert(e =~= old_ends.insert(i as int, wal_end));
                assert forall|a: int, b: int| 0 <= a < b < e.len() implies e[a] < e[b] by {
                    if a < i && b > i {
                        assert(old_ends[i as int] > wal_end);
                        assert(old_ends[b - 1] >= old_ends[i as int]);
                    } else if a == i && b > i {
                        assert(old_ends[b - 1] >= old_ends[i as int]);
                    }
                }
                assert forall|x: u64| e.to_set().contains(x) <==> old_ends.to_set().insert(wal_end).contains(x) by {
                    if e.to_set().contains(x) {
                        let k = choose|k: int| 0 <= k < e.len() && e[k] == x;
                        if k < i {
                            assert(old_ends[k] == x);
                        } else if k > i {
                            assert(old_ends[k - 1] == x);
                        }
                    }
                    if old_ends.to_set().contains(x) {
                        let k = choose|k: int| 0 <= k < old_ends.len() && old_ends[k] == x;
                        if k < i {
                            assert(e[k] == x);
                        } else {
                            assert(e[k + 1] == x);
                        }
                    }
                    if x == wal_end {
                        assert(e[i as int] == x);
                    }
                }
                assert(e.to_set() =~= old_ends.to_set().insert(wal_end));
            }
        }
        if created_at < self.oldest_created_at {
            self.oldest_created_at = created_at;
        }
        let mut records = records;
        self.records.append(&mut records);
        self.source_batches = self.source_batches + 1;
        Ok(())
    }

    /// The highest covered position, zero when nothing is covered. It is not a
    /// resume point: lower positions may still wait in other queues, and only
    /// what the fence tracker confirms is persisted.
    pub fn max_wal_end(&self) -> (r: u64)
        requires
            strictly_increasing(self.covered()),
        ensures
            self.covered().len() == 0 ==> r == 0,
            self.covered().len() > 0 ==> r == self.covered().last(),
            forall|i: int| 0 <= i < self.covered().len() ==> self.covered()[i] <= r,
    {
        if self.wal_ends.len() == 0 {
            0
        } else {
            self.wal_ends[self.wal_ends.len() - 1]
        }
    }

    /// The positions to acknowledge after a successful publication: each covered
    /// position once, in increasing order.
    pub fn acknowledgements(&self) -> (r: &Vec<u64>)
        ensures
            r@ == self.covered(),
    {
        &self.wal_ends
    }

    /// The batches put back at the front of the queue, in this order, after a
    /// failed publication, so that every covered position is acknowledged once
    /// they are published: the first holds all gathered records under the lowest
    /// covered position (zero when none); each further covered position follows
    /// in a batch without records. All carry the topic and the oldest creation
    /// time.
    pub fn into_retry(self) -> (r: Vec<PendingBatch>)
        ensures
            r@.len() == if self.covered().len() == 0 {
                1
            } else {
                self.covered().len()
            },
            r@[0].records@ == self.records@,
            r@[0].wal_end == if self.covered().len() > 0 {
                self.covered()[0]
            } else {
                0
            },
            forall|i: int| 1 <= i < r@.len() ==> (#[trigger] r@[i]).records@.len() == 0 && r@[i].wal_end == self.covered()[i],
            forall|i: int| 0 <= i < r@.len() ==> (#[trigger] r@[i]).topic@ == self.topic@ && r@[i].created_at == self.oldest_created_at,
    {
        let MicroBatch { topic, records, wal_ends, oldest_created_at, source_batches: _ } = self;
        let n = wal_ends.len();
        let first_end = if n > 0 {
            wal_ends[0]
        } else {
            0
        };
        let mut out: Vec<PendingBatch> = Vec::new();
        out.push(PendingBatch { records, wal_end: first_end, created_at: oldest_created_at, topic: topic.clone() });
        let mut i: usize = 1;
        while i < n
            invariant
                1 <= i,
                n == wal_ends@.len(),
                if n == 0 { i == 1 } else { i <= n },
                out@.len() == i,
                out@[0].records@ == self.records@,
                out@[0].wal_end == first_end,
                first_end == if n > 0 { wal_ends@[0] } else { 0 },
                wal_ends@ == self.covered(),
                topic@ == self.topic@,
                oldest_created_at == self.oldest_created_at,
                forall|k: int| 1 <= k < out@.len() ==> (#[trigger] out@[k]).records@.len() == 0 && out@[k].wal_end == wal_ends@[k],
                forall|k: int| 0 <= k < out@.len() ==> (#[trigger] out@[k]).topic@ == topic@ && out@[k].created_at == oldest_created_at,
            decreases n - i,
        {
            out.push(PendingBatch { records: Vec::new(), wal_end: wal_ends[i], created_at: oldest_created_at, topic: topic.clone() });
            i = i + 1;
        }
        out
    }
}

/// Law: stamping gives every record without an LSN (zero) the WAL end, keeps
/// the LSN of every other record, and changes nothing else of any record.
pub proof fn lemma_stamping(s: Seq<WalRecord>, wal_end: u64)
    ensures
        stamped(s, wal_end).len() == s.len(),
        forall|i: int|
            0 <= i < s.len() ==> {
                &&& (#[trigger] stamped(s, wal_end)[i]).lsn == if s[i].lsn == 0 {
                    wal_end
                } else {
                    s[i].lsn
                }
                &&& stamped(s, wal_end)[i] == (crate::wal_parser::WalRecordView { lsn: stamped(s, wal_end)[i].lsn, ..s[i]@ })
            },
{
}

} // verus!
