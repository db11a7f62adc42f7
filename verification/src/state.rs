//! Bookkeeping of the WAL writer: the persisted replication position per slot,
//! the bounded queues of batches awaiting publication, and the stable routing of
//! topics to publisher queues.
use vstd::prelude::*;
use std::collections::VecDeque;
use vstd::string::StringSliceAdditionalSpecFns;
use crate::wal_parser::WalRecord;

verus! {

/// Moves the contents out of a vector, leaving it empty.
fn take_vec<T>(v: &mut Vec<T>) -> (r: Vec<T>)
    ensures
        r@ == old(v)@,
        final(v)@ == Seq::<T>::empty(),
{
    let mut r: Vec<T> = Vec::new();
    std::mem::swap(&mut r, v);
    r
}

/// The FNV-1a 64-bit offset basis.
pub const FNV_OFFSET_BASIS: u64 = 0xcbf29ce484222325u64;

/// The FNV-1a 64-bit prime.
pub const FNV_PRIME: u64 = 0x100000001b3u64;

/// FNV-1a over a byte string: start from the offset basis, then for each byte
/// xor it in and multiply by the prime, modulo 2^64.
pub open spec fn fnv1a(bytes: Seq<u8>) -> u64
    decreases bytes.len(),
{
    if bytes.len() == 0 {
        FNV_OFFSET_BASIS
    } else {
        vstd::wrapping::u64_specs::wrapping_mul(fnv1a(bytes.drop_last()) ^ (bytes.last() as u64), FNV_PRIME)
    }
}

/// The FNV-1a 64-bit hash of a string's UTF-8 bytes; the same on every
/// platform, Rust version and process.
pub fn fnv1a_hash(s: &str) -> (h: u64)
    ensures
        h == fnv1a(topic_bytes(s@)),
{
    let bytes = s.as_bytes();
    let mut hash: u64 = FNV_OFFSET_BASIS;
    let mut i: usize = 0;
    while i < bytes.len()
        invariant
            i <= bytes@.len(),
            bytes@ == s.spec_bytes(),
            hash == fnv1a(bytes@.take(i as int)),
        decreases bytes@.len() - i,
    {
        assert(bytes@.take(i + 1).drop_last() =~= bytes@.take(i as int));
        hash = (hash ^ (bytes[i] as u64)).wrapping_mul(FNV_PRIME);
        i = i + 1;
    }
    assert(bytes@.take(bytes@.len() as int) =~= bytes@);
    hash
}

/// The publisher queue a topic is routed to: its FNV-1a hash, as a `usize`,
/// modulo the number of publishers.
pub open spec fn queue_index(topic: Seq<char>, publishers: usize) -> usize
    recommends
        publishers > 0,
{
    ((fnv1a(topic_bytes(topic)) as usize) % publishers) as usize
}

/// The UTF-8 bytes of a topic name.
pub open spec fn topic_bytes(topic: Seq<char>) -> Seq<u8> {
    vstd::utf8::encode_utf8(topic)
}

/// Routes a topic to one of `publishers` queues, the same queue every time.
pub fn topic_to_queue_index(topic: &str, publishers: usize) -> (i: usize)
    requires
        publishers > 0,
    ensures
        i == queue_index(topic@, publishers),
        i < publishers,
{
    (fnv1a_hash(topic) as usize) % publishers
}

/// The last persisted position of a slot.
pub struct LsnState {
    pub last_lsn: String,
    pub last_commit_time: i64,
}

pub struct LsnStateView {
    pub last_lsn: Seq<char>,
    pub last_commit_time: i64,
}

impl View for LsnState {
    type V = LsnStateView;

    open spec fn view(&self) -> LsnStateView {
        LsnStateView { last_lsn: self.last_lsn@, last_commit_time: self.last_commit_time }
    }
}

impl Default for LsnState {
    fn default() -> (s: Self)
        ensures
            s.last_lsn@ == Seq::<char>::empty(),
            s.last_commit_time == 0,
    {
        LsnState { last_lsn: String::new(), last_commit_time: 0 }
    }
}

/// The persisted position of every slot, with where it is stored.
pub struct LsnTracker {
    entries: Vec<(String, LsnState)>,
    store_path: Option<String>,
}

/// The slot names of a list of entries.
pub open spec fn entry_keys(entries: Seq<(String, LsnState)>) -> Seq<Seq<char>> {
    entries.map_values(|e: (String, LsnState)| e.0@)
}

/// The map from slot name to position that a list of entries with distinct names
/// holds.
pub open spec fn entries_map(entries: Seq<(String, LsnState)>) -> Map<Seq<char>, LsnStateView>
    decreases entries.len(),
{
    if entries.len() == 0 {
        Map::empty()
    } else {
        entries_map(entries.drop_last()).insert(entries.last().0@, entries.last().1@)
    }
}

impl View for LsnTracker {
    type V = Map<Seq<char>, LsnStateView>;

    closed spec fn view(&self) -> Map<Seq<char>, LsnStateView> {
        entries_map(self.entries@)
    }
}

impl LsnTracker {
    /// Each slot has at most one entry.
    pub closed spec fn wf(&self) -> bool {
        entry_keys(self.entries@).no_duplicates()
    }

    /// Where the positions are stored, if anywhere.
    pub closed spec fn stored_at(&self) -> Option<String> {
        self.store_path
    }

    /// Where the positions are stored, if anywhere.
    pub fn store_path(&self) -> (r: &Option<String>)
        ensures
            *r == self.stored_at(),
    {
        &self.store_path
    }

    /// A tracker with no position, stored at `store_path` if given.
    pub fn new(store_path: Option<String>) -> (t: Self)
        ensures
            t.wf(),
            t@ == Map::<Seq<char>, LsnStateView>::empty(),
            t.stored_at() == store_path,
    {
        let t = LsnTracker { entries: Vec::new(), store_path };
        assert(entry_keys(t.entries@) =~= Seq::<Seq<char>>::empty());
        t
    }

    proof fn lemma_map_keys(entries: Seq<(String, LsnState)>)
        ensures
            forall|k: Seq<char>| entries_map(entries).contains_key(k) <==> entry_keys(entries).contains(k),
        decreases entries.len(),
    {
        if entries.len() > 0 {
            Self::lemma_map_keys(entries.drop_last());
            let ks = entry_keys(entries.drop_last());
            assert(entry_keys(entries) =~= ks.push(entries.last().0@));
            assert(entry_keys(entries)[entries.len() - 1] == entries.last().0@);
            assert forall|k: Seq<char>| entries_map(entries).contains_key(k) <==> entry_keys(entries).contains(k) by {
                if k == entries.last().0@ {
                    assert(entry_keys(entries)[entries.len() - 1] == k);
                }
                if ks.contains(k) {
                    let j = choose|j: int| 0 <= j < ks.len() && ks[j] == k;
                    assert(entry_keys(entries)[j] == k);
                }
                if entry_keys(entries).contains(k) {
                    let j = choose|j: int| 0 <= j < entry_keys(entries).len() && entry_keys(entries)[j] == k;
                    if j < ks.len() {
                        assert(ks[j] == k);
                    }
                }
            }
        } else {
            assert forall|k: Seq<char>| entries_map(entries).contains_key(k) <==> entry_keys(entries).contains(k) by {
                assert(entry_keys(entries).len() == 0);
            }
        }
    }

    proof fn lemma_map_at(entries: Seq<(String, LsnState)>, i: int)
        requires
            entry_keys(entries).no_duplicates(),
            0 <= i < entries.len(),
        ensures
            entries_map(entries).contains_key(entries[i].0@),
            entries_map(entries)[entries[i].0@] == entries[i].1@,
        decreases entries.len(),
    {
        let last = entries.len() - 1;
        assert(entry_keys(entries.drop_last()) =~= entry_keys(entries).drop_last());
        if i < last {
            Self::lemma_map_at(entries.drop_last(), i);
            assert(entry_keys(entries)[i] != entry_keys(entries)[last]);
        }
    }

    proof fn lemma_map_update(entries: Seq<(String, LsnState)>, i: int, e: (String, LsnState))
        requires
            entry_keys(entries).no_duplicates(),
            0 <= i < entries.len(),
            e.0@ == entries[i].0@,
        ensures
            entries_map(entries.update(i, e)) == entries_map(entries).insert(e.0@, e.1@),
            entry_keys(entries.update(i, e)) == entry_keys(entries),
        decreases entries.len(),
    {
        let last = entries.len() - 1;
        assert(entry_keys(entries.update(i, e)) =~= entry_keys(entries));
        assert(entry_keys(entries.drop_last()) =~= entry_keys(entries).drop_last());
        if i == last {
            assert(entries.update(i, e).drop_last() =~= entries.drop_last());
            Self::lemma_map_keys(entries.drop_last());
            assert(!entry_keys(entries.drop_last()).contains(e.0@)) by {
                if entry_keys(entries.drop_last()).contains(e.0@) {
                    let j = choose|j: int| 0 <= j < last && entry_keys(entries.drop_last())[j] == e.0@;
                    assert(entry_keys(entries)[j] == entry_keys(entries)[last]);
                }
            }
            assert(entries_map(entries.update(i, e)) =~= entries_map(entries).insert(e.0@, e.1@));
        } else {
            assert(entries.update(i, e).drop_last() =~= entries.drop_last().update(i, e));
            Self::lemma_map_update(entries.drop_last(), i, e);
            assert(entries[i].0@ != entries.last().0@) by {
                assert(entry_keys(entries)[i] != entry_keys(entries)[last]);
            }
            assert(entries_map(entries.update(i, e)) =~= entries_map(entries).insert(e.0@, e.1@));
        }
    }

    /// Records `lsn` as the position of `topic` at `commit_time` (seconds since the
    /// epoch), replacing what the topic had.
    pub fn persist(&mut self, topic: &str, lsn: &str, commit_time: i64)
        requires
            old(self).wf(),
        ensures
            final(self).wf(),
            final(self)@ == old(self)@.insert(topic@, LsnStateView { last_lsn: lsn@, last_commit_time: commit_time }),
            final(self).stored_at() == old(self).stored_at(),
    {
        let entry = (String::from_str(topic), LsnState { last_lsn: String::from_str(lsn), last_commit_time: commit_time });
        let ghost old_entries = self.entries@;
        let mut i: usize = 0;
        while i < self.entries.len()
            invariant
                i <= self.entries@.len(),
                self.entries@ == old_entries,
                entry_keys(old_entries).no_duplicates(),
                self.store_path == old(self).store_path,
                old_entries == old(self).entries@,
                entry.0@ == topic@,
                entry.1@ == (LsnStateView { last_lsn: lsn@, last_commit_time: commit_time }),
                forall|j: int| 0 <= j < i ==> old_entries[j].0@ != topic@,
            decreases self.entries@.len() - i,
        {
            if crate::text::str_equal(self.entries[i].0.as_str(), topic) {
                assert(old_entries[i as int].0@ == topic@);
                proof {
                    Self::lemma_map_update(old_entries, i as int, entry);
                }
                let ghost e = entry;
                self.entries.set(i, entry);
                assert(self.entries@ == old_entries.update(i as int, e));
                assert(e.1@ == LsnStateView { last_lsn: lsn@, last_commit_time: commit_time });
                return;
            }
            i = i + 1;
        }
        proof {
            Self::lemma_map_keys(old_entries);
            assert(!entry_keys(old_entries).contains(topic@)) by {
                if entry_keys(old_entries).contains(topic@) {
                    let j = choose|j: int| 0 <= j < old_entries.len() && entry_keys(old_entries)[j] == topic@;
                    assert(old_entries[j].0@ == topic@);
                }
            }
            assert(entry_keys(old_entries.push(entry)) =~= entry_keys(old_entries).push(topic@));
            assert(old_entries.push(entry).drop_last() =~= old_entries);
        }
        self.entries.push(entry);
    }

    /// The position last recorded for `topic`.
    pub fn get_last_lsn(&self, topic: &str) -> (r: Option<String>)
        requires
            self.wf(),
        ensures
            match r {
                Some(s) => self@.contains_key(topic@) && s@ == self@[topic@].last_lsn,
                None => !self@.contains_key(topic@),
            },
    {
        let mut i: usize = 0;
        while i < self.entries.len()
            invariant
                i <= self.entries@.len(),
                entry_keys(self.entries@).no_duplicates(),
                forall|j: int| 0 <= j < i ==> self.entries@[j].0@ != topic@,
            decreases self.entries@.len() - i,
        {
            if crate::text::str_equal(self.entries[i].0.as_str(), topic) {
                proof {
                    Self::lemma_map_at(self.entries@, i as int);
                }
                return Some(self.entries[i].1.last_lsn.clone());
            }
            i = i + 1;
        }
        proof {
            Self::lemma_map_keys(self.entries@);
            if entry_keys(self.entries@).contains(topic@) {
                let j = choose|j: int| 0 <= j < self.entries@.len() && entry_keys(self.entries@)[j] == topic@;
                assert(self.entries@[j].0@ == topic@);
            }
        }
        None
    }

    /// Replaces every position by those loaded from storage; of two entries for one
    /// slot the later wins.
    pub fn load(&mut self, loaded: Vec<(String, LsnState)>)
        ensures
            final(self).wf(),
            final(self)@ == entries_map(loaded@),
            final(self).stored_at() == old(self).stored_at(),
    {
        let mut fresh = LsnTracker::new(None);
        let ghost target = loaded@;
        let mut i: usize = 0;
        assert(loaded@.take(0) =~= Seq::<(String, LsnState)>::empty());
        for e in it: loaded
            invariant
                it.seq() == target,
                fresh.wf(),
                fresh@ == entries_map(target.take(it.index() as int)),
        {
            let ghost k = it.index();
            assert(target.take(k + 1).drop_last() =~= target.take(k as int));
            fresh.persist(e.0.as_str(), e.1.last_lsn.as_str(), e.1.last_commit_time);
        }
        assert(target.take(target.len() as int) =~= target);
        self.entries = fresh.entries;
    }

    /// Every recorded position, one entry per slot.
    pub fn entries(&self) -> (r: &Vec<(String, LsnState)>)
        requires
            self.wf(),
        ensures
            entries_map(r@) == self@,
            entry_keys(r@).no_duplicates(),
    {
        &self.entries
    }
}

/// Law: the position read back for a slot is the one last persisted for it,
/// and persisting the position of one slot changes no other slot's.
pub proof fn lemma_persist_then_read(
    positions: Map<Seq<char>, LsnStateView>,
    topic: Seq<char>,
    lsn: Seq<char>,
    commit_time: i64,
    other: Seq<char>,
)
    ensures
        ({
            let after = positions.insert(topic, LsnStateView { last_lsn: lsn, last_commit_time: commit_time });
            &&& after.contains_key(topic)
            &&& after[topic].last_lsn == lsn
            &&& other != topic ==> after.contains_key(other) == positions.contains_key(other)
            &&& other != topic && positions.contains_key(other) ==> after[other] == positions[other]
        }),
{
}

/// Every entry of `a` is also one of `b`, by slot name and position.
pub open spec fn entries_within(a: Seq<(String, LsnState)>, b: Seq<(String, LsnState)>) -> bool {
    forall|i: int|
        0 <= i < a.len() ==> exists|j: int| 0 <= j < b.len() && (#[trigger] a[i]).0@ == (#[trigger] b[j]).0@ && a[i].1@ == b[j].1@
}

proof fn lemma_entries_within_map(a: Seq<(String, LsnState)>, b: Seq<(String, LsnState)>, k: Seq<char>)
    requires
        entry_keys(a).no_duplicates(),
        entry_keys(b).no_duplicates(),
        entries_within(a, b),
    ensures
        entries_map(a).contains_key(k) ==> entries_map(b).contains_key(k) && entries_map(b)[k] == entries_map(a)[k],
{
    LsnTracker::lemma_map_keys(a);
    if entries_map(a).contains_key(k) {
        assert(entry_keys(a).contains(k));
        let i = choose|i: int| 0 <= i < entry_keys(a).len() && entry_keys(a)[i] == k;
        assert(entry_keys(a)[i] == a[i].0@);
        let j = choose|j: int| 0 <= j < b.len() && (#[trigger] a[i]).0@ == (#[trigger] b[j]).0@ && a[i].1@ == b[j].1@;
        LsnTracker::lemma_map_at(a, i);
        LsnTracker::lemma_map_at(b, j);
    }
}

/// Law: the positions a list of entries gives do not depend on the order of the
/// entries, as long as each slot occurs once: two such lists holding the same
/// entries load the same positions.
pub proof fn lemma_load_ignores_order(a: Seq<(String, LsnState)>, b: Seq<(String, LsnState)>)
    requires
        entry_keys(a).no_duplicates(),
        entry_keys(b).no_duplicates(),
        entries_within(a, b),
        entries_within(b, a),
    ensures
        entries_map(a) == entries_map(b),
{
    assert forall|k: Seq<char>| #[trigger] entries_map(a).contains_key(k) == entries_map(b).contains_key(k) by {
        lemma_entries_within_map(a, b, k);
        lemma_entries_within_map(b, a, k);
    }
    assert forall|k: Seq<char>| entries_map(a).contains_key(k) implies #[trigger] entries_map(a)[k] == entries_map(b)[k] by {
        lemma_entries_within_map(a, b, k);
    }
    assert(entries_map(a) =~= entries_map(b));
}

/// Records awaiting publication to one topic, from one WAL message.
/// `created_at` is a monotonic timestamp in microseconds.
pub struct PendingBatch {
    pub records: Vec<WalRecord>,
    pub wal_end: u64,
    pub created_at: u64,
    pub topic: String,
}

/// How records are batched before publication.
pub struct BatchConfig {
    pub max_records_per_batch: usize,
    pub flush_interval_ms: u64,
}

/// A queue of batches awaiting publication, bounded for new batches.
pub struct BatchQueue {
    pending: VecDeque<PendingBatch>,
    max_pending_batches: usize,
}

/// A full queue refused a batch.
#[derive(Debug)]
pub struct QueueFull {
    pub pending: usize,
}

impl View for BatchQueue {
    type V = Seq<PendingBatch>;

    closed spec fn view(&self) -> Seq<PendingBatch> {
        self.pending@
    }
}

impl BatchQueue {
    /// The bound for new batches.
    pub closed spec fn capacity(&self) -> usize {
        self.max_pending_batches
    }

    /// An empty queue taking at most `max_pending_batches` new batches.
    pub fn new(max_pending_batches: usize) -> (q: Self)
        ensures
            q@ == Seq::<PendingBatch>::empty(),
            q.capacity() == max_pending_batches,
    {
        BatchQueue { pending: VecDeque::new(), max_pending_batches }
    }

    /// Appends a batch unless the queue holds `capacity` batches or more.
    pub fn enqueue(&mut self, batch: PendingBatch) -> (r: Result<(), QueueFull>)
        ensures
            final(self).capacity() == old(self).capacity(),
            old(self)@.len() < old(self).capacity() ==> r is Ok && final(self)@ == old(self)@.push(batch),
            old(self)@.len() >= old(self).capacity() ==> r == Err::<(), QueueFull>(QueueFull { pending: old(self)@.len() as usize }) && final(self)@ == old(self)@,
    {
        match self.try_enqueue(batch) {
            Ok(()) => Ok(()),
            Err(_) => Err(QueueFull { pending: self.pending.len() }),
        }
    }

    /// Appends a batch unless the queue holds `capacity` batches or more; a
    /// refused batch is handed back.
    pub fn try_enqueue(&mut self, batch: PendingBatch) -> (r: Result<(), PendingBatch>)
        ensures
            final(self).capacity() == old(self).capacity(),
            old(self)@.len() < old(self).capacity() ==> r is Ok && final(self)@ == old(self)@.push(batch),
            old(self)@.len() >= old(self).capacity() ==> r == Err::<(), PendingBatch>(batch) && final(self)@ == old(self)@,
    {
        if self.pending.len() >= self.max_pending_batches {
            return Err(batch);
        }
        self.pending.push_back(batch);
        Ok(())
    }

    /// Puts a batch back at the front, whatever the bound.
    pub fn enqueue_front(&mut self, batch: PendingBatch)
        requires
            old(self)@.len() < usize::MAX,
        ensures
            final(self).capacity() == old(self).capacity(),
            final(self)@ == seq![batch] + old(self)@,
    {
        self.pending.push_front(batch);
    }

    /// Removes and returns the oldest batch.
    pub fn dequeue(&mut self) -> (r: Option<PendingBatch>)
        ensures
            final(self).capacity() == old(self).capacity(),
            old(self)@.len() == 0 ==> r is None && final(self)@ == old(self)@,
            old(self)@.len() > 0 ==> r == Some(old(self)@[0]) && final(self)@ == old(self)@.drop_first(),
    {
        let b = self.pending.pop_front();
        proof {
            if old(self)@.len() > 0 {
                assert(self.pending@ =~= old(self)@.drop_first());
            }
        }
        b
    }

    /// The number of batches in the queue, read from the counter.
    pub fn count(&self) -> (n: usize)
        ensures
            n == self@.len(),
    {
        self.pending.len()
    }
}

/// Law: a batch put back at the front of a queue is the next one taken out, and
/// taking it out leaves the queue as it was before.
pub proof fn lemma_requeued_comes_first(q: Seq<PendingBatch>, b: PendingBatch)
    ensures
        (seq![b] + q)[0] == b,
        (seq![b] + q).drop_first() == q,
{
    assert((seq![b] + q).drop_first() =~= q);
}

/// Law: batches leave a queue in the order they entered: appending a batch at
/// the back changes neither which batch comes out next nor the order of those
/// behind it.
pub proof fn lemma_queue_fifo(q: Seq<PendingBatch>, b: PendingBatch)
    requires
        q.len() > 0,
    ensures
        q.push(b)[0] == q[0],
        q.push(b).drop_first() == q.drop_first().push(b),
{
    assert(q.push(b).drop_first() =~= q.drop_first().push(b));
}

/// The total number of batches in a list of queues.
pub open spec fn total_pending(queues: Seq<Seq<PendingBatch>>) -> nat
    decreases queues.len(),
{
    if queues.len() == 0 {
        0
    } else {
        total_pending(queues.drop_last()) + queues.last().len()
    }
}

/// One queue per publisher; every batch of a topic goes to the same queue, so
/// each topic is published in order by a single publisher.
pub struct BatchQueueRouter {
    queues: Vec<BatchQueue>,
}

impl View for BatchQueueRouter {
    type V = Seq<Seq<PendingBatch>>;

    closed spec fn view(&self) -> Seq<Seq<PendingBatch>> {
        self.queues@.map_values(|q: BatchQueue| q@)
    }
}

impl BatchQueueRouter {
    /// The number of publishers.
    pub closed spec fn publishers(&self) -> usize {
        self.queues@.len() as usize
    }

    /// The bound of each queue.
    pub closed spec fn queue_capacity(&self, i: int) -> usize {
        self.queues@[i].capacity()
    }

    /// `num_publishers` empty queues, each taking at most
    /// `max_pending_per_queue` new batches.
    pub fn new(num_publishers: usize, max_pending_per_queue: usize) -> (r: Self)
        ensures
            r.publishers() == num_publishers,
            r@ == Seq::new(num_publishers as nat, |i: int| Seq::<PendingBatch>::empty()),
            forall|i: int| 0 <= i < num_publishers ==> r.queue_capacity(i) == max_pending_per_queue,
    {
        let mut queues: Vec<BatchQueue> = Vec::new();
        let mut i: usize = 0;
        while i < num_publishers
            invariant
                i <= num_publishers,
                queues@.len() == i,
                forall|j: int| 0 <= j < i ==> (#[trigger] queues@[j])@ == Seq::<PendingBatch>::empty() && queues@[j].capacity() == max_pending_per_queue,
            decreases num_publishers - i,
        {
            queues.push(BatchQueue::new(max_pending_per_queue));
            i = i + 1;
        }
        let r = BatchQueueRouter { queues };
        assert(r@ =~= Seq::new(num_publishers as nat, |i: int| Seq::<PendingBatch>::empty()));
        r
    }

    /// The queue that batches of `topic` go to.
    pub fn queue_for(&self, topic: &str) -> (i: usize)
        requires
            self.publishers() > 0,
        ensures
            i == queue_index(topic@, self.publishers()),
            i < self.publishers(),
    {
        topic_to_queue_index(topic, self.queues.len())
    }

    /// Appends a batch to its topic's queue unless that queue is full.
    pub fn enqueue(&mut self, batch: PendingBatch) -> (r: Result<(), QueueFull>)
        requires
            old(self).publishers() > 0,
        ensures
            final(self).publishers() == old(self).publishers(),
            ({
                let i = queue_index(batch.topic@, old(self).publishers()) as int;
                &&& forall|j: int| 0 <= j < old(self).publishers() ==> final(self).queue_capacity(j) == old(self).queue_capacity(j)
                &&& old(self)@[i].len() < old(self).queue_capacity(i) ==> r is Ok && final(self)@ == old(self)@.update(i, old(self)@[i].push(batch))
                &&& old(self)@[i].len() >= old(self).queue_capacity(i) ==> r is Err && final(self)@ == old(self)@
            }),
    {
        match self.try_enqueue(batch) {
            Ok(()) => Ok(()),
            Err(b) => {
                let i = topic_to_queue_index(b.topic.as_str(), self.queues.len());
                Err(QueueFull { pending: self.queues[i].count() })
            },
        }
    }

    /// Appends a batch to its topic's queue unless that queue is full; a refused
    /// batch is handed back.
    pub fn try_enqueue(&mut self, batch: PendingBatch) -> (r: Result<(), PendingBatch>)
        requires
            old(self).publishers() > 0,
        ensures
            final(self).publishers() == old(self).publishers(),
            ({
                let i = queue_index(batch.topic@, old(self).publishers()) as int;
                &&& forall|j: int| 0 <= j < old(self).publishers() ==> final(self).queue_capacity(j) == old(self).queue_capacity(j)
                &&& old(self)@[i].len() < old(self).queue_capacity(i) ==> r is Ok && final(self)@ == old(self)@.update(i, old(self)@[i].push(batch))
                &&& old(self)@[i].len() >= old(self).queue_capacity(i) ==> r == Err::<(), PendingBatch>(batch) && final(self)@ == old(self)@
            }),
    {
        let i = topic_to_queue_index(batch.topic.as_str(), self.queues.len());
        let mut queues = take_vec(&mut self.queues);
        let mut q = queues.remove(i);
        let r = q.try_enqueue(batch);
        queues.insert(i, q);
        self.queues = queues;
        proof {
            assert(self@ =~= old(self)@.update(i as int, q@));
            if r is Err {
                assert(self@ =~= old(self)@);
            }
        }
        r
    }

    /// Removes and returns the oldest batch of queue `publisher_id`.
    pub fn dequeue(&mut self, publisher_id: usize) -> (r: Option<PendingBatch>)
        requires
            publisher_id < old(self).publishers(),
        ensures
            final(self).publishers() == old(self).publishers(),
            forall|j: int| 0 <= j < old(self).publishers() ==> final(self).queue_capacity(j) == old(self).queue_capacity(j),
            ({
                let q = old(self)@[publisher_id as int];
                &&& q.len() == 0 ==> r is None && final(self)@ == old(self)@
                &&& q.len() > 0 ==> r == Some(q[0]) && final(self)@ == old(self)@.update(publisher_id as int, q.drop_first())
            }),
    {
        let mut queues = take_vec(&mut self.queues);
        let mut q = queues.remove(publisher_id);
        let r = q.dequeue();
        queues.insert(publisher_id, q);
        self.queues = queues;
        proof {
            assert(self@ =~= old(self)@.update(publisher_id as int, q@));
            if r is None {
                assert(self@ =~= old(self)@);
            }
        }
        r
    }

    /// Puts a batch back at the front of queue `publisher_id`.
    pub fn enqueue_front(&mut self, publisher_id: usize, batch: PendingBatch)
        requires
            publisher_id < old(self).publishers(),
            old(self)@[publisher_id as int].len() < usize::MAX,
        ensures
            final(self).publishers() == old(self).publishers(),
            forall|j: int| 0 <= j < old(self).publishers() ==> final(self).queue_capacity(j) == old(self).queue_capacity(j),
            final(self)@ == old(self)@.update(publisher_id as int, seq![batch] + old(self)@[publisher_id as int]),
    {
        let mut queues = take_vec(&mut self.queues);
        let mut q = queues.remove(publisher_id);
        q.enqueue_front(batch);
        queues.insert(publisher_id, q);
        self.queues = queues;
        proof {
            assert(self@ =~= old(self)@.update(publisher_id as int, q@));
        }
    }

    /// The queue of publisher `publisher_id`.
    pub fn get_queue(&self, publisher_id: usize) -> (q: &BatchQueue)
        requires
            publisher_id < self.publishers(),
        ensures
            q@ == self@[publisher_id as int],
            q.capacity() == self.queue_capacity(publisher_id as int),
    {
        &self.queues[publisher_id]
    }

    /// The number of batches over all queues.
    pub fn total_count(&self) -> (n: usize)
        requires
            total_pending(self@) <= usize::MAX,
        ensures
            n == total_pending(self@),
    {
        let ghost v = self@;
        let mut total: usize = 0;
        let mut i: usize = 0;
        while i < self.queues.len()
            invariant
                i <= self.queues@.len(),
                v == self@,
                v.len() == self.queues@.len(),
                total == total_pending(v.take(i as int)),
                total_pending(v) <= usize::MAX,
            decreases self.queues@.len() - i,
        {
            assert(v.take(i + 1).drop_last() =~= v.take(i as int));
            proof {
                lemma_total_prefix(v, i as int + 1);
            }
            assert(self.queues@[i as int]@ == v[i as int]);
            total = total + self.queues[i].count();
            i = i + 1;
        }
        assert(v.take(v.len() as int) =~= v);
        total
    }
}

proof fn lemma_total_prefix(queues: Seq<Seq<PendingBatch>>, k: int)
    requires
        0 <= k <= queues.len(),
    ensures
        total_pending(queues.take(k)) <= total_pending(queues),
    decreases queues.len(),
{
    if k < queues.len() {
        assert(queues.drop_last().take(k) =~= queues.take(k));
        lemma_total_prefix(queues.drop_last(), k);
    } else {
        assert(queues.take(k) =~= queues);
    }
}

/// Law: the routing hash is 64-bit FNV-1a: it starts from the offset basis
/// `0xcbf29ce484222325` and, for each byte, xors the byte in and multiplies by
/// the prime `0x100000001b3` modulo 2^64; a topic is always routed to a valid
/// queue.
pub proof fn lemma_fnv1a_routing(bytes: Seq<u8>, b: u8, topic: Seq<char>, publishers: usize)
    requires
        publishers > 0,
    ensures
        fnv1a(Seq::empty()) == 0xcbf29ce484222325u64,
        fnv1a(bytes.push(b)) as int == ((fnv1a(bytes) ^ (b as u64)) as int * 0x100000001b3) % 0x1_0000_0000_0000_0000,
        queue_index(topic, publishers) < publishers,
{
    assert(bytes.push(b).drop_last() =~= bytes);
}

} // verus!
