//! Turns pgoutput logical-replication payloads into WAL records.
//!
//! A payload holds one or more pgoutput messages back to back. `Relation`
//! messages feed a relation cache, `Begin`/`Commit` set the transaction context
//! (LSN, commit time, xid), and each `Insert`, `Update`, `Delete` and `Truncate`
//! yields records that carry that context.
use vstd::prelude::*;
use vstd::utf8::{decode_utf8, valid_utf8};
use std::collections::HashMap;
use pg_walstream::{encode_message_to_bytes, LogicalReplicationParser, RelationInfo, TupleData};
use pg_walstream::LogicalReplicationMessage::{Begin, Commit, Delete, Insert, Relation, Truncate, Update};
use crate::text::{decimal, push_decimal, string_push};

verus! {

broadcast use vstd::std_specs::hash::group_hash_axioms;

/// The kind of row change a record describes.
#[derive(Clone, Copy, Debug, PartialEq, Eq, Structural)]
pub enum Operation {
    Insert,
    Update,
    Delete,
    Truncate,
}

/// The upper-case name of an operation.
pub open spec fn operation_name(op: Operation) -> Seq<char> {
    match op {
        Operation::Insert => seq!['I', 'N', 'S', 'E', 'R', 'T'],
        Operation::Update => seq!['U', 'P', 'D', 'A', 'T', 'E'],
        Operation::Delete => seq!['D', 'E', 'L', 'E', 'T', 'E'],
        Operation::Truncate => seq!['T', 'R', 'U', 'N', 'C', 'A', 'T', 'E'],
    }
}

impl Operation {
    /// The operation's name as it appears in published records: `INSERT`,
    /// `UPDATE`, `DELETE` or `TRUNCATE`.
    pub fn to_string(&self) -> (r: String)
        ensures
            r@ == operation_name(*self),
    {
        match self {
            Operation::Insert => {
                proof {
                    reveal_strlit("INSERT");
                }
                String::from_str("INSERT")
            },
            Operation::Update => {
                proof {
                    reveal_strlit("UPDATE");
                }
                String::from_str("UPDATE")
            },
            Operation::Delete => {
                proof {
                    reveal_strlit("DELETE");
                }
                String::from_str("DELETE")
            },
            Operation::Truncate => {
                proof {
                    reveal_strlit("TRUNCATE");
                }
                String::from_str("TRUNCATE")
            },
        }
    }
}

/// A column value. `Float` holds the IEEE-754 bit pattern of a double and
/// `Json` the text of a JSON document.
pub enum ColumnValue {
    String(String),
    Integer(i64),
    Float(u64),
    Boolean(bool),
    Json(String),
    Bytes(Vec<u8>),
}

pub enum ColumnValueView {
    String(Seq<char>),
    Integer(i64),
    Float(u64),
    Boolean(bool),
    Json(Seq<char>),
    Bytes(Seq<u8>),
}

impl View for ColumnValue {
    type V = ColumnValueView;

    open spec fn view(&self) -> ColumnValueView {
        match self {
            ColumnValue::String(s) => ColumnValueView::String(s@),
            ColumnValue::Integer(i) => ColumnValueView::Integer(*i),
            ColumnValue::Float(f) => ColumnValueView::Float(*f),
            ColumnValue::Boolean(b) => ColumnValueView::Boolean(*b),
            ColumnValue::Json(s) => ColumnValueView::Json(s@),
            ColumnValue::Bytes(b) => ColumnValueView::Bytes(b@),
        }
    }
}

/// One column of a row.
pub struct Column {
    pub name: String,
    pub type_oid: u32,
    pub value: Option<ColumnValue>,
    pub is_null: bool,
}

pub struct ColumnView {
    pub name: Seq<char>,
    pub type_oid: u32,
    pub value: Option<ColumnValueView>,
    pub is_null: bool,
}

impl View for Column {
    type V = ColumnView;

    open spec fn view(&self) -> ColumnView {
        ColumnView {
            name: self.name@,
            type_oid: self.type_oid,
            value: match self.value {
                Some(v) => Some(v@),
                None => None,
            },
            is_null: self.is_null,
        }
    }
}

/// The columns of one row, in order.
pub struct RowData {
    pub columns: Vec<Column>,
}

impl View for RowData {
    type V = Seq<ColumnView>;

    open spec fn view(&self) -> Seq<ColumnView> {
        self.columns@.map_values(|c: Column| c@)
    }
}

/// One row change, with the transaction context it was seen in.
pub struct WalRecord {
    pub lsn: u64,
    pub table_schema: String,
    pub table_name: String,
    pub operation: Operation,
    pub oid: u32,
    pub new_tuple: Option<RowData>,
    pub old_tuple: Option<RowData>,
    pub tx_commit_time: i64,
    pub tx_xid: u64,
}

pub struct WalRecordView {
    pub lsn: u64,
    pub table_schema: Seq<char>,
    pub table_name: Seq<char>,
    pub operation: Operation,
    pub oid: u32,
    pub new_tuple: Option<Seq<ColumnView>>,
    pub old_tuple: Option<Seq<ColumnView>>,
    pub tx_commit_time: i64,
    pub tx_xid: u64,
}

pub open spec fn row_option_view(r: Option<RowData>) -> Option<Seq<ColumnView>> {
    match r {
        Some(row) => Some(row@),
        None => None,
    }
}

impl View for WalRecord {
    type V = WalRecordView;

    open spec fn view(&self) -> WalRecordView {
        WalRecordView {
            lsn: self.lsn,
            table_schema: self.table_schema@,
            table_name: self.table_name@,
            operation: self.operation,
            oid: self.oid,
            new_tuple: row_option_view(self.new_tuple),
            old_tuple: row_option_view(self.old_tuple),
            tx_commit_time: self.tx_commit_time,
            tx_xid: self.tx_xid,
        }
    }
}

/// The views of a list of records.
pub open spec fn records_view(v: Seq<WalRecord>) -> Seq<WalRecordView> {
    v.map_values(|r: WalRecord| r@)
}

/// One column of a pgoutput tuple: its kind byte (`n` null, `t` text, `b` binary,
/// `u` unchanged TOAST value) and its payload.
pub struct TupleColumn {
    pub kind: u8,
    pub data: Vec<u8>,
}

#[verifier::external_type_specification]
#[verifier::external_body]
pub struct ExTupleData(TupleData);

#[verifier::external_type_specification]
#[verifier::external_body]
pub struct ExRelationInfo(RelationInfo);

/// A decoded pgoutput message, holding what record building reads; tuples and
/// relation descriptions stay in `pg_walstream`'s own types.
pub enum WalMessage {
    /// Final LSN, commit timestamp and xid of the transaction.
    Begin(u64, i64, u32),
    /// Commit LSN and commit timestamp.
    Commit(u64, i64),
    Relation(RelationInfo),
    /// Relation id and new tuple.
    Insert(u32, TupleData),
    /// Relation id, old tuple if sent, new tuple.
    Update(u32, Option<TupleData>, TupleData),
    /// Relation id and old tuple.
    Delete(u32, TupleData),
    Truncate(Vec<u32>),
    /// Any other message (type, origin, logical message, streaming and
    /// two-phase control messages): it yields no record and changes no context.
    Other,
}

/// The columns of a tuple: kind byte and payload of each, in order.
pub uninterp spec fn tuple_contents(t: TupleData) -> Seq<(u8, Seq<u8>)>;

/// The columns a relation describes: name and type oid of each, in order.
pub uninterp spec fn relation_columns(r: RelationInfo) -> Seq<(Seq<char>, u32)>;

/// The id, namespace and name of a relation.
pub uninterp spec fn relation_header(r: RelationInfo) -> (u32, Seq<char>, Seq<char>);

/// The wire length and content of the message that `pg_walstream` decodes from
/// the start of `data` (pgoutput protocol version 1), or the display text of
/// its error when it fails.
pub uninterp spec fn pgoutput_decode(data: Seq<u8>) -> Result<(usize, WalMessage), Seq<char>>;

/// Decodes the first pgoutput message of `data` with `pg_walstream`'s
/// `LogicalReplicationParser::parse_wal_message` (protocol version 1) and measures
/// its wire length with `encode_message_to_bytes`; a failure gives the error's
/// display text. The result is named, not described: Verus takes it to be
/// `pgoutput_decode(data)`.
#[verifier::external_body]
fn decode_pgoutput(data: &[u8]) -> (r: Result<(usize, WalMessage), String>)
    ensures
        match r {
            Ok(x) => pgoutput_decode(data@) == Ok::<(usize, WalMessage), Seq<char>>(x),
            Err(t) => pgoutput_decode(data@) == Err::<(usize, WalMessage), Seq<char>>(t@),
        },
{
    let m = LogicalReplicationParser::with_protocol_version(1).parse_wal_message(data).map_err(|e| e.to_string())?.message;
    Ok((encode_message_to_bytes(&m, 1).len(), match m {
        Begin { final_lsn, timestamp, xid } => WalMessage::Begin(final_lsn, timestamp, xid),
        Commit { commit_lsn, timestamp, .. } => WalMessage::Commit(commit_lsn, timestamp),
        Relation { relation_id, namespace, relation_name, replica_identity, columns } => WalMessage::Relation(RelationInfo::new(relation_id, namespace, relation_name, replica_identity, columns)),
        Insert { relation_id, tuple } => WalMessage::Insert(relation_id, tuple),
        Update { relation_id, old_tuple, new_tuple, .. } => WalMessage::Update(relation_id, old_tuple, new_tuple),
        Delete { relation_id, old_tuple, .. } => WalMessage::Delete(relation_id, old_tuple),
        Truncate { relation_ids, .. } => WalMessage::Truncate(relation_ids),
        _ => WalMessage::Other,
    }))
}

/// The number of columns of a tuple (`TupleData::column_count`).
#[verifier::external_body]
fn tuple_len(t: &TupleData) -> (r: usize)
    ensures
        r == tuple_contents(*t).len(),
{
    t.column_count()
}

/// The kind byte and a copy of the payload of a tuple's column at `i`
/// (`TupleData::get_column`, `ColumnData::as_bytes`).
#[verifier::external_body]
fn tuple_column(t: &TupleData, i: usize) -> (r: TupleColumn)
    requires
        i < tuple_contents(*t).len(),
    ensures
        (r.kind, r.data@) == tuple_contents(*t)[i as int],
{
    let c = t.get_column(i).unwrap();
    TupleColumn { kind: c.data_type, data: c.as_bytes().to_vec() }
}

/// The id, namespace and name of a relation, the names copied into strings.
#[verifier::external_body]
fn relation_header_of(r: &RelationInfo) -> (h: (u32, String, String))
    ensures
        (h.0, h.1@, h.2@) == relation_header(*r),
{
    (r.relation_id, r.namespace.to_string(), r.relation_name.to_string())
}

/// The name and type oid of a relation's column at `idx`, if it has one
/// (`RelationInfo::get_column_by_index`).
#[verifier::external_body]
fn relation_column(r: &RelationInfo, idx: usize) -> (c: Option<(String, u32)>)
    ensures
        c is Some <==> idx < relation_columns(*r).len(),
        c matches Some(x) ==> (x.0@, x.1) == relation_columns(*r)[idx as int],
{
    r.get_column_by_index(idx).map(|c| (c.name.to_string(), c.type_id))
}

/// Decodes UTF-8 text with `String::from_utf8`: `Some` exactly for valid UTF-8,
/// holding the decoded characters.
#[verifier::external_body]
fn utf8_text(bytes: &[u8]) -> (r: Option<String>)
    ensures
        r is Some <==> valid_utf8(bytes@),
        r matches Some(s) ==> s@ == decode_utf8(bytes@),
{
    String::from_utf8(bytes.to_vec()).ok()
}

/// The name given to the column at position `idx` when no relation describes it:
/// `col1`, `col2`, ...
pub open spec fn column_label(idx: int) -> Seq<char> {
    seq!['c', 'o', 'l'] + decimal((idx + 1) as nat)
}

/// The value and null flag of a tuple column: text columns hold their text
/// (their raw bytes when these are not UTF-8), binary columns their bytes, and
/// every other column (null, or an unchanged TOAST value) is null, without a
/// value.
pub open spec fn column_payload(c: (u8, Seq<u8>)) -> (Option<ColumnValueView>, bool) {
    if c.0 == 110 {
        (None, true)
    } else if c.0 == 116 {
        if valid_utf8(c.1) {
            (Some(ColumnValueView::String(decode_utf8(c.1))), false)
        } else {
            (Some(ColumnValueView::Bytes(c.1)), false)
        }
    } else if c.0 == 98 {
        (Some(ColumnValueView::Bytes(c.1)), false)
    } else {
        (None, true)
    }
}

/// Law: a decoded column is null exactly when it has no value.
pub proof fn lemma_null_iff_no_value(c: (u8, Seq<u8>))
    ensures
        column_payload(c).1 == column_payload(c).0 is None,
{
}

/// The column at position `idx`: named and typed by the relation's column list
/// when it has a column there, else `col{idx+1}` with type 0.
pub open spec fn column_view_at(c: (u8, Seq<u8>), idx: int, rel: Option<Seq<(Seq<char>, u32)>>) -> ColumnView {
    let described = match rel {
        Some(cols) => idx < cols.len(),
        None => false,
    };
    ColumnView {
        name: if described {
            rel.unwrap()[idx].0
        } else {
            column_label(idx)
        },
        type_oid: if described {
            rel.unwrap()[idx].1
        } else {
            0
        },
        value: column_payload(c).0,
        is_null: column_payload(c).1,
    }
}

/// The row a tuple becomes.
pub open spec fn row_view(tuple: Seq<(u8, Seq<u8>)>, rel: Option<Seq<(Seq<char>, u32)>>) -> Seq<ColumnView> {
    Seq::new(tuple.len(), |i: int| column_view_at(tuple[i], i, rel))
}

/// The column list of an optional relation.
pub open spec fn columns_of(rel: Option<RelationInfo>) -> Option<Seq<(Seq<char>, u32)>> {
    match rel {
        Some(r) => Some(relation_columns(r)),
        None => None,
    }
}

/// The schema, table name and oid a record of relation `id` carries: those of the
/// cached relation, or `public`, the id in decimal, and the id.
pub open spec fn relation_info(rels: Map<u32, RelationInfo>, id: u32) -> (Seq<char>, Seq<char>, u32) {
    if rels.contains_key(id) {
        (relation_header(rels[id]).1, relation_header(rels[id]).2, relation_header(rels[id]).0)
    } else {
        (seq!['p', 'u', 'b', 'l', 'i', 'c'], decimal(id as nat), id)
    }
}

/// The relation cache and transaction context while a payload is decoded.
pub struct WalDecodeState {
    pub relations: HashMap<u32, RelationInfo>,
    pub xid: u64,
    pub commit_time: i64,
    pub lsn: u64,
}

pub struct DecodeStateView {
    pub relations: Map<u32, RelationInfo>,
    pub xid: u64,
    pub commit_time: i64,
    pub lsn: u64,
}

impl View for WalDecodeState {
    type V = DecodeStateView;

    open spec fn view(&self) -> DecodeStateView {
        DecodeStateView {
            relations: self.relations@,
            xid: self.xid,
            commit_time: self.commit_time,
            lsn: self.lsn,
        }
    }
}

/// The state before any message: no relation, zero xid, commit time and LSN.
pub open spec fn initial_decode_state() -> DecodeStateView {
    DecodeStateView { relations: Map::empty(), xid: 0, commit_time: 0, lsn: 0 }
}

/// The cached relation with id `id`, if any.
pub open spec fn cached(st: DecodeStateView, id: u32) -> Option<RelationInfo> {
    if st.relations.contains_key(id) {
        Some(st.relations[id])
    } else {
        None
    }
}

/// The row tuple `t` of relation `id` becomes in state `st`.
pub open spec fn row_in(st: DecodeStateView, id: u32, t: TupleData) -> Seq<ColumnView> {
    row_view(tuple_contents(t), columns_of(cached(st, id)))
}

/// A record of relation `id` in state `st`.
pub open spec fn record_in(
    st: DecodeStateView,
    id: u32,
    op: Operation,
    new_tuple: Option<Seq<ColumnView>>,
    old_tuple: Option<Seq<ColumnView>>,
) -> WalRecordView {
    WalRecordView {
        lsn: st.lsn,
        table_schema: relation_info(st.relations, id).0,
        table_name: relation_info(st.relations, id).1,
        operation: op,
        oid: relation_info(st.relations, id).2,
        new_tuple,
        old_tuple,
        tx_commit_time: st.commit_time,
        tx_xid: st.xid,
    }
}

/// The records one message yields in state `st`: one for an insert, update or
/// delete, one per relation for a truncate, none for any other message.
pub open spec fn message_records(st: DecodeStateView, msg: WalMessage) -> Seq<WalRecordView> {
    match msg {
        WalMessage::Insert(id, tuple) => seq![
            record_in(st, id, Operation::Insert, Some(row_in(st, id, tuple)), None),
        ],
        WalMessage::Update(id, old_tuple, new_tuple) => seq![
            record_in(
                st,
                id,
                Operation::Update,
                Some(row_in(st, id, new_tuple)),
                match old_tuple {
                    Some(t) => Some(row_in(st, id, t)),
                    None => None,
                },
            ),
        ],
        WalMessage::Delete(id, old_tuple) => seq![
            record_in(st, id, Operation::Delete, None, Some(row_in(st, id, old_tuple))),
        ],
        WalMessage::Truncate(ids) => Seq::new(
            ids@.len(),
            |i: int| record_in(st, ids@[i], Operation::Truncate, None, None),
        ),
        _ => Seq::empty(),
    }
}

/// The state after one message: `Relation` caches the relation under its id,
/// `Begin` sets LSN, commit time and xid, `Commit` sets LSN and commit time.
pub open spec fn after_message(st: DecodeStateView, msg: WalMessage) -> DecodeStateView {
    match msg {
        WalMessage::Relation(rel) => DecodeStateView {
            relations: st.relations.insert(relation_header(rel).0, rel),
            ..st
        },
        WalMessage::Begin(final_lsn, commit_time, xid) => DecodeStateView {
            lsn: final_lsn,
            commit_time,
            xid: xid as u64,
            ..st
        },
        WalMessage::Commit(commit_lsn, commit_time) => DecodeStateView { lsn: commit_lsn, commit_time, ..st },
        _ => st,
    }
}

/// What a whole payload gives from state `st`: the records of its messages in
/// order, or the error text of the first message that cannot be decoded.
/// Decoding stops when a message claims no bytes or more bytes than are left.
pub open spec fn payload_outcome(data: Seq<u8>, st: DecodeStateView) -> Result<Seq<WalRecordView>, Seq<char>>
    decreases data.len(),
{
    if data.len() == 0 {
        Ok(Seq::empty())
    } else {
        match pgoutput_decode(data) {
            Err(t) => Err(t),
            Ok((used, msg)) => if 0 < used && used <= data.len() {
                match payload_outcome(data.skip(used as int), after_message(st, msg)) {
                    Ok(rest) => Ok(message_records(st, msg) + rest),
                    Err(t) => Err(t),
                }
            } else {
                Ok(message_records(st, msg))
            },
        }
    }
}

/// The start of a parse error's text.
pub open spec fn parse_error_prefix() -> Seq<char> {
    seq![
        'p', 'g', 'o', 'u', 't', 'p', 'u', 't', ' ', 'p', 'a', 'r', 's', 'e', ' ',
        'e', 'r', 'r', 'o', 'r', ':', ' ',
    ]
}

/// A payload that could not be decoded.
#[derive(Debug)]
pub struct WalParseError {
    pub message: String,
}

/// The schema, table name and oid of relation `relid` in the cache.
pub fn relation_info_for(relations: &HashMap<u32, RelationInfo>, relid: u32) -> (r: (String, String, u32))
    ensures
        (r.0@, r.1@, r.2) == relation_info(relations@, relid),
{
    match relations.get(&relid) {
        Some(rel) => {
            let (id, namespace, name) = relation_header_of(rel);
            (namespace, name, id)
        },
        None => {
            proof {
                reveal_strlit("public");
            }
            let mut name = String::new();
            push_decimal(&mut name, relid as u64);
            (String::from_str("public"), name, relid)
        },
    }
}

/// Builds the column at position `idx` of a tuple.
fn column_at(c: TupleColumn, idx: usize, relation: Option<&RelationInfo>) -> (r: Column)
    requires
        idx < usize::MAX,
    ensures
        r@ == column_view_at(
            (c.kind, c.data@),
            idx as int,
            columns_of(
                match relation {
                    Some(m) => Some(*m),
                    None => None,
                },
            ),
        ),
{
    let ghost rel = columns_of(
        match relation {
            Some(m) => Some(*m),
            None => None,
        },
    );
    let ghost cv = (c.kind, c.data@);
    let mut described = false;
    let mut name = String::new();
    let mut type_oid: u32 = 0;
    match relation {
        Some(m) => match relation_column(m, idx) {
            Some((n, t)) => {
                described = true;
                name = n;
                type_oid = t;
            },
            None => {},
        },
        None => {},
    }
    if !described {
        proof {
            reveal_strlit("col");
        }
        name = String::from_str("col");
        push_decimal(&mut name, (idx + 1) as u64);
    }
    let (value, is_null) = if c.kind == 110 {
        (None, true)
    } else if c.kind == 116 {
        match utf8_text(c.data.as_slice()) {
            Some(s) => (Some(ColumnValue::String(s)), false),
            None => (Some(ColumnValue::Bytes(c.data)), false),
        }
    } else if c.kind == 98 {
        (Some(ColumnValue::Bytes(c.data)), false)
    } else {
        (None, true)
    };
    let col = Column { name, type_oid, value, is_null };
    assert(col@.name == column_view_at(cv, idx as int, rel).name);
    assert(col@.type_oid == column_view_at(cv, idx as int, rel).type_oid);
    assert(col@.value == column_view_at(cv, idx as int, rel).value);
    assert(col@.is_null == column_view_at(cv, idx as int, rel).is_null);
    col
}

/// Builds the row a tuple becomes, naming and typing its columns from the
/// relation where it describes them.
pub fn tuple_to_rowdata(tuple: &TupleData, relation: Option<&RelationInfo>) -> (r: RowData)
    ensures
        r@ == row_view(
            tuple_contents(*tuple),
            columns_of(
                match relation {
                    Some(m) => Some(*m),
                    None => None,
                },
            ),
        ),
{
    let ghost rel = columns_of(
        match relation {
            Some(m) => Some(*m),
            None => None,
        },
    );
    let ghost contents = tuple_contents(*tuple);
    let n = tuple_len(tuple);
    let mut cols: Vec<Column> = Vec::new();
    let mut i: usize = 0;
    while i < n
        invariant
            i <= n,
            n == contents.len(),
            contents == tuple_contents(*tuple),
            rel == columns_of(
                match relation {
                    Some(m) => Some(*m),
                    None => None,
                },
            ),
            cols@.map_values(|c: Column| c@) =~= row_view(contents, rel).take(i as int),
        decreases n - i,
    {
        let tc = tuple_column(tuple, i);
        let col = column_at(tc, i, relation);
        let ghost prev = cols@;
        assert(col@ == row_view(contents, rel)[i as int]);
        cols.push(col);
        assert(cols@.map_values(|c: Column| c@) =~= prev.map_values(|c: Column| c@).push(col@));
        i = i + 1;
        assert(cols@.map_values(|c: Column| c@) =~= row_view(contents, rel).take(i as int));
    }
    assert(row_view(contents, rel).take(n as int) =~= row_view(contents, rel));
    RowData { columns: cols }
}

impl WalDecodeState {
    /// A state with no cached relation and a zero transaction context.
    pub fn new() -> (s: Self)
        ensures
            s@ == initial_decode_state(),
    {
        let s = WalDecodeState { relations: HashMap::new(), xid: 0, commit_time: 0, lsn: 0 };
        assert(s@.relations =~= Map::<u32, RelationInfo>::empty());
        s
    }

    fn record(&self, id: u32, op: Operation, new_tuple: Option<RowData>, old_tuple: Option<RowData>) -> (r: WalRecord)
        ensures
            r@ == record_in(self@, id, op, row_option_view(new_tuple), row_option_view(old_tuple)),
    {
        let (schema, name, oid) = relation_info_for(&self.relations, id);
        WalRecord {
            lsn: self.lsn,
            table_schema: schema,
            table_name: name,
            operation: op,
            oid,
            new_tuple,
            old_tuple,
            tx_commit_time: self.commit_time,
            tx_xid: self.xid,
        }
    }

    /// Applies one message: returns the records it yields and updates the
    /// relation cache and transaction context.
    pub fn apply(&mut self, msg: WalMessage) -> (records: Vec<WalRecord>)
        ensures
            records_view(records@) == message_records(old(self)@, msg),
            final(self)@ == after_message(old(self)@, msg),
    {
        let ghost st = self@;
        let ghost m = msg;
        let mut records: Vec<WalRecord> = Vec::new();
        match msg {
            WalMessage::Relation(rel) => {
                let (id, _, _) = relation_header_of(&rel);
                self.relations.insert(id, rel);
            },
            WalMessage::Begin(final_lsn, commit_time, xid) => {
                self.lsn = final_lsn;
                self.commit_time = commit_time;
                self.xid = xid as u64;
            },
            WalMessage::Commit(commit_lsn, commit_time) => {
                self.lsn = commit_lsn;
                self.commit_time = commit_time;
            },
            WalMessage::Insert(id, tuple) => {
                let row = tuple_to_rowdata(&tuple, self.relations.get(&id));
                let r = self.record(id, Operation::Insert, Some(row), None);
                records.push(r);
            },
            WalMessage::Update(id, old_tuple, new_tuple) => {
                let new_row = tuple_to_rowdata(&new_tuple, self.relations.get(&id));
                let old_row = match old_tuple {
                    Some(t) => Some(tuple_to_rowdata(&t, self.relations.get(&id))),
                    None => None,
                };
                let r = self.record(id, Operation::Update, Some(new_row), old_row);
                records.push(r);
            },
            WalMessage::Delete(id, old_tuple) => {
                let old_row = tuple_to_rowdata(&old_tuple, self.relations.get(&id));
                let r = self.record(id, Operation::Delete, None, Some(old_row));
                records.push(r);
            },
            WalMessage::Truncate(ids) => {
                let mut i: usize = 0;
                while i < ids.len()
                    invariant
                        i <= ids@.len(),
                        self@ == st,
                        m == WalMessage::Truncate(ids),
                        records_view(records@) =~= message_records(st, m).take(i as int),
                    decreases ids@.len() - i,
                {
                    let r = self.record(ids[i], Operation::Truncate, None, None);
                    let ghost prev = records@;
                    assert(r@ == message_records(st, m)[i as int]);
                    records.push(r);
                    assert(records_view(records@) =~= records_view(prev).push(r@));
                    i = i + 1;
                    assert(records_view(records@) =~= message_records(st, m).take(i as int));
                }
                assert(message_records(st, m).take(ids@.len() as int) =~= message_records(st, m));
            },
            WalMessage::Other => {},
        }
        proof {
            assert(records_view(records@) =~= message_records(st, m));
            assert(self@.relations =~= after_message(st, m).relations);
        }
        records
    }
}

/// Decodes pgoutput payloads into WAL records.
pub struct WalParser {}

impl WalParser {
    pub fn new() -> (p: Self) {
        WalParser {}
    }

    /// Decodes every message of the payload, starting from an empty relation
    /// cache and a zero transaction context, and returns the records they yield
    /// in order. An empty payload yields no record; a message that cannot be
    /// decoded fails the whole payload, with `pgoutput parse error: ` and the
    /// decoder's error text as the message.
    pub fn parse(&self, wal_data: &[u8]) -> (r: Result<Vec<WalRecord>, WalParseError>)
        ensures
            match payload_outcome(wal_data@, initial_decode_state()) {
                Ok(recs) => r matches Ok(v) && records_view(v@) == recs,
                Err(t) => r matches Err(err) && err.message@ == parse_error_prefix() + t,
            },
    {
        let mut records: Vec<WalRecord> = Vec::new();
        let mut state = WalDecodeState::new();
        let mut offset: usize = 0;
        let n = wal_data.len();
        let ghost all = payload_outcome(wal_data@, initial_decode_state());
        assert(wal_data@.skip(0) =~= wal_data@);
        while offset < n
            invariant
                offset <= n,
                n == wal_data@.len(),
                all == payload_outcome(wal_data@, initial_decode_state()),
                match payload_outcome(wal_data@.skip(offset as int), state@) {
                    Ok(rest) => all matches Ok(recs) && recs == records_view(records@) + rest,
                    Err(t) => all == Err::<Seq<WalRecordView>, Seq<char>>(t),
                },
            decreases n - offset,
        {
            let rest = vstd::slice::slice_subrange(wal_data, offset, n);
            assert(rest@ =~= wal_data@.skip(offset as int));
            let ghost before = state@;
            match decode_pgoutput(rest) {
                Err(text) => {
                    proof {
                        reveal_strlit("pgoutput parse error: ");
                    }
                    let mut message = String::from_str("pgoutput parse error: ");
                    message.append(text.as_str());
                    assert(message@ =~= parse_error_prefix() + text@);
                    return Err(WalParseError { message });
                },
                Ok((used, msg)) => {
                    let ghost m = msg;
                    let produced = state.apply(msg);
                    let ghost old_records = records@;
                    let mut produced = produced;
                    records.append(&mut produced);
                    assert(records_view(records@) =~= records_view(old_records) + message_records(before, m));
                    if used == 0 || used > n - offset {
                        assert(all matches Ok(recs) && recs =~= records_view(records@));
                        return Ok(records);
                    }
                    assert(wal_data@.skip(offset as int).skip(used as int) =~= wal_data@.skip(offset + used));
                    offset = offset + used;
                },
            }
        }
        assert(all matches Ok(recs) && recs =~= records_view(records@));
        Ok(records)
    }
}

impl Default for WalParser {
    fn default() -> (p: Self) {
        WalParser::new()
    }
}

/// Record `r` belongs to relation `id` in state `st`: it carries the
/// relation's schema, name and oid (as cached, or the fallback for an unknown
/// relation) and the transaction context of the state.
pub open spec fn record_of_relation(r: WalRecordView, st: DecodeStateView, id: u32) -> bool {
    &&& (r.table_schema, r.table_name, r.oid) == relation_info(st.relations, id)
    &&& r.lsn == st.lsn
    &&& r.tx_commit_time == st.commit_time
    &&& r.tx_xid == st.xid
}

/// Law: what each kind of pgoutput message yields. An insert gives one
/// `Insert` record with the new row and no old row; an update one `Update`
/// record with the new row, and the old row exactly when the message carries
/// one; a delete one `Delete` record with the old row and no new row; a truncate
/// one `Truncate` record per truncated relation, in order, with no row; every
/// other message gives none. Each record belongs to its message's relation.
pub proof fn lemma_message_records_by_kind(st: DecodeStateView, msg: WalMessage)
    ensures
        ({
            let rs = message_records(st, msg);
            match msg {
                WalMessage::Insert(id, t) => {
                    &&& rs.len() == 1
                    &&& rs[0].operation == Operation::Insert
                    &&& rs[0].new_tuple == Some(row_in(st, id, t))
                    &&& rs[0].old_tuple is None
                    &&& record_of_relation(rs[0], st, id)
                },
                WalMessage::Update(id, old_t, new_t) => {
                    &&& rs.len() == 1
                    &&& rs[0].operation == Operation::Update
                    &&& rs[0].new_tuple == Some(row_in(st, id, new_t))
                    &&& (rs[0].old_tuple is Some <==> old_t is Some)
                    &&& (old_t matches Some(o) ==> rs[0].old_tuple == Some(row_in(st, id, o)))
                    &&& record_of_relation(rs[0], st, id)
                },
                WalMessage::Delete(id, old_t) => {
                    &&& rs.len() == 1
                    &&& rs[0].operation == Operation::Delete
                    &&& rs[0].new_tuple is None
                    &&& rs[0].old_tuple == Some(row_in(st, id, old_t))
                    &&& record_of_relation(rs[0], st, id)
                },
                WalMessage::Truncate(ids) => {
                    &&& rs.len() == ids@.len()
                    &&& forall|i: int|
                        0 <= i < rs.len() ==> {
                            &&& (#[trigger] rs[i]).operation == Operation::Truncate
                            &&& rs[i].new_tuple is None
                            &&& rs[i].old_tuple is None
                            &&& record_of_relation(rs[i], st, ids@[i])
                        }
                },
                _ => rs.len() == 0,
            }
        }),
{
}

/// Law: how a message moves the decoding state. A relation message caches its
/// relation under its id and keeps everything else; a begin takes the final
/// LSN, commit time and xid of its transaction; a commit takes its LSN and
/// commit time and keeps the xid; a row or truncate message, or any other,
/// changes nothing.
pub proof fn lemma_after_message_by_kind(st: DecodeStateView, msg: WalMessage)
    ensures
        ({
            let a = after_message(st, msg);
            match msg {
                WalMessage::Relation(rel) => {
                    &&& a.relations.contains_key(relation_header(rel).0)
                    &&& a.relations[relation_header(rel).0] == rel
                    &&& forall|id: u32|
                        id != relation_header(rel).0 ==> (#[trigger] a.relations.contains_key(id)
                            == st.relations.contains_key(id)) && (st.relations.contains_key(id)
                            ==> a.relations[id] == st.relations[id])
                    &&& a.lsn == st.lsn && a.commit_time == st.commit_time && a.xid == st.xid
                },
                WalMessage::Begin(final_lsn, commit_time, xid) => {
                    &&& a.lsn == final_lsn && a.commit_time == commit_time && a.xid == xid as u64
                    &&& a.relations == st.relations
                },
                WalMessage::Commit(commit_lsn, commit_time) => {
                    &&& a.lsn == commit_lsn && a.commit_time == commit_time && a.xid == st.xid
                    &&& a.relations == st.relations
                },
                _ => a == st,
            }
        }),
{
}

/// Law: the published name of each operation, distinct for each.
pub proof fn lemma_operation_names(op: Operation)
    ensures
        operation_name(Operation::Insert) == "INSERT"@,
        operation_name(Operation::Update) == "UPDATE"@,
        operation_name(Operation::Delete) == "DELETE"@,
        operation_name(Operation::Truncate) == "TRUNCATE"@,
        forall|other: Operation| #[trigger] operation_name(other) == operation_name(op) ==> other == op,
{
    reveal_strlit("INSERT");
    reveal_strlit("UPDATE");
    reveal_strlit("DELETE");
    reveal_strlit("TRUNCATE");
    assert("INSERT"@ =~= operation_name(Operation::Insert));
    assert("UPDATE"@ =~= operation_name(Operation::Update));
    assert("DELETE"@ =~= operation_name(Operation::Delete));
    assert("TRUNCATE"@ =~= operation_name(Operation::Truncate));
    assert forall|other: Operation| #[trigger] operation_name(other) == operation_name(op) implies other == op by {
        if other != op {
            assert(operation_name(other)[0] != operation_name(op)[0] || operation_name(other)[1] != operation_name(op)[1]);
        }
    }
}

/// Law: what each kind of wire column gives: `n` (null) and `u` (unchanged
/// TOASTed value) no value and null; `t` (text) its text when it is valid UTF-8
/// and else its bytes; `b` (binary) its bytes; none of these null.
pub proof fn lemma_column_kinds(c: (u8, Seq<u8>))
    ensures
        c.0 == 'n' as u8 || c.0 == 'u' as u8 ==> column_payload(c) == (None::<ColumnValueView>, true),
        c.0 == 't' as u8 && valid_utf8(c.1) ==> column_payload(c) == (Some(ColumnValueView::String(decode_utf8(c.1))), false),
        c.0 == 't' as u8 && !valid_utf8(c.1) ==> column_payload(c) == (Some(ColumnValueView::Bytes(c.1)), false),
        c.0 == 'b' as u8 ==> column_payload(c) == (Some(ColumnValueView::Bytes(c.1)), false),
{
}

/// Law: a cached relation gives its records its namespace, name and id; an
/// unknown one the schema `public`, its id in decimal as the name, and its id
/// as the oid.
pub proof fn lemma_relation_info(rels: Map<u32, RelationInfo>, id: u32)
    ensures
        rels.contains_key(id) ==> relation_info(rels, id) == (relation_header(rels[id]).1, relation_header(rels[id]).2, relation_header(rels[id]).0),
        !rels.contains_key(id) ==> relation_info(rels, id) == ("public"@, decimal(id as nat), id),
{
    reveal_strlit("public");
    assert(seq!['p', 'u', 'b', 'l', 'i', 'c'] =~= "public"@);
}

/// Law: a tuple becomes one column per wire column, in order; a column the
/// relation describes takes the relation's name and type, any other is named
/// `col` and its 1-based position, with type 0; each takes its wire column's
/// value and null flag.
pub proof fn lemma_row_columns(tuple: Seq<(u8, Seq<u8>)>, rel: Option<Seq<(Seq<char>, u32)>>)
    ensures
        row_view(tuple, rel).len() == tuple.len(),
        forall|i: int|
            0 <= i < tuple.len() ==> {
                let c = #[trigger] row_view(tuple, rel)[i];
                &&& (rel matches Some(cols) && i < cols.len()) ==> c.name == rel->Some_0[i].0 && c.type_oid == rel->Some_0[i].1
                &&& !(rel matches Some(cols) && i < cols.len()) ==> c.name == "col"@ + decimal((i + 1) as nat) && c.type_oid == 0
                &&& c.value == column_payload(tuple[i]).0
                &&& c.is_null == column_payload(tuple[i]).1
            },
{
    reveal_strlit("col");
    assert(seq!['c', 'o', 'l'] =~= "col"@);
}

} // verus!
