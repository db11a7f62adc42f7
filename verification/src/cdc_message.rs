//! The change events the consumer reads from the broker, and their text form.
use vstd::prelude::*;
use crate::text::{contains_text, decimal, lemma_contains_text_rules, parse_signed, parse_signed_text, push_decimal, push_upper_hex, upper_hex};

verus! {

/// A JSON value as the consumer reads it: its JSON text; what it holds as a
/// boolean and as a signed 64-bit integer, where it is one; the content of a
/// JSON string; and its value as a double (by its IEEE-754 bits), where it is a
/// number or a string that reads as one.
pub struct JsonValue {
    pub text: String,
    pub boolean: Option<bool>,
    pub integer: Option<i64>,
    pub string: Option<String>,
    pub float_bits: Option<u64>,
}

/// The integer a value stands for: the integer it is, or the one a string of a
/// signed decimal integer writes.
pub open spec fn integer_of(v: JsonValue) -> Option<i64> {
    match v.integer {
        Some(i) => Some(i),
        None => match v.string {
            Some(s) => match parse_signed(s@) {
                Some(n) => Some(n as i64),
                None => None,
            },
            None => None,
        },
    }
}

impl JsonValue {
    /// The integer the value stands for; see `integer_of`.
    pub fn as_integer(&self) -> (r: Option<i64>)
        ensures
            r == integer_of(*self),
    {
        match self.integer {
            Some(i) => Some(i),
            None => match &self.string {
                Some(s) => parse_signed_text(s.as_str()),
                None => None,
            },
        }
    }
}

/// One column of a row image.
pub struct Column {
    pub name: String,
    pub type_oid: u32,
    pub value: Option<JsonValue>,
    pub is_null: bool,
}

/// A row image.
pub struct Tuple {
    pub columns: Vec<Column>,
}

/// A change event as the writer publishes it.
pub struct CdcMessage {
    pub lsn: u64,
    pub table_schema: String,
    pub table_name: String,
    pub operation: String,
    pub oid: u32,
    pub new_tuple: Option<Tuple>,
    pub old_tuple: Option<Tuple>,
    pub tx_commit_time: i64,
    pub tx_xid: u64,
}

/// How a column's value is shown: `NULL` for a null, its JSON text, or `?` when
/// a non-null column carries no value.
pub open spec fn value_text(c: Column) -> Seq<char> {
    if c.is_null {
        "NULL"@
    } else {
        match c.value {
            Some(v) => v.text@,
            None => "?"@,
        }
    }
}

/// The line of one column: `  {name} (OID {type_oid}): {value}`.
pub open spec fn column_line(c: Column) -> Seq<char> {
    "  "@ + c.name@ + " (OID "@ + decimal(c.type_oid as nat) + "): "@ + value_text(c) + "\n"@
}

/// The lines of the first `k` columns.
pub open spec fn column_lines(cols: Seq<Column>, k: int) -> Seq<char>
    decreases k,
{
    if k <= 0 {
        Seq::empty()
    } else {
        column_lines(cols, k - 1) + column_line(cols[k - 1])
    }
}

/// A row image under its heading, or nothing when there is none.
pub open spec fn tuple_text(heading: Seq<char>, t: Option<Tuple>) -> Seq<char> {
    match t {
        Some(t) => heading + column_lines(t.columns@, t.columns@.len() as int),
        None => Seq::empty(),
    }
}

/// The text form of an event: a header line with table, operation, LSN in
/// uppercase hexadecimal, transaction id and relation OID, then the new and the
/// old row image, one line per column.
pub open spec fn cdc_text(m: CdcMessage) -> Seq<char> {
    "["@ + m.table_schema@ + "."@ + m.table_name@ + "] "@ + m.operation@ + " | LSN=0x"@ + upper_hex(m.lsn as nat)
        + " XID="@ + decimal(m.tx_xid as nat) + " OID="@ + decimal(m.oid as nat) + "\n"@
        + tuple_text("NEW_TUPLE:\n"@, m.new_tuple) + tuple_text("OLD_TUPLE:\n"@, m.old_tuple)
}

fn push_column(out: &mut String, c: &Column)
    ensures
        final(out)@ == old(out)@ + column_line(*c),
{
    out.append("  ");
    out.append(c.name.as_str());
    out.append(" (OID ");
    push_decimal(out, c.type_oid as u64);
    out.append("): ");
    if c.is_null {
        out.append("NULL");
    } else {
        match &c.value {
            Some(v) => out.append(v.text.as_str()),
            None => out.append("?"),
        }
    }
    out.append("\n");
    assert(final(out)@ =~= old(out)@ + column_line(*c));
}

fn push_tuple(out: &mut String, heading: &str, t: &Option<Tuple>)
    ensures
        final(out)@ == old(out)@ + tuple_text(heading@, *t),
{
    match t {
        Some(t) => {
            out.append(heading);
            let ghost start = out@;
            let mut k: usize = 0;
            while k < t.columns.len()
                invariant
                    k <= t.columns@.len(),
                    out@ == start + column_lines(t.columns@, k as int),
                decreases t.columns@.len() - k,
            {
                push_column(out, &t.columns[k]);
                k = k + 1;
                assert(out@ =~= start + column_lines(t.columns@, k as int));
            }
            assert(out@ =~= old(out)@ + tuple_text(heading@, Some(*t)));
        },
        None => {
            assert(out@ =~= old(out)@ + Seq::<char>::empty());
        },
    }
}

impl CdcMessage {
    /// The text form of the event, as the consumer prints it.
    pub fn to_string(&self) -> (r: String)
        ensures
            r@ == cdc_text(*self),
    {
        let mut out = String::new();
        out.append("[");
        out.append(self.table_schema.as_str());
        out.append(".");
        out.append(self.table_name.as_str());
        out.append("] ");
        out.append(self.operation.as_str());
        out.append(" | LSN=0x");
        push_upper_hex(&mut out, self.lsn);
        out.append(" XID=");
        push_decimal(&mut out, self.tx_xid);
        out.append(" OID=");
        push_decimal(&mut out, self.oid as u64);
        out.append("\n");
        push_tuple(&mut out, "NEW_TUPLE:\n", &self.new_tuple);
        push_tuple(&mut out, "OLD_TUPLE:\n", &self.old_tuple);
        assert(out@ =~= cdc_text(*self));
        out
    }
}

/// The line a column is shown with: two spaces, its name, its type OID, and
/// `NULL` for a null, its JSON text for a value, `?` for a non-null column
/// without one.
pub open spec fn shown_column(c: Column) -> Seq<char> {
    "  "@ + c.name@ + " (OID "@ + decimal(c.type_oid as nat) + "): "@ + (if c.is_null {
        "NULL"@
    } else if c.value is Some {
        (c.value->Some_0).text@
    } else {
        "?"@
    }) + "\n"@
}

proof fn lemma_lines_hold_each_column(cols: Seq<Column>, k: int)
    requires
        0 <= k <= cols.len(),
    ensures
        forall|i: int| 0 <= i < k ==> contains_text(column_lines(cols, k), #[trigger] shown_column(cols[i])),
    decreases k,
{
    lemma_contains_text_rules();
    if k > 0 {
        lemma_lines_hold_each_column(cols, k - 1);
        assert(column_line(cols[k - 1]) == shown_column(cols[k - 1]));
        assert forall|i: int| 0 <= i < k implies contains_text(column_lines(cols, k), #[trigger] shown_column(cols[i])) by {
            if i < k - 1 {
                assert(contains_text(column_lines(cols, k - 1), shown_column(cols[i])));
            }
        }
    }
}

/// Law: the text of an event starts with its table, operation and LSN, and
/// holds a line for every column of each row image it carries, under that
/// image's heading.
pub proof fn lemma_cdc_text_shows_event(m: CdcMessage)
    ensures
        cdc_text(m).take((m.table_schema@.len() + m.table_name@.len() + m.operation@.len() + 4) as int) == "["@
            + m.table_schema@ + "."@ + m.table_name@ + "] "@ + m.operation@,
        m.new_tuple is Some ==> contains_text(cdc_text(m), "NEW_TUPLE:\n"@),
        m.old_tuple is Some ==> contains_text(cdc_text(m), "OLD_TUPLE:\n"@),
        m.new_tuple matches Some(t) ==> forall|i: int|
            0 <= i < t.columns@.len() ==> contains_text(cdc_text(m), #[trigger] shown_column(t.columns@[i])),
        m.old_tuple matches Some(t) ==> forall|i: int|
            0 <= i < t.columns@.len() ==> contains_text(cdc_text(m), #[trigger] shown_column(t.columns@[i])),
{
    lemma_contains_text_rules();
    reveal_strlit("[");
    reveal_strlit(".");
    reveal_strlit("] ");
    let head = "["@ + m.table_schema@ + "."@ + m.table_name@ + "] "@ + m.operation@;
    assert(cdc_text(m).take(head.len() as int) =~= head);
    if let Some(t) = m.new_tuple {
        lemma_lines_hold_each_column(t.columns@, t.columns@.len() as int);
    }
    if let Some(t) = m.old_tuple {
        lemma_lines_hold_each_column(t.columns@, t.columns@.len() as int);
    }
}

} // verus!
