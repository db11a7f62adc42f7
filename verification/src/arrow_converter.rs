//! Columnar buffering of change events per table, and the Arrow record
//! batches built from it.
use vstd::prelude::*;
use arrow::array::{make_array, Array, ArrayData, BooleanArray, Float64Array, Int32Array, Int64Array, StringArray};
use arrow::buffer::{Buffer, NullBuffer, ScalarBuffer};
use arrow::datatypes::{DataType, Field, Schema};
use arrow::error::ArrowError;
use arrow::record_batch::RecordBatch;
use std::sync::Arc;
use crate::cdc_message::{integer_of, CdcMessage, Column, JsonValue, Tuple};
use crate::text::{decimal, push_decimal};

verus! {

/// The Arrow column type of a PostgreSQL column.
#[derive(Clone, Copy, Debug, PartialEq, Eq, Structural)]
pub enum ArrowType {
    Boolean,
    Binary,
    Int32,
    Int64,
    Float32,
    Float64,
    Utf8,
}

/// The Arrow type a PostgreSQL type OID is stored as; unknown types, numeric,
/// timestamps and uuid are stored as text.
pub open spec fn arrow_type_of(oid: u32) -> ArrowType {
    if oid == 16 {
        ArrowType::Boolean
    } else if oid == 17 {
        ArrowType::Binary
    } else if oid == 20 {
        ArrowType::Int64
    } else if oid == 21 || oid == 23 {
        ArrowType::Int32
    } else if oid == 700 {
        ArrowType::Float32
    } else if oid == 701 {
        ArrowType::Float64
    } else {
        ArrowType::Utf8
    }
}

/// Maps a PostgreSQL type OID to the Arrow type its column is stored as.
pub fn pg_oid_to_arrow_type(oid: u32) -> (t: ArrowType)
    ensures
        t == arrow_type_of(oid),
{
    match oid {
        16 => ArrowType::Boolean,
        17 => ArrowType::Binary,
        20 => ArrowType::Int64,
        21 => ArrowType::Int32,
        23 => ArrowType::Int32,
        700 => ArrowType::Float32,
        701 => ArrowType::Float64,
        _ => ArrowType::Utf8,
    }
}

/// Why an event could not be buffered or a batch built.
#[derive(Debug)]
pub enum ConvertError {
    /// The first event of a table carries no row image to take the schema from.
    NoTupleForSchema,
    /// The event carries no row image.
    NoTuple,
    /// The row image has another number of columns than the table.
    ColumnCountMismatch { expected: usize, got: usize },
    /// A column is not null but carries no value.
    MissingValue,
    /// A boolean column holds something else.
    ExpectedBoolean,
    /// A 32-bit integer column holds something else.
    ExpectedInteger,
    /// A 64-bit integer column holds something else.
    ExpectedI64,
    /// A floating-point column holds something else.
    ExpectedNumeric,
    /// A text column holds more bytes than an Arrow UTF-8 array can index.
    TextTooLong,
    /// Arrow refused the record batch, for the reason given.
    RecordBatch(String),
}

impl ConvertError {
    /// The error message.
    pub fn message(&self) -> (r: String)
        ensures
            r@ == convert_error_text(*self),
    {
        match self {
            ConvertError::NoTupleForSchema => String::from_str("No tuple data for schema inference"),
            ConvertError::NoTuple => String::from_str("No tuple data in CDC message"),
            ConvertError::ColumnCountMismatch { expected, got } => {
                let mut s = String::from_str("Column count mismatch: expected ");
                push_decimal(&mut s, *expected as u64);
                s.append(", got ");
                push_decimal(&mut s, *got as u64);
                s
            },
            ConvertError::MissingValue => String::from_str("Value is None but is_null is false"),
            ConvertError::ExpectedBoolean => String::from_str("Expected boolean value"),
            ConvertError::ExpectedInteger => String::from_str("Expected integer value"),
            ConvertError::ExpectedI64 => String::from_str("Expected i64 value"),
            ConvertError::ExpectedNumeric => String::from_str("Expected numeric value"),
            ConvertError::TextTooLong => String::from_str("Text column exceeds the offset range of a UTF-8 array"),
            ConvertError::RecordBatch(reason) => {
                let mut s = String::from_str("RecordBatch error: ");
                s.append(reason.as_str());
                s
            },
        }
    }
}

/// The message of an error.
pub open spec fn convert_error_text(e: ConvertError) -> Seq<char> {
    match e {
        ConvertError::NoTupleForSchema => "No tuple data for schema inference"@,
        ConvertError::NoTuple => "No tuple data in CDC message"@,
        ConvertError::ColumnCountMismatch { expected, got } => "Column count mismatch: expected "@ + decimal(
            expected as nat,
        ) + ", got "@ + decimal(got as nat),
        ConvertError::MissingValue => "Value is None but is_null is false"@,
        ConvertError::ExpectedBoolean => "Expected boolean value"@,
        ConvertError::ExpectedInteger => "Expected integer value"@,
        ConvertError::ExpectedI64 => "Expected i64 value"@,
        ConvertError::ExpectedNumeric => "Expected numeric value"@,
        ConvertError::TextTooLong => "Text column exceeds the offset range of a UTF-8 array"@,
        ConvertError::RecordBatch(reason) => "RecordBatch error: "@ + reason@,
    }
}

/// One value appended to a column.
pub enum Cell {
    Null,
    Bool(bool),
    I32(i32),
    I64(i64),
    Float(u64),
    Text(Seq<char>),
}

/// What a column of type `t` takes from a row image's column: a null, the
/// converted value, or why it cannot. Integer columns take the integer the value
/// stands for (a number, or a string that writes one), 32-bit columns its low 32
/// bits; text columns take the value's JSON text.
pub open spec fn cell_of(t: ArrowType, c: Column) -> Result<Cell, ConvertError> {
    if c.is_null {
        Ok(Cell::Null)
    } else {
        match c.value {
            None => Err(ConvertError::MissingValue),
            Some(v) => match t {
                ArrowType::Boolean => match v.boolean {
                    Some(b) => Ok(Cell::Bool(b)),
                    None => Err(ConvertError::ExpectedBoolean),
                },
                ArrowType::Int32 => match integer_of(v) {
                    Some(i) => Ok(Cell::I32(i as i32)),
                    None => Err(ConvertError::ExpectedInteger),
                },
                ArrowType::Int64 => match integer_of(v) {
                    Some(i) => Ok(Cell::I64(i)),
                    None => Err(ConvertError::ExpectedI64),
                },
                ArrowType::Float32 | ArrowType::Float64 => match v.float_bits {
                    Some(f) => Ok(Cell::Float(f)),
                    None => Err(ConvertError::ExpectedNumeric),
                },
                ArrowType::Utf8 | ArrowType::Binary => Ok(Cell::Text(v.text@)),
            },
        }
    }
}

/// The values buffered for one column, nulls as `None`: booleans, 32-bit or
/// 64-bit integers, doubles by their IEEE-754 bits, or text.
pub enum ColumnValues {
    Boolean(Vec<Option<bool>>),
    Int32(Vec<Option<i32>>),
    Int64(Vec<Option<i64>>),
    Float64(Vec<Option<u64>>),
    Utf8(Vec<Option<String>>),
}

pub enum ColumnValuesView {
    Boolean(Seq<Option<bool>>),
    Int32(Seq<Option<i32>>),
    Int64(Seq<Option<i64>>),
    Float64(Seq<Option<u64>>),
    Utf8(Seq<Option<Seq<char>>>),
}

/// The text of an optional string.
pub open spec fn text_option(s: Option<String>) -> Option<Seq<char>> {
    match s {
        Some(t) => Some(t@),
        None => None,
    }
}

impl View for ColumnValues {
    type V = ColumnValuesView;

    open spec fn view(&self) -> ColumnValuesView {
        match self {
            ColumnValues::Boolean(v) => ColumnValuesView::Boolean(v@),
            ColumnValues::Int32(v) => ColumnValuesView::Int32(v@),
            ColumnValues::Int64(v) => ColumnValuesView::Int64(v@),
            ColumnValues::Float64(v) => ColumnValuesView::Float64(v@),
            ColumnValues::Utf8(v) => ColumnValuesView::Utf8(v@.map_values(|s: Option<String>| text_option(s))),
        }
    }
}

/// The empty column a field of type `t` is buffered in: doubles for both float
/// types, text for text and binary.
pub open spec fn empty_column(t: ArrowType) -> ColumnValuesView {
    match t {
        ArrowType::Boolean => ColumnValuesView::Boolean(Seq::empty()),
        ArrowType::Int32 => ColumnValuesView::Int32(Seq::empty()),
        ArrowType::Int64 => ColumnValuesView::Int64(Seq::empty()),
        ArrowType::Float32 | ArrowType::Float64 => ColumnValuesView::Float64(Seq::empty()),
        ArrowType::Utf8 | ArrowType::Binary => ColumnValuesView::Utf8(Seq::empty()),
    }
}

/// A column is of the kind a field of type `t` is buffered in.
pub open spec fn column_fits(t: ArrowType, c: ColumnValuesView) -> bool {
    match t {
        ArrowType::Boolean => c is Boolean,
        ArrowType::Int32 => c is Int32,
        ArrowType::Int64 => c is Int64,
        ArrowType::Float32 | ArrowType::Float64 => c is Float64,
        ArrowType::Utf8 | ArrowType::Binary => c is Utf8,
    }
}

/// The number of values in a column.
pub open spec fn column_len(c: ColumnValuesView) -> nat {
    match c {
        ColumnValuesView::Boolean(s) => s.len(),
        ColumnValuesView::Int32(s) => s.len(),
        ColumnValuesView::Int64(s) => s.len(),
        ColumnValuesView::Float64(s) => s.len(),
        ColumnValuesView::Utf8(s) => s.len(),
    }
}

/// A column with one more value at the end.
pub open spec fn column_push(c: ColumnValuesView, v: Cell) -> ColumnValuesView {
    match c {
        ColumnValuesView::Boolean(s) => ColumnValuesView::Boolean(s.push(
            match v {
                Cell::Bool(b) => Some(b),
                _ => None,
            },
        )),
        ColumnValuesView::Int32(s) => ColumnValuesView::Int32(s.push(
            match v {
                Cell::I32(i) => Some(i),
                _ => None,
            },
        )),
        ColumnValuesView::Int64(s) => ColumnValuesView::Int64(s.push(
            match v {
                Cell::I64(i) => Some(i),
                _ => None,
            },
        )),
        ColumnValuesView::Float64(s) => ColumnValuesView::Float64(s.push(
            match v {
                Cell::Float(f) => Some(f),
                _ => None,
            },
        )),
        ColumnValuesView::Utf8(s) => ColumnValuesView::Utf8(s.push(
            match v {
                Cell::Text(t) => Some(t),
                _ => None,
            },
        )),
    }
}

fn new_column(t: ArrowType) -> (c: ColumnValues)
    ensures
        c@ == empty_column(t),
{
    match t {
        ArrowType::Boolean => ColumnValues::Boolean(Vec::new()),
        ArrowType::Int32 => ColumnValues::Int32(Vec::new()),
        ArrowType::Int64 => ColumnValues::Int64(Vec::new()),
        ArrowType::Float32 | ArrowType::Float64 => ColumnValues::Float64(Vec::new()),
        ArrowType::Utf8 | ArrowType::Binary => {
            let v: Vec<Option<String>> = Vec::new();
            assert(v@.map_values(|s: Option<String>| text_option(s)) =~= Seq::<Option<Seq<char>>>::empty());
            ColumnValues::Utf8(v)
        },
    }
}

fn push_null(builder: &mut ColumnValues)
    ensures
        final(builder)@ == column_push(old(builder)@, Cell::Null),
{
    match builder {
        ColumnValues::Boolean(v) => v.push(None),
        ColumnValues::Int32(v) => v.push(None),
        ColumnValues::Int64(v) => v.push(None),
        ColumnValues::Float64(v) => v.push(None),
        ColumnValues::Utf8(v) => {
            let ghost before = v@;
            v.push(None);
            assert(v@.map_values(|s: Option<String>| text_option(s)) =~= before.map_values(
                |s: Option<String>| text_option(s),
            ).push(None));
        },
    }
}

/// Appends the value of row-image column `col` to `builder`, the column of a
/// field of type `arrow_type`: a null as a null, otherwise the value converted
/// to the column's type. A value that does not convert is refused and the
/// column left as it was.
pub fn append_value_to_builder(builder: &mut ColumnValues, col: &Column, arrow_type: ArrowType) -> (r: Result<
    (),
    ConvertError,
>)
    requires
        column_fits(arrow_type, old(builder)@),
    ensures
        column_fits(arrow_type, final(builder)@),
        match cell_of(arrow_type, *col) {
            Ok(v) => r is Ok && final(builder)@ == column_push(old(builder)@, v),
            Err(e) => r == Err::<(), ConvertError>(e) && final(builder)@ == old(builder)@,
        },
{
    if col.is_null {
        push_null(builder);
        return Ok(());
    }
    let v: &JsonValue = match &col.value {
        Some(v) => v,
        None => {
            return Err(ConvertError::MissingValue);
        },
    };
    match builder {
        ColumnValues::Boolean(values) => match v.boolean {
            Some(b) => {
                values.push(Some(b));
                Ok(())
            },
            None => Err(ConvertError::ExpectedBoolean),
        },
        ColumnValues::Int32(values) => match v.as_integer() {
            Some(i) => {
                #[verifier::truncate]
                let narrow = i as i32;
                values.push(Some(narrow));
                Ok(())
            },
            None => Err(ConvertError::ExpectedInteger),
        },
        ColumnValues::Int64(values) => match v.as_integer() {
            Some(i) => {
                values.push(Some(i));
                Ok(())
            },
            None => Err(ConvertError::ExpectedI64),
        },
        ColumnValues::Float64(values) => match v.float_bits {
            Some(f) => {
                values.push(Some(f));
                Ok(())
            },
            None => Err(ConvertError::ExpectedNumeric),
        },
        ColumnValues::Utf8(values) => {
            let ghost before = values@;
            let text = v.text.clone();
            values.push(Some(text));
            assert(values@.map_values(|s: Option<String>| text_option(s)) =~= before.map_values(
                |s: Option<String>| text_option(s),
            ).push(Some(v.text@)));
            Ok(())
        },
    }
}

/// Whether the value of row-image column `col` converts for a field of type `t`,
/// and if not, why.
fn check_value(col: &Column, t: ArrowType) -> (r: Result<(), ConvertError>)
    ensures
        match cell_of(t, *col) {
            Ok(_) => r is Ok,
            Err(e) => r == Err::<(), ConvertError>(e),
        },
{
    if col.is_null {
        return Ok(());
    }
    match &col.value {
        None => Err(ConvertError::MissingValue),
        Some(v) => match t {
            ArrowType::Boolean => match v.boolean {
                Some(_) => Ok(()),
                None => Err(ConvertError::ExpectedBoolean),
            },
            ArrowType::Int32 => match v.as_integer() {
                Some(_) => Ok(()),
                None => Err(ConvertError::ExpectedInteger),
            },
            ArrowType::Int64 => match v.as_integer() {
                Some(_) => Ok(()),
                None => Err(ConvertError::ExpectedI64),
            },
            ArrowType::Float32 | ArrowType::Float64 => match v.float_bits {
                Some(_) => Ok(()),
                None => Err(ConvertError::ExpectedNumeric),
            },
            ArrowType::Utf8 | ArrowType::Binary => Ok(()),
        },
    }
}

/// What is kept of each buffered row besides its values.
pub struct RowMetadata {
    pub operation: String,
    pub lsn: u64,
    pub tx_xid: u64,
    pub tx_commit_time: i64,
}

pub struct RowMetadataView {
    pub operation: Seq<char>,
    pub lsn: u64,
    pub tx_xid: u64,
    pub tx_commit_time: i64,
}

impl View for RowMetadata {
    type V = RowMetadataView;

    open spec fn view(&self) -> RowMetadataView {
        RowMetadataView {
            operation: self.operation@,
            lsn: self.lsn,
            tx_xid: self.tx_xid,
            tx_commit_time: self.tx_commit_time,
        }
    }
}

/// The metadata kept of an event's row.
pub open spec fn metadata_of(m: CdcMessage) -> RowMetadataView {
    RowMetadataView { operation: m.operation@, lsn: m.lsn, tx_xid: m.tx_xid, tx_commit_time: m.tx_commit_time }
}

/// The row image of an event: the new one, or else the old one.
pub open spec fn row_image(m: CdcMessage) -> Option<Tuple> {
    match m.new_tuple {
        Some(t) => Some(t),
        None => m.old_tuple,
    }
}

/// The schema a row image gives a table: each column's name with the Arrow
/// type of its type OID.
pub open spec fn schema_of(t: Tuple) -> Seq<(Seq<char>, ArrowType)> {
    t.columns@.map_values(|c: Column| (c.name@, arrow_type_of(c.type_oid)))
}

/// A table's buffered rows: its schema, one column of values per field, the
/// number of complete rows, and their metadata.
pub struct TableBufferView {
    pub fields: Seq<(Seq<char>, ArrowType)>,
    pub columns: Seq<ColumnValuesView>,
    pub row_count: nat,
    pub rows: Seq<RowMetadataView>,
}

/// Every field has a column of its kind.
pub open spec fn buffer_fits(b: TableBufferView) -> bool {
    &&& b.columns.len() == b.fields.len()
    &&& forall|i: int| 0 <= i < b.fields.len() ==> column_fits(#[trigger] b.fields[i].1, b.columns[i])
}

/// How many leading columns of a row image, from the `k`-th on, convert to
/// their field's type.
pub open spec fn converted_prefix(fields: Seq<(Seq<char>, ArrowType)>, cols: Seq<Column>, k: int) -> int
    decreases cols.len() - k,
{
    if k < 0 || k >= cols.len() || cell_of(fields[k].1, cols[k]) is Err {
        k
    } else {
        converted_prefix(fields, cols, k + 1)
    }
}

/// The columns after the values of the first `n` row-image columns were
/// appended.
pub open spec fn appended(
    columns: Seq<ColumnValuesView>,
    fields: Seq<(Seq<char>, ArrowType)>,
    cols: Seq<Column>,
    n: int,
) -> Seq<ColumnValuesView> {
    Seq::new(
        columns.len(),
        |i: int|
            if i < n {
                column_push(columns[i], cell_of(fields[i].1, cols[i])->Ok_0)
            } else {
                columns[i]
            },
    )
}

/// What adding an event's row does to a table's buffer, and its result. With no
/// row image, or one with another number of columns, nothing changes. When every
/// value converts, each is appended to its column and the row counted; otherwise
/// nothing changes and the error of the first value that does not convert is
/// returned.
pub open spec fn add_row_outcome(b: TableBufferView, m: CdcMessage) -> (TableBufferView, Result<(), ConvertError>) {
    match row_image(m) {
        None => (b, Err(ConvertError::NoTuple)),
        Some(t) => if t.columns@.len() != b.fields.len() {
            (b, Err(ConvertError::ColumnCountMismatch { expected: b.fields.len() as usize, got: t.columns@.len() as usize }))
        } else {
            let n = converted_prefix(b.fields, t.columns@, 0);
            if n == t.columns@.len() {
                (
                    TableBufferView { columns: appended(b.columns, b.fields, t.columns@, n), row_count: b.row_count + 1, rows: b.rows.push(metadata_of(m)), ..b },
                    Ok(()),
                )
            } else {
                (b, Err(cell_of(b.fields[n].1, t.columns@[n])->Err_0))
            }
        },
    }
}

/// Accumulates the rows of one table, column by column.
pub struct TableBuffer {
    fields: Vec<(String, ArrowType)>,
    columns: Vec<ColumnValues>,
    row_count: usize,
    row_metadata: Vec<RowMetadata>,
}

impl View for TableBuffer {
    type V = TableBufferView;

    closed spec fn view(&self) -> TableBufferView {
        TableBufferView {
            fields: self.fields@.map_values(|f: (String, ArrowType)| (f.0@, f.1)),
            columns: self.columns@.map_values(|c: ColumnValues| c@),
            row_count: self.row_count as nat,
            rows: self.row_metadata@.map_values(|r: RowMetadata| r@),
        }
    }
}

proof fn lemma_converted_prefix_bounds(fields: Seq<(Seq<char>, ArrowType)>, cols: Seq<Column>, k: int)
    requires
        0 <= k <= cols.len(),
    ensures
        k <= converted_prefix(fields, cols, k) <= cols.len(),
        forall|i: int| k <= i < converted_prefix(fields, cols, k) ==> cell_of(fields[i].1, cols[i]) is Ok,
        converted_prefix(fields, cols, k) < cols.len() ==> cell_of(
            fields[converted_prefix(fields, cols, k)].1,
            cols[converted_prefix(fields, cols, k)],
        ) is Err,
    decreases cols.len() - k,
{
    if k < cols.len() && cell_of(fields[k].1, cols[k]) is Ok {
        lemma_converted_prefix_bounds(fields, cols, k + 1);
    }
}

impl TableBuffer {
    /// Every field has a column of its kind, holding one value per counted row.
    pub closed spec fn wf(&self) -> bool {
        &&& buffer_fits(self@)
        &&& columns_aligned(self@)
    }

    /// A buffer for the table of `msg`, its schema taken from the event's row
    /// image (new, or else old), with no row.
    pub fn from_cdc_message(msg: &CdcMessage) -> (r: Result<Self, ConvertError>)
        ensures
            match row_image(*msg) {
                None => r == Err::<Self, ConvertError>(ConvertError::NoTupleForSchema),
                Some(t) => r matches Ok(b) && b.wf() && b@ == (TableBufferView {
                    fields: schema_of(t),
                    columns: schema_of(t).map_values(|f: (Seq<char>, ArrowType)| empty_column(f.1)),
                    row_count: 0,
                    rows: Seq::empty(),
                }),
            },
    {
        let tuple: &Tuple = match &msg.new_tuple {
            Some(t) => t,
            None => match &msg.old_tuple {
                Some(t) => t,
                None => {
                    return Err(ConvertError::NoTupleForSchema);
                },
            },
        };
        let mut fields: Vec<(String, ArrowType)> = Vec::new();
        let mut columns: Vec<ColumnValues> = Vec::new();
        let mut i: usize = 0;
        while i < tuple.columns.len()
            invariant
                i <= tuple.columns@.len(),
                fields@.len() == i,
                columns@.len() == i,
                forall|k: int|
                    0 <= k < i ==> (#[trigger] fields@[k]).0@ == tuple.columns@[k].name@ && fields@[k].1 == arrow_type_of(
                        tuple.columns@[k].type_oid,
                    ),
                forall|k: int| 0 <= k < i ==> (#[trigger] columns@[k])@ == empty_column(fields@[k].1),
            decreases tuple.columns@.len() - i,
        {
            let t = pg_oid_to_arrow_type(tuple.columns[i].type_oid);
            fields.push((tuple.columns[i].name.clone(), t));
            columns.push(new_column(t));
            i = i + 1;
        }
        let b = TableBuffer { fields, columns, row_count: 0, row_metadata: Vec::new() };
        assert(b@.fields =~= schema_of(*tuple));
        assert(b@.columns =~= schema_of(*tuple).map_values(|f: (Seq<char>, ArrowType)| empty_column(f.1)));
        assert(b@.rows =~= Seq::<RowMetadataView>::empty());
        Ok(b)
    }

    /// The table's fields: each column's name and Arrow type.
    pub fn schema(&self) -> (r: &Vec<(String, ArrowType)>)
        ensures
            r@.map_values(|f: (String, ArrowType)| (f.0@, f.1)) == self@.fields,
    {
        &self.fields
    }

    /// The number of complete rows buffered.
    pub fn row_count(&self) -> (r: usize)
        ensures
            r == self@.row_count,
    {
        self.row_count
    }

    /// The metadata of the buffered rows, in order.
    pub fn row_metadata(&self) -> (r: &Vec<RowMetadata>)
        ensures
            r@.map_values(|m: RowMetadata| m@) == self@.rows,
    {
        &self.row_metadata
    }

    /// The buffered values, one column per field.
    pub fn columns(&self) -> (r: &Vec<ColumnValues>)
        ensures
            r@.map_values(|c: ColumnValues| c@) == self@.columns,
    {
        &self.columns
    }

    /// Adds the row of `msg` (its new row image, or else its old one); see
    /// `add_row_outcome` for what a refused row leaves behind.
    pub fn add_row(&mut self, msg: &CdcMessage) -> (r: Result<(), ConvertError>)
        requires
            old(self).wf(),
            old(self)@.row_count < usize::MAX,
        ensures
            final(self).wf(),
            (final(self)@, r) == add_row_outcome(old(self)@, *msg),
    {
        let tuple: &Tuple = match &msg.new_tuple {
            Some(t) => t,
            None => match &msg.old_tuple {
                Some(t) => t,
                None => {
                    return Err(ConvertError::NoTuple);
                },
            },
        };
        if tuple.columns.len() != self.fields.len() {
            return Err(ConvertError::ColumnCountMismatch { expected: self.fields.len(), got: tuple.columns.len() });
        }
        let ghost b = self@;
        let ghost cols = tuple.columns@;
        proof {
            lemma_converted_prefix_bounds(b.fields, cols, 0);
        }
        let ghost n = converted_prefix(b.fields, cols, 0);
        let mut idx: usize = 0;
        while idx < tuple.columns.len()
            invariant
                idx <= cols.len(),
                cols == tuple.columns@,
                cols.len() == b.fields.len(),
                b == self@,
                self == old(self),
                self.wf(),
                row_image(*msg) == Some(*tuple),
                n == converted_prefix(b.fields, cols, 0),
                0 <= n <= cols.len(),
                forall|i: int| 0 <= i < n ==> cell_of(b.fields[i].1, cols[i]) is Ok,
                n < cols.len() ==> cell_of(b.fields[n].1, cols[n]) is Err,
                forall|i: int| 0 <= i < idx ==> cell_of(b.fields[i].1, cols[i]) is Ok,
            decreases cols.len() - idx,
        {
            assert(self@.fields[idx as int].1 == self.fields@[idx as int].1);
            match check_value(&tuple.columns[idx], self.fields[idx].1) {
                Ok(()) => {},
                Err(e) => {
                    assert(idx == n) by {
                        if n < idx {
                            assert(cell_of(b.fields[n].1, cols[n]) is Ok);
                        }
                    }
                    assert(e == cell_of(b.fields[n].1, cols[n])->Err_0);
                    return Err(e);
                },
            }
            idx = idx + 1;
        }
        assert(n == cols.len()) by {
            if n < cols.len() {
                assert(cell_of(b.fields[n].1, cols[n]) is Ok);
            }
        }
        idx = 0;
        while idx < tuple.columns.len()
            invariant
                idx <= cols.len(),
                cols == tuple.columns@,
                row_image(*msg) == Some(*tuple),
                cols.len() == b.fields.len(),
                b == old(self)@,
                buffer_fits(b),
                n == converted_prefix(b.fields, cols, 0),
                n == cols.len(),
                forall|i: int| 0 <= i < n ==> cell_of(b.fields[i].1, cols[i]) is Ok,
                self.fields == old(self).fields,
                self.row_count == old(self).row_count,
                self.row_metadata == old(self).row_metadata,
                self@.columns == appended(b.columns, b.fields, cols, idx as int),
                buffer_fits(self@),
            decreases cols.len() - idx,
        {
            let t = self.fields[idx].1;
            assert(self@.columns[idx as int] == self.columns@[idx as int]@);
            assert(self@.fields[idx as int].1 == t);
            let mut column = self.columns.remove(idx);
            assert(column@ == b.columns[idx as int]);
            let res = append_value_to_builder(&mut column, &tuple.columns[idx], t);
            self.columns.insert(idx, column);
            match res {
                Ok(()) => {
                    assert(self@.columns =~= appended(b.columns, b.fields, cols, idx + 1));
                },
                Err(e) => {
                    return Err(e);
                },
            }
            idx = idx + 1;
        }
        self.row_count = self.row_count + 1;
        self.row_metadata.push(
            RowMetadata {
                operation: msg.operation.clone(),
                lsn: msg.lsn,
                tx_xid: msg.tx_xid,
                tx_commit_time: msg.tx_commit_time,
            },
        );
        assert(self@.rows =~= b.rows.push(metadata_of(*msg)));
        proof {
            lemma_add_row_alignment(b, *msg);
        }
        Ok(())
    }
}

#[verifier::external_type_specification]
#[verifier::external_body]
pub struct ExArrayData(ArrayData);

#[verifier::external_type_specification]
#[verifier::external_body]
pub struct ExField(Field);

/// An Arrow record batch. Verus does not take `RecordBatch` itself in a
/// signature, so the batch is held here, out of its sight.
#[verifier::external_body]
pub struct ArrowBatch {
    pub batch: RecordBatch,
}

#[verifier::external_type_specification]
#[verifier::external_body]
pub struct ExArrowError(ArrowError);

/// The Arrow array data of a boolean column with these values.
pub uninterp spec fn arrow_boolean_data(values: Seq<Option<bool>>) -> ArrayData;

/// The Arrow array data of a 32-bit integer column with these values.
pub uninterp spec fn arrow_int32_data(values: Seq<Option<i32>>) -> ArrayData;

/// The Arrow array data of a 64-bit integer column with these values.
pub uninterp spec fn arrow_int64_data(values: Seq<Option<i64>>) -> ArrayData;

/// The Arrow array data of a double column with these IEEE-754 bit patterns,
/// each valid or null as `valid` says.
pub uninterp spec fn arrow_float64_data(bits: Seq<u64>, valid: Seq<bool>) -> ArrayData;

/// The Arrow array data of a UTF-8 column with these values.
pub uninterp spec fn arrow_utf8_data(values: Seq<Option<Seq<char>>>) -> ArrayData;

/// The nullable Arrow field of this name and type.
pub uninterp spec fn arrow_field(name: Seq<char>, t: ArrowType) -> Field;

/// What `RecordBatch::try_new` makes of a schema of these fields and these
/// columns.
pub uninterp spec fn arrow_record_batch(fields: Seq<Field>, columns: Seq<ArrayData>) -> Result<ArrowBatch, ArrowError>;

/// The number of columns of a record batch.
pub uninterp spec fn arrow_batch_columns(b: ArrowBatch) -> usize;

/// The number of rows of a record batch.
pub uninterp spec fn arrow_batch_rows(b: ArrowBatch) -> usize;

/// `BooleanArray::from` a vector of optional booleans, as array data.
#[verifier::external_body]
fn boolean_data(values: Vec<Option<bool>>) -> (r: ArrayData)
    ensures
        r == arrow_boolean_data(values@),
{
    BooleanArray::from(values).into_data()
}

/// `Int32Array::from` a vector of optional integers, as array data.
#[verifier::external_body]
fn int32_data(values: Vec<Option<i32>>) -> (r: ArrayData)
    ensures
        r == arrow_int32_data(values@),
{
    Int32Array::from(values).into_data()
}

/// `Int64Array::from` a vector of optional integers, as array data.
#[verifier::external_body]
fn int64_data(values: Vec<Option<i64>>) -> (r: ArrayData)
    ensures
        r == arrow_int64_data(values@),
{
    Int64Array::from(values).into_data()
}

/// `Float64Array::new` over the bit patterns in `bits` (a buffer of 64-bit
/// words read as doubles) with the validity `valid`, as array data. The two
/// have one entry per row; `new` panics otherwise.
#[verifier::external_body]
fn float64_data(bits: Vec<u64>, valid: Vec<bool>) -> (r: ArrayData)
    requires
        bits@.len() == valid@.len(),
    ensures
        r == arrow_float64_data(bits@, valid@),
{
    let n = bits.len();
    Float64Array::new(ScalarBuffer::new(Buffer::from_vec(bits), 0, n), Some(NullBuffer::from(valid))).into_data()
}

/// The number of bytes of a character in UTF-8.
pub open spec fn utf8_width(c: char) -> nat {
    let u = c as u32;
    if u < 0x80 {
        1
    } else if u < 0x800 {
        2
    } else if u < 0x10000 {
        3
    } else {
        4
    }
}

/// The number of bytes of a text in UTF-8.
pub open spec fn utf8_len(t: Seq<char>) -> nat
    decreases t.len(),
{
    if t.len() == 0 {
        0
    } else {
        utf8_len(t.drop_last()) + utf8_width(t.last())
    }
}

/// The number of UTF-8 bytes of the values of a text column.
pub open spec fn text_column_bytes(s: Seq<Option<Seq<char>>>) -> nat
    decreases s.len(),
{
    if s.len() == 0 {
        0
    } else {
        text_column_bytes(s.drop_last()) + match s.last() {
            Some(t) => utf8_len(t),
            None => 0,
        }
    }
}

/// The largest offset of an Arrow UTF-8 array, `i32::MAX`.
pub const MAX_TEXT_OFFSET: u64 = 0x7fff_ffff;

proof fn lemma_utf8_len_prefix(t: Seq<char>, i: int)
    requires
        0 <= i <= t.len(),
    ensures
        utf8_len(t.take(i)) <= utf8_len(t),
    decreases t.len() - i,
{
    if i < t.len() {
        assert(t.take(i + 1).drop_last() =~= t.take(i));
        lemma_utf8_len_prefix(t, i + 1);
    } else {
        assert(t.take(i) =~= t);
    }
}

proof fn lemma_text_bytes_prefix(s: Seq<Option<Seq<char>>>, i: int)
    requires
        0 <= i <= s.len(),
    ensures
        text_column_bytes(s.take(i)) <= text_column_bytes(s),
    decreases s.len() - i,
{
    if i < s.len() {
        assert(s.take(i + 1).drop_last() =~= s.take(i));
        lemma_text_bytes_prefix(s, i + 1);
    } else {
        assert(s.take(i) =~= s);
    }
}

fn char_width(c: char) -> (r: u64)
    ensures
        r == utf8_width(c),
{
    let u = c as u32;
    if u < 0x80 {
        1
    } else if u < 0x800 {
        2
    } else if u < 0x10000 {
        3
    } else {
        4
    }
}

/// Whether the values of a text column take at most `MAX_TEXT_OFFSET` bytes in
/// UTF-8.
fn text_fits(values: &Vec<Option<String>>) -> (r: bool)
    ensures
        r == (text_column_bytes(values@.map_values(|s: Option<String>| text_option(s))) <= MAX_TEXT_OFFSET),
{
    let ghost all = values@.map_values(|s: Option<String>| text_option(s));
    let mut total: u64 = 0;
    let mut i: usize = 0;
    while i < values.len()
        invariant
            i <= values@.len(),
            all == values@.map_values(|s: Option<String>| text_option(s)),
            total == text_column_bytes(all.take(i as int)),
            total <= MAX_TEXT_OFFSET,
        decreases values@.len() - i,
    {
        assert(all.take(i + 1).drop_last() =~= all.take(i as int));
        match &values[i] {
            None => {},
            Some(text) => {
                let cs = crate::text::chars_of(text.as_str());
                let base = total;
                assert(all[i as int] == Some(text@));
                let mut j: usize = 0;
                assert(cs@.take(0) =~= Seq::<char>::empty());
                while j < cs.len()
                    invariant
                        j <= cs@.len(),
                        cs@ == text@,
                        i < values@.len(),
                        all == values@.map_values(|s: Option<String>| text_option(s)),
                        all[i as int] == Some(text@),
                        base == text_column_bytes(all.take(i as int)),
                        all.take(i + 1).drop_last() == all.take(i as int),
                        total == base + utf8_len(cs@.take(j as int)),
                        total <= MAX_TEXT_OFFSET,
                    decreases cs@.len() - j,
                {
                    assert(cs@.take(j + 1).drop_last() =~= cs@.take(j as int));
                    total = total + char_width(cs[j]);
                    j = j + 1;
                    if total > MAX_TEXT_OFFSET {
                        proof {
                            lemma_utf8_len_prefix(cs@, j as int);
                            lemma_text_bytes_prefix(all, i + 1);
                            assert(all.take(i + 1).last() == all[i as int]);
                            assert(text_column_bytes(all.take(i + 1)) == base + utf8_len(cs@));
                        }
                        return false;
                    }
                }
                assert(cs@.take(cs@.len() as int) =~= cs@);
            },
        }
        i = i + 1;
    }
    assert(all.take(values@.len() as int) =~= all);
    true
}

/// `StringArray::from` a vector of optional strings, as array data. Its offsets
/// are 32-bit: `from` panics when the text takes more bytes than they reach.
#[verifier::external_body]
fn utf8_data(values: Vec<Option<String>>) -> (r: ArrayData)
    requires
        text_column_bytes(values@.map_values(|s: Option<String>| text_option(s))) <= MAX_TEXT_OFFSET,
    ensures
        r == arrow_utf8_data(values@.map_values(|s: Option<String>| text_option(s))),
{
    StringArray::from(values).into_data()
}

/// `Field::new` with this name, the Arrow data type of `t`, nullable.
#[verifier::external_body]
fn nullable_field(name: &str, t: ArrowType) -> (r: Field)
    ensures
        r == arrow_field(name@, t),
{
    let data_type = match t {
        ArrowType::Boolean => DataType::Boolean,
        ArrowType::Binary => DataType::Binary,
        ArrowType::Int32 => DataType::Int32,
        ArrowType::Int64 => DataType::Int64,
        ArrowType::Float32 => DataType::Float32,
        ArrowType::Float64 => DataType::Float64,
        ArrowType::Utf8 => DataType::Utf8,
    };
    Field::new(name, data_type, true)
}

/// The type of the Arrow array a buffered column becomes.
pub open spec fn column_type(c: ColumnValuesView) -> ArrowType {
    match c {
        ColumnValuesView::Boolean(_) => ArrowType::Boolean,
        ColumnValuesView::Int32(_) => ArrowType::Int32,
        ColumnValuesView::Int64(_) => ArrowType::Int64,
        ColumnValuesView::Float64(_) => ArrowType::Float64,
        ColumnValuesView::Utf8(_) => ArrowType::Utf8,
    }
}

/// `fields` and `columns` are made from these names and buffered columns: each
/// field is the nullable field of its name and its column's type, each array
/// is its column's, every column has the length of the first, and no text
/// column exceeds the limit.
pub open spec fn batch_described(
    fields: Seq<Field>,
    columns: Seq<ArrayData>,
    names: Seq<Seq<char>>,
    cols: Seq<ColumnValuesView>,
) -> bool {
    &&& names.len() == fields.len()
    &&& cols.len() == fields.len()
    &&& forall|i: int|
        0 <= i < fields.len() ==> {
            &&& fields[i] == arrow_field(names[i], column_type(#[trigger] cols[i]))
            &&& columns[i] == column_data(cols[i])
            &&& column_within_limit(cols[i])
            &&& column_len(cols[i]) == column_len(cols[0])
        }
}

/// `RecordBatch::try_new` with a schema of `fields` and the arrays of `columns`.
/// Its result is named. Beside the name the contract states when it succeeds,
/// as `try_new` checks: as many arrays as fields and at least one, arrays of
/// one length, no null in a field that is not nullable (these are all
/// nullable), and each array of its field's data type (`Field::new` keeps the
/// type; the `From` conversions, `Float64Array::new` and `make_array` give
/// arrays of their type with one entry per value). The batch then has a column
/// per field and, as `try_new` takes the row count from the first array, one
/// row per value of a column. Without any field or array, and no row count
/// given, it fails.
#[verifier::external_body]
fn record_batch_try_new(fields: Vec<Field>, columns: Vec<ArrayData>) -> (r: Result<ArrowBatch, ArrowError>)
    ensures
        r == arrow_record_batch(fields@, columns@),
        forall|names: Seq<Seq<char>>, cols: Seq<ColumnValuesView>|
            fields@.len() > 0 && #[trigger] batch_described(fields@, columns@, names, cols) ==> (r is Ok
                && arrow_batch_columns(r->Ok_0) == fields@.len() && arrow_batch_rows(r->Ok_0) == column_len(cols[0])),
        fields@.len() == 0 && columns@.len() == 0 ==> r is Err,
{
    let batch = RecordBatch::try_new(Arc::new(Schema::new(fields)), columns.into_iter().map(make_array).collect());
    batch.map(|b| ArrowBatch { batch: b })
}

/// The display text of an Arrow error. (Nothing is stated of it.)
#[verifier::external_body]
fn arrow_error_text(e: &ArrowError) -> String {
    e.to_string()
}

/// `RecordBatch::num_columns`.
#[verifier::external_body]
pub(crate) fn record_batch_num_columns(b: &ArrowBatch) -> (r: usize)
    ensures
        r == arrow_batch_columns(*b),
{
    b.batch.num_columns()
}

/// `RecordBatch::num_rows`.
#[verifier::external_body]
fn record_batch_num_rows(b: &ArrowBatch) -> (r: usize)
    ensures
        r == arrow_batch_rows(*b),
{
    b.batch.num_rows()
}

impl ArrowBatch {
    /// The number of rows of the batch.
    pub fn num_rows(&self) -> (r: usize)
        ensures
            r == arrow_batch_rows(*self),
    {
        record_batch_num_rows(self)
    }

    /// The number of columns of the batch.
    pub fn num_columns(&self) -> (r: usize)
        ensures
            r == arrow_batch_columns(*self),
    {
        record_batch_num_columns(self)
    }
}

/// The bit patterns of a double column, zero for nulls.
pub open spec fn float_bits(s: Seq<Option<u64>>) -> Seq<u64> {
    s.map_values(|x: Option<u64>| match x {
        Some(b) => b,
        None => 0u64,
    })
}

/// Which values of a column are not null.
pub open spec fn validity<T>(s: Seq<Option<T>>) -> Seq<bool> {
    s.map_values(|x: Option<T>| x is Some)
}

/// The Arrow array data a buffered column becomes.
pub open spec fn column_data(c: ColumnValuesView) -> ArrayData {
    match c {
        ColumnValuesView::Boolean(s) => arrow_boolean_data(s),
        ColumnValuesView::Int32(s) => arrow_int32_data(s),
        ColumnValuesView::Int64(s) => arrow_int64_data(s),
        ColumnValuesView::Float64(s) => arrow_float64_data(float_bits(s), validity(s)),
        ColumnValuesView::Utf8(s) => arrow_utf8_data(s),
    }
}

/// The Arrow type a field of type `t` is built as, that of the column it is
/// buffered in: doubles for both float types, text for text and binary.
pub open spec fn stored_type(t: ArrowType) -> ArrowType {
    match t {
        ArrowType::Float32 => ArrowType::Float64,
        ArrowType::Binary => ArrowType::Utf8,
        _ => t,
    }
}

fn storage_type(t: ArrowType) -> (r: ArrowType)
    ensures
        r == stored_type(t),
{
    match t {
        ArrowType::Float32 => ArrowType::Float64,
        ArrowType::Binary => ArrowType::Utf8,
        _ => t,
    }
}

/// The Arrow fields of a buffer's schema, each of the type its column is
/// buffered as.
pub open spec fn batch_fields(b: TableBufferView) -> Seq<Field> {
    b.fields.map_values(|f: (Seq<char>, ArrowType)| arrow_field(f.0, stored_type(f.1)))
}

/// The Arrow arrays of a buffer's columns.
pub open spec fn batch_columns(b: TableBufferView) -> Seq<ArrayData> {
    b.columns.map_values(|c: ColumnValuesView| column_data(c))
}

/// The batch that Arrow built, or the error it gave, as this library reports it.
pub open spec fn batch_result(r: Result<ArrowBatch, ArrowError>, e: Result<ArrowBatch, ConvertError>) -> bool {
    match r {
        Ok(b) => e == Ok::<ArrowBatch, ConvertError>(b),
        Err(_) => e matches Err(ConvertError::RecordBatch(_)),
    }
}

/// Maps what Arrow returned for a record batch to this library's result: the
/// batch, or a record-batch error with Arrow's reason.
pub fn batch_outcome(r: Result<ArrowBatch, ArrowError>) -> (e: Result<ArrowBatch, ConvertError>)
    ensures
        batch_result(r, e),
{
    match r {
        Ok(b) => Ok(b),
        Err(err) => Err(ConvertError::RecordBatch(arrow_error_text(&err))),
    }
}

/// A column is no text column whose values take more than `MAX_TEXT_OFFSET`
/// bytes.
pub open spec fn column_within_limit(c: ColumnValuesView) -> bool {
    match c {
        ColumnValuesView::Utf8(s) => text_column_bytes(s) <= MAX_TEXT_OFFSET,
        _ => true,
    }
}

/// Every column of a buffer is within the text limit.
pub open spec fn text_within_limit(b: TableBufferView) -> bool {
    forall|i: int| 0 <= i < b.columns.len() ==> column_within_limit(#[trigger] b.columns[i])
}

fn column_array_data(c: ColumnValues) -> (r: Option<ArrayData>)
    ensures
        column_within_limit(c@) ==> r == Some(column_data(c@)),
        !column_within_limit(c@) ==> r is None,
{
    match c {
        ColumnValues::Boolean(v) => Some(boolean_data(v)),
        ColumnValues::Int32(v) => Some(int32_data(v)),
        ColumnValues::Int64(v) => Some(int64_data(v)),
        ColumnValues::Float64(v) => {
            let mut bits: Vec<u64> = Vec::new();
            let mut valid: Vec<bool> = Vec::new();
            let mut i: usize = 0;
            while i < v.len()
                invariant
                    i <= v@.len(),
                    bits@ == float_bits(v@.take(i as int)),
                    valid@ == validity(v@.take(i as int)),
                decreases v@.len() - i,
            {
                match v[i] {
                    Some(b) => {
                        bits.push(b);
                        valid.push(true);
                    },
                    None => {
                        bits.push(0);
                        valid.push(false);
                    },
                }
                assert(float_bits(v@.take(i + 1)) =~= float_bits(v@.take(i as int)).push(
                    match v@[i as int] {
                        Some(b) => b,
                        None => 0u64,
                    },
                ));
                assert(validity(v@.take(i + 1)) =~= validity(v@.take(i as int)).push(v@[i as int] is Some));
                i = i + 1;
            }
            assert(v@.take(v@.len() as int) =~= v@);
            Some(float64_data(bits, valid))
        },
        ColumnValues::Utf8(v) => {
            if text_fits(&v) {
                Some(utf8_data(v))
            } else {
                None
            }
        },
    }
}

impl TableBuffer {
    /// Builds the record batch of the buffered rows: a nullable field per column
    /// and the column's values. A text column with more bytes than an Arrow
    /// UTF-8 array can index is refused; otherwise Arrow decides whether the
    /// batch is valid: it is for a buffer with at least one column, and not for
    /// a table without columns.
    pub fn build(self) -> (r: Result<ArrowBatch, ConvertError>)
        ensures
            text_within_limit(self@) ==> batch_result(arrow_record_batch(batch_fields(self@), batch_columns(self@)), r),
            !text_within_limit(self@) ==> r matches Err(ConvertError::TextTooLong),
            self.wf() && sound_buffer(self@) ==> (r matches Ok(b) && arrow_batch_columns(b) == self@.fields.len()),
            self.wf() ==> (r matches Ok(b) ==> arrow_batch_rows(b) == self@.row_count),
            self.wf() && self@.fields.len() == 0 ==> (r matches Err(ConvertError::RecordBatch(_))),
    {
        let ghost v = self@;
        let TableBuffer { fields, columns, row_count: _, row_metadata: _ } = self;
        let mut arrow_fields: Vec<Field> = Vec::new();
        let mut i: usize = 0;
        while i < fields.len()
            invariant
                i <= fields@.len(),
                v.fields == fields@.map_values(|f: (String, ArrowType)| (f.0@, f.1)),
                arrow_fields@ == batch_fields(v).take(i as int),
            decreases fields@.len() - i,
        {
            let f = nullable_field(fields[i].0.as_str(), storage_type(fields[i].1));
            arrow_fields.push(f);
            i = i + 1;
            assert(arrow_fields@ =~= batch_fields(v).take(i as int));
        }
        assert(arrow_fields@ =~= batch_fields(v));
        let mut data: Vec<ArrayData> = Vec::new();
        let ghost all = columns@;
        for c in it: columns
            invariant
                it.seq() == all,
                v == self@,
                v.columns == all.map_values(|c: ColumnValues| c@),
                data@ == batch_columns(v).take(it.index() as int),
                forall|j: int| 0 <= j < it.index() ==> column_within_limit(#[trigger] v.columns[j]),
        {
            let ghost k = it.index();
            assert(v.columns[k] == c@);
            let d = match column_array_data(c) {
                Some(d) => d,
                None => {
                    assert(0 <= k < v.columns.len());
                    assert(!column_within_limit(v.columns[k]));
                    assert(!text_within_limit(v));
                    return Err(ConvertError::TextTooLong);
                },
            };
            data.push(d);
            assert(data@ =~= batch_columns(v).take(k + 1));
        }
        assert(data@ =~= batch_columns(v));
        assert(text_within_limit(v));
        proof {
            if self.wf() && v.fields.len() > 0 {
                let names = v.fields.map_values(|f: (Seq<char>, ArrowType)| f.0);
                assert forall|i: int| 0 <= i < v.fields.len() implies column_type(#[trigger] v.columns[i]) == stored_type(
                    v.fields[i].1,
                ) && column_len(v.columns[i]) == column_len(v.columns[0]) && column_within_limit(v.columns[i]) by {
                    assert(column_fits(v.fields[i].1, v.columns[i]));
                }
                assert(batch_described(arrow_fields@, data@, names, v.columns));
                assert(column_len(v.columns[0]) == v.row_count);
            }
        }
        batch_outcome(record_batch_try_new(arrow_fields, data))
    }
}

/// The buffers of a converter, by table key.
pub open spec fn table_keys(s: Seq<(Seq<char>, TableBufferView)>) -> Seq<Seq<char>> {
    s.map_values(|e: (Seq<char>, TableBufferView)| e.0)
}

/// The buffer of table `key` is at position `i`.
pub open spec fn table_at(s: Seq<(Seq<char>, TableBufferView)>, key: Seq<char>, i: int) -> bool {
    0 <= i < s.len() && s[i].0 == key
}

/// Table `key` has a buffer.
pub open spec fn has_table(s: Seq<(Seq<char>, TableBufferView)>, key: Seq<char>) -> bool {
    exists|i: int| table_at(s, key, i)
}

/// The position of the buffer of table `key`, when it has one.
pub open spec fn table_index(s: Seq<(Seq<char>, TableBufferView)>, key: Seq<char>) -> int {
    choose|i: int| table_at(s, key, i)
}

/// The key of an event's table: `{schema}.{table}`.
pub open spec fn table_key_of(m: CdcMessage) -> Seq<char> {
    m.table_schema@ + "."@ + m.table_name@
}

/// The empty buffer of a table whose schema a row image gives.
pub open spec fn fresh_buffer(t: Tuple) -> TableBufferView {
    TableBufferView {
        fields: schema_of(t),
        columns: schema_of(t).map_values(|f: (Seq<char>, ArrowType)| empty_column(f.1)),
        row_count: 0,
        rows: Seq::empty(),
    }
}

/// The operations that add a row.
pub open spec fn adds_row(op: Seq<char>) -> bool {
    op == "INSERT"@ || op == "UPDATE"@ || op == "DELETE"@
}

/// What adding an event does to the buffers, and its result. A truncate drops
/// the table's buffer, if it has one. For any other event, a table without a
/// buffer first gets an empty one, its schema from the event's row image (an
/// event without one is refused); then an insert, update or delete adds its row
/// (see `add_row_outcome`), and any other operation is ignored.
pub open spec fn add_message_outcome(
    s: Seq<(Seq<char>, TableBufferView)>,
    m: CdcMessage,
) -> (Seq<(Seq<char>, TableBufferView)>, Result<(), ConvertError>) {
    let key = table_key_of(m);
    if m.operation@ == "TRUNCATE"@ {
        if has_table(s, key) {
            (s.remove(table_index(s, key)), Ok(()))
        } else {
            (s, Ok(()))
        }
    } else if !has_table(s, key) && row_image(m) is None {
        (s, Err(ConvertError::NoTupleForSchema))
    } else {
        let s1 = if has_table(s, key) {
            s
        } else {
            s.push((key, fresh_buffer(row_image(m)->Some_0)))
        };
        let i = table_index(s1, key);
        if adds_row(m.operation@) {
            let (b, r) = add_row_outcome(s1[i].1, m);
            (s1.update(i, (key, b)), r)
        } else {
            (s1, Ok(()))
        }
    }
}

/// A buffer's text is within the limit and Arrow accepts its record batch.
pub open spec fn builds(b: TableBufferView) -> bool {
    text_within_limit(b) && arrow_record_batch(batch_fields(b), batch_columns(b)) is Ok
}

/// The error a buffer that does not build is refused with: too much text, or
/// else Arrow's refusal.
pub open spec fn build_refusal(b: TableBufferView, e: ConvertError) -> bool {
    if text_within_limit(b) {
        e is RecordBatch
    } else {
        e is TextTooLong
    }
}

/// How many buffers, from the `k`-th on, build one after the other before one
/// fails.
pub open spec fn built_prefix(s: Seq<(Seq<char>, TableBufferView)>, k: int) -> int
    decreases s.len() - k,
{
    if k < 0 || k >= s.len() || !builds(s[k].1) {
        k
    } else {
        built_prefix(s, k + 1)
    }
}

/// Buffers rows per table and builds their record batches.
pub struct ArrowConverter {
    buffers: Vec<(String, TableBuffer)>,
}

impl View for ArrowConverter {
    type V = Seq<(Seq<char>, TableBufferView)>;

    closed spec fn view(&self) -> Seq<(Seq<char>, TableBufferView)> {
        self.buffers@.map_values(|e: (String, TableBuffer)| (e.0@, e.1@))
    }
}

/// No table has two buffers, and every buffer has a column per field.
pub open spec fn converter_fits(s: Seq<(Seq<char>, TableBufferView)>) -> bool {
    &&& table_keys(s).no_duplicates()
    &&& forall|i: int| 0 <= i < s.len() ==> buffer_fits(#[trigger] s[i].1)
}

fn table_key_text(schema: &String, table: &String) -> (r: String)
    ensures
        r@ == schema@ + "."@ + table@,
{
    let mut k = String::from_str(schema.as_str());
    k.append(".");
    k.append(table.as_str());
    k
}

impl ArrowConverter {
    /// Every buffer is well formed and no table has two.
    pub closed spec fn wf(&self) -> bool {
        &&& converter_fits(self@)
        &&& forall|i: int| 0 <= i < self.buffers@.len() ==> (#[trigger] self.buffers@[i]).1.wf()
    }

    proof fn lemma_view_at(&self, i: int)
        requires
            0 <= i < self.buffers@.len(),
        ensures
            self@[i] == (self.buffers@[i].0@, self.buffers@[i].1@),
            self@.len() == self.buffers@.len(),
    {
    }

    /// No buffer.
    pub fn new() -> (c: Self)
        ensures
            c.wf(),
            c@ == Seq::<(Seq<char>, TableBufferView)>::empty(),
    {
        let c = ArrowConverter { buffers: Vec::new() };
        assert(c@ =~= Seq::<(Seq<char>, TableBufferView)>::empty());
        assert(table_keys(c@) =~= Seq::<Seq<char>>::empty());
        c
    }

    fn find(&self, key: &str) -> (r: Option<usize>)
        ensures
            match r {
                Some(i) => table_at(self@, key@, i as int),
                None => !has_table(self@, key@),
            },
    {
        let mut i: usize = 0;
        while i < self.buffers.len()
            invariant
                i <= self.buffers@.len(),
                forall|j: int| 0 <= j < i ==> !table_at(self@, key@, j),
            decreases self.buffers@.len() - i,
        {
            proof {
                self.lemma_view_at(i as int);
            }
            if crate::text::str_equal(self.buffers[i].0.as_str(), key) {
                return Some(i);
            }
            i = i + 1;
        }
        proof {
            if has_table(self@, key@) {
                let j = choose|j: int| table_at(self@, key@, j);
                self.lemma_view_at(j);
            }
        }
        None
    }
}

proof fn lemma_unique_index(s: Seq<(Seq<char>, TableBufferView)>, key: Seq<char>, i: int)
    requires
        table_keys(s).no_duplicates(),
        table_at(s, key, i),
    ensures
        table_index(s, key) == i,
{
    let j = table_index(s, key);
    assert(table_at(s, key, j));
    if j != i {
        assert(table_keys(s)[i] == table_keys(s)[j]);
    }
}

impl ArrowConverter {
    /// Buffers the row of `msg` in its table's buffer, creating the buffer on the
    /// table's first event; see `add_message_outcome`.
    pub fn add_message(&mut self, msg: &CdcMessage) -> (r: Result<(), ConvertError>)
        requires
            old(self).wf(),
            has_table(old(self)@, table_key_of(*msg)) ==> old(self)@[table_index(
                old(self)@,
                table_key_of(*msg),
            )].1.row_count < usize::MAX,
        ensures
            final(self).wf(),
            (final(self)@, r) == add_message_outcome(old(self)@, *msg),
    {
        let ghost s = self@;
        let key = table_key_text(&msg.table_schema, &msg.table_name);
        assert(key@ == table_key_of(*msg));
        let op = msg.operation.as_str();
        if crate::text::str_equal(op, "TRUNCATE") {
            match self.find(key.as_str()) {
                None => {
                    return Ok(());
                },
                Some(i) => {
                    proof {
                        lemma_unique_index(s, key@, i as int);
                        self.lemma_view_at(i as int);
                        lemma_remove_keeps_fit(s, i as int);
                    }
                    let ghost before = self.buffers@;
                    self.buffers.remove(i);
                    proof {
                        assert(self.buffers@ =~= before.remove(i as int));
                        assert(self@ =~= s.remove(i as int));
                        assert forall|j: int| 0 <= j < self.buffers@.len() implies (#[trigger] self.buffers@[j]).1.wf() by {
                            if j < i {
                                assert(self.buffers@[j] == before[j]);
                            } else {
                                assert(self.buffers@[j] == before[j + 1]);
                            }
                        }
                    }
                    return Ok(());
                },
            }
        }
        let idx = match self.find(key.as_str()) {
            Some(i) => i,
            None => {
                let buffer = match TableBuffer::from_cdc_message(msg) {
                    Ok(b) => b,
                    Err(e) => {
                        return Err(e);
                    },
                };
                let ghost bv = buffer@;
                self.buffers.push((key.clone(), buffer));
                proof {
                    assert(self@ =~= s.push((key@, bv)));
                    assert(table_keys(self@) =~= table_keys(s).push(key@));
                    assert forall|j: int| 0 <= j < table_keys(s).len() implies table_keys(s)[j] != key@ by {
                        assert(!table_at(s, key@, j));
                    }
                    assert(table_at(self@, key@, s.len() as int));
                    assert forall|j: int| 0 <= j < self.buffers@.len() implies (#[trigger] self.buffers@[j]).1.wf() by {
                        if j < s.len() {
                            assert(self.buffers@[j] == old(self).buffers@[j]);
                        }
                    }
                }
                self.buffers.len() - 1
            },
        };
        let ghost s1 = self@;
        proof {
            lemma_unique_index(s1, key@, idx as int);
            assert(s1 == if has_table(s, key@) { s } else { s.push((key@, fresh_buffer(row_image(*msg)->Some_0))) });
            self.lemma_view_at(idx as int);
        }
        if crate::text::str_equal(op, "INSERT") || crate::text::str_equal(op, "UPDATE") || crate::text::str_equal(op, "DELETE") {
            let ghost before = self.buffers@;
            let (k, mut b) = self.buffers.remove(idx);
            assert(b.wf());
            assert(b@.row_count < usize::MAX) by {
                if has_table(s, key@) {
                    assert(s1[idx as int].1.row_count < usize::MAX);
                }
            }
            let res = b.add_row(msg);
            self.buffers.insert(idx, (k, b));
            proof {
                assert(self.buffers@ =~= before.update(idx as int, (k, b)));
                assert(self@ =~= s1.update(idx as int, (key@, b@)));
                assert(table_keys(self@) =~= table_keys(s1));
                assert forall|j: int| 0 <= j < self.buffers@.len() implies (#[trigger] self.buffers@[j]).1.wf() by {
                    if j != idx {
                        assert(self.buffers@[j] == before[j]);
                    }
                }
            }
            res
        } else {
            Ok(())
        }
    }
}

/// What flushing one buffer returns: its record batch, or why it was refused.
pub open spec fn flushed(b: TableBufferView, r: Result<Option<ArrowBatch>, ConvertError>) -> bool {
    if !text_within_limit(b) {
        r matches Err(ConvertError::TextTooLong)
    } else {
        match arrow_record_batch(batch_fields(b), batch_columns(b)) {
            Ok(batch) => r == Ok::<Option<ArrowBatch>, ConvertError>(Some(batch)),
            Err(_) => r matches Err(ConvertError::RecordBatch(_)),
        }
    }
}

proof fn lemma_remove_keeps_fit(s: Seq<(Seq<char>, TableBufferView)>, i: int)
    requires
        converter_fits(s),
        0 <= i < s.len(),
    ensures
        converter_fits(s.remove(i)),
{
    let t = s.remove(i);
    assert(table_keys(t) =~= table_keys(s).remove(i));
    assert forall|a: int, c: int| 0 <= a < c < table_keys(t).len() implies table_keys(t)[a] != table_keys(t)[c] by {
        let a0 = if a < i { a } else { a + 1 };
        let c0 = if c < i { c } else { c + 1 };
        assert(table_keys(t)[a] == table_keys(s)[a0]);
        assert(table_keys(t)[c] == table_keys(s)[c0]);
    }
    assert forall|j: int| 0 <= j < t.len() implies buffer_fits(#[trigger] t[j].1) by {
        if j < i {
            assert(t[j] == s[j]);
        } else {
            assert(t[j] == s[j + 1]);
        }
    }
}

proof fn lemma_built_prefix_bounds(s: Seq<(Seq<char>, TableBufferView)>, k: int)
    requires
        0 <= k <= s.len(),
    ensures
        k <= built_prefix(s, k) <= s.len(),
        forall|i: int| k <= i < built_prefix(s, k) ==> builds(#[trigger] s[i].1),
        built_prefix(s, k) < s.len() ==> !builds(s[built_prefix(s, k)].1),
    decreases s.len() - k,
{
    if k < s.len() && builds(s[k].1) {
        lemma_built_prefix_bounds(s, k + 1);
    }
}

/// The batches of the first `n` buffers, one per table, in order.
pub open spec fn flushed_batches(s: Seq<(Seq<char>, TableBufferView)>, out: Seq<(String, ArrowBatch)>, n: int) -> bool {
    &&& out.len() == n
    &&& forall|i: int|
        0 <= i < n ==> {
            &&& (#[trigger] out[i]).0@ == s[i].0
            &&& arrow_record_batch(batch_fields(s[i].1), batch_columns(s[i].1)) == Ok::<ArrowBatch, ArrowError>(
                out[i].1,
            )
            &&& arrow_batch_rows(out[i].1) == s[i].1.row_count
        }
}

impl ArrowConverter {
    /// Removes the buffer of `table_key` and builds its record batch, with a row
    /// per buffered row; `None` when the table has no buffer. A buffer whose
    /// batch is refused is dropped all the same.
    pub fn flush_table(&mut self, table_key: &str) -> (r: Result<Option<ArrowBatch>, ConvertError>)
        requires
            old(self).wf(),
        ensures
            final(self).wf(),
            has_table(old(self)@, table_key@) ==> {
                let i = table_index(old(self)@, table_key@);
                &&& final(self)@ == old(self)@.remove(i)
                &&& flushed(old(self)@[i].1, r)
            },
            !has_table(old(self)@, table_key@) ==> final(self)@ == old(self)@ && r == Ok::<
                Option<ArrowBatch>,
                ConvertError,
            >(None),
            has_table(old(self)@, table_key@) && sound_buffer(old(self)@[table_index(old(self)@, table_key@)].1) ==> (r matches Ok(
                Some(_),
            )),
            has_table(old(self)@, table_key@) ==> (r matches Ok(Some(b)) ==> arrow_batch_rows(b) == old(self)@[table_index(
                old(self)@,
                table_key@,
            )].1.row_count),
    {
        let ghost s = self@;
        match self.find(table_key) {
            None => Ok(None),
            Some(i) => {
                proof {
                    lemma_unique_index(s, table_key@, i as int);
                    self.lemma_view_at(i as int);
                    lemma_remove_keeps_fit(s, i as int);
                }
                let ghost before = self.buffers@;
                let (_k, b) = self.buffers.remove(i);
                proof {
                    assert(self.buffers@ =~= before.remove(i as int));
                    assert(self@ =~= s.remove(i as int));
                    assert forall|j: int| 0 <= j < self.buffers@.len() implies (#[trigger] self.buffers@[j]).1.wf() by {
                        if j < i {
                            assert(self.buffers@[j] == before[j]);
                        } else {
                            assert(self.buffers@[j] == before[j + 1]);
                        }
                    }
                }
                assert(b.wf()) by {
                    assert(before[i as int].1 == b);
                }
                match b.build() {
                    Ok(batch) => Ok(Some(batch)),
                    Err(e) => Err(e),
                }
            },
        }
    }

    /// Flushes every buffer, in order, and returns each table's batch. At the
    /// first buffer that does not build, its error is returned: the buffers
    /// flushed before it and its own are gone, the later ones stay.
    pub fn flush_all(&mut self) -> (r: Result<Vec<(String, ArrowBatch)>, ConvertError>)
        requires
            old(self).wf(),
        ensures
            final(self).wf(),
            ({
                let s = old(self)@;
                let n = built_prefix(s, 0);
                &&& n == s.len() ==> (r matches Ok(out) && flushed_batches(s, out@, n) && final(self)@.len() == 0)
                &&& n < s.len() ==> (r matches Err(e) && build_refusal(s[n].1, e) && final(self)@ == s.skip(n + 1))
                &&& (forall|i: int| 0 <= i < s.len() ==> sound_buffer(#[trigger] s[i].1)) ==> r is Ok
            }),
    {
        let ghost s = self@;
        proof {
            lemma_built_prefix_bounds(s, 0);
        }
        let ghost n = built_prefix(s, 0);
        let mut out: Vec<(String, ArrowBatch)> = Vec::new();
        let mut k: usize = 0;
        let total = self.buffers.len();
        assert(s.skip(0) =~= s);
        while self.buffers.len() > 0
            invariant
                self.wf(),
                s == old(self)@,
                s.len() == total,
                k <= n,
                self@ == s.skip(k as int),
                n == built_prefix(s, 0),
                0 <= n <= s.len(),
                forall|i: int| 0 <= i < n ==> builds(#[trigger] s[i].1),
                n < s.len() ==> !builds(s[n].1),
                flushed_batches(s, out@, k as int),
            decreases self.buffers@.len(),
        {
            proof {
                self.lemma_view_at(0);
                lemma_remove_keeps_fit(self@, 0);
            }
            let ghost before = self.buffers@;
            let ghost vbefore = self@;
            let (key, b) = self.buffers.remove(0);
            proof {
                assert(self.buffers@ =~= before.remove(0));
                assert(self@ =~= vbefore.remove(0));
                assert(vbefore.remove(0) =~= s.skip(k + 1));
                assert forall|j: int| 0 <= j < self.buffers@.len() implies (#[trigger] self.buffers@[j]).1.wf() by {
                    assert(self.buffers@[j] == before[j + 1]);
                }
                assert(s.skip(k as int)[0] == s[k as int]);
                assert(vbefore[0] == (key@, b@));
                assert(b@ == s[k as int].1);
                assert(b.wf()) by {
                    assert(before[0].1 == b);
                }
            }
            match b.build() {
                Ok(batch) => {
                    let ghost prev = out@;
                    out.push((key, batch));
                    proof {
                        if k == n {
                            assert(!builds(s[k as int].1));
                        }
                        assert forall|i: int| 0 <= i < k + 1 implies {
                            &&& (#[trigger] out@[i]).0@ == s[i].0
                            &&& arrow_record_batch(batch_fields(s[i].1), batch_columns(s[i].1)) == Ok::<ArrowBatch, ArrowError>(
                                out@[i].1,
                            )
                            &&& arrow_batch_rows(out@[i].1) == s[i].1.row_count
                        } by {
                            if i < k {
                                assert(out@[i] == prev[i]);
                            }
                        }
                    }
                    k = k + 1;
                },
                Err(e) => {
                    assert(k == n) by {
                        if k < n {
                            assert(builds(s[k as int].1));
                        }
                    }
                    assert(!sound_buffer(s[k as int].1));
                    return Err(e);
                },
            }
        }
        assert(k == s.len());
        Ok(out)
    }

    /// The number of complete rows buffered for `table_key`; zero when it has no
    /// buffer.
    pub fn table_row_count(&self, table_key: &str) -> (r: usize)
        requires
            self.wf(),
        ensures
            has_table(self@, table_key@) ==> r == self@[table_index(self@, table_key@)].1.row_count,
            !has_table(self@, table_key@) ==> r == 0,
    {
        match self.find(table_key) {
            Some(i) => {
                proof {
                    self.lemma_view_at(i as int);
                }
                let n = self.buffers[i].1.row_count();
                proof {
                    lemma_unique_index(self@, table_key@, i as int);
                }
                n
            },
            None => 0,
        }
    }

    /// The keys of the tables with a buffer.
    pub fn buffered_tables(&self) -> (r: Vec<String>)
        ensures
            r@.map_values(|k: String| k@) == table_keys(self@),
    {
        let mut keys: Vec<String> = Vec::new();
        let mut i: usize = 0;
        while i < self.buffers.len()
            invariant
                i <= self.buffers@.len(),
                keys@.map_values(|k: String| k@) == table_keys(self@).take(i as int),
            decreases self.buffers@.len() - i,
        {
            proof {
                self.lemma_view_at(i as int);
            }
            let ghost prev = keys@;
            let k = self.buffers[i].0.clone();
            assert(k@ == table_keys(self@)[i as int]);
            keys.push(k);
            assert(keys@.map_values(|k: String| k@) =~= prev.map_values(|k: String| k@).push(k@));
            assert(table_keys(self@).take(i + 1) =~= table_keys(self@).take(i as int).push(k@));
            i = i + 1;
        }
        assert(table_keys(self@).take(self.buffers@.len() as int) =~= table_keys(self@));
        keys
    }
}

impl Default for ArrowConverter {
    fn default() -> (c: Self)
        ensures
            c.wf(),
            c@ == Seq::<(Seq<char>, TableBufferView)>::empty(),
    {
        ArrowConverter::new()
    }
}

/// A buffer with at least one column and no text column over the limit: with
/// its columns holding one value per row, Arrow builds its batch.
pub open spec fn sound_buffer(b: TableBufferView) -> bool {
    b.fields.len() > 0 && text_within_limit(b)
}

/// Every column holds one value per counted row.
pub open spec fn columns_aligned(b: TableBufferView) -> bool {
    forall|i: int| 0 <= i < b.columns.len() ==> column_len(#[trigger] b.columns[i]) == b.row_count
}

proof fn lemma_column_push_len(c: ColumnValuesView, v: Cell)
    ensures
        column_len(column_push(c, v)) == column_len(c) + 1,
{
}

/// Law: a row that is added keeps every column at one value per row, and a
/// refused row leaves the buffer as it was.
pub proof fn lemma_add_row_alignment(b: TableBufferView, m: CdcMessage)
    requires
        buffer_fits(b),
        columns_aligned(b),
    ensures
        ({
            let (after, r) = add_row_outcome(b, m);
            &&& r is Ok ==> columns_aligned(after) && after.row_count == b.row_count + 1
            &&& r is Err ==> after == b
        }),
{
    let (after, r) = add_row_outcome(b, m);
    match row_image(m) {
        None => {},
        Some(t) => {
            if t.columns@.len() == b.fields.len() {
                let n = converted_prefix(b.fields, t.columns@, 0);
                lemma_converted_prefix_bounds(b.fields, t.columns@, 0);
                if n == t.columns@.len() {
                    assert forall|i: int| 0 <= i < after.columns.len() implies column_len(#[trigger] after.columns[i])
                        == after.row_count by {
                        lemma_column_push_len(b.columns[i], cell_of(b.fields[i].1, t.columns@[i])->Ok_0);
                    }
                }
            }
        },
    }
}

/// Law: a truncate is accepted and leaves its table without a buffer, whatever
/// was buffered, and every other table's buffer as it was.
pub proof fn lemma_truncate_drops_buffer(s: Seq<(Seq<char>, TableBufferView)>, m: CdcMessage)
    requires
        converter_fits(s),
        m.operation@ == "TRUNCATE"@,
    ensures
        add_message_outcome(s, m).1 is Ok,
        !has_table(add_message_outcome(s, m).0, table_key_of(m)),
        forall|k: Seq<char>| k != table_key_of(m) ==> (has_table(add_message_outcome(s, m).0, k) <==> has_table(s, k)),
        forall|k: Seq<char>|
            k != table_key_of(m) && has_table(s, k) ==> add_message_outcome(s, m).0[table_index(
                add_message_outcome(s, m).0,
                k,
            )] == s[table_index(s, k)],
{
    let key = table_key_of(m);
    let t = add_message_outcome(s, m).0;
    if has_table(s, key) {
        let i = table_index(s, key);
        assert(t == s.remove(i));
        lemma_flush_drops_buffer(s, key);
        lemma_remove_keeps_fit(s, i);
        assert forall|k: Seq<char>| k != key implies (has_table(t, k) <==> has_table(s, k)) by {
            if has_table(t, k) {
                let j = choose|j: int| table_at(t, k, j);
                let j0 = if j < i { j } else { j + 1 };
                assert(t[j] == s[j0]);
                assert(table_at(s, k, j0));
            }
            if has_table(s, k) {
                let j = choose|j: int| table_at(s, k, j);
                assert(j != i);
                let j1 = if j < i { j } else { j - 1 };
                assert(t[j1] == s[j]);
                assert(table_at(t, k, j1));
            }
        }
        assert forall|k: Seq<char>| k != key && has_table(s, k) implies t[table_index(t, k)] == s[table_index(s, k)] by {
            let j = table_index(s, k);
            assert(j != i);
            let j1 = if j < i { j } else { j - 1 };
            assert(t[j1] == s[j]);
            assert(table_at(t, k, j1));
            lemma_unique_index(t, k, j1);
        }
    }
}

/// Law: once a table is flushed it has no buffer left.
pub proof fn lemma_flush_drops_buffer(s: Seq<(Seq<char>, TableBufferView)>, key: Seq<char>)
    requires
        converter_fits(s),
        has_table(s, key),
    ensures
        !has_table(s.remove(table_index(s, key)), key),
{
    let i = table_index(s, key);
    let t = s.remove(i);
    if has_table(t, key) {
        let j = choose|j: int| table_at(t, key, j);
        let j0 = if j < i { j } else { j + 1 };
        assert(t[j] == s[j0]);
        assert(table_keys(s)[j0] == table_keys(s)[i]);
    }
}

/// Law: the row image of an event is its new tuple whenever it has one, and
/// its old tuple only when it has no new one.
pub proof fn lemma_row_image_prefers_new(m: CdcMessage)
    ensures
        m.new_tuple is Some ==> row_image(m) == m.new_tuple,
        m.new_tuple is None ==> row_image(m) == m.old_tuple,
{
}

/// Law: an event with neither tuple is refused and changes nothing.
pub proof fn lemma_add_row_needs_a_tuple(b: TableBufferView, m: CdcMessage)
    requires
        m.new_tuple is None,
        m.old_tuple is None,
    ensures
        add_row_outcome(b, m) == (b, Err::<(), ConvertError>(ConvertError::NoTuple)),
{
}

/// Law: an event is buffered from tuple `t`, its new tuple, or its old one when
/// it has no new one: when `t` has a value of each field's type, each column
/// takes the value of `t`'s column at its position, the row is counted and its
/// metadata kept.
pub proof fn lemma_add_row_buffers_the_image(b: TableBufferView, m: CdcMessage, t: Tuple)
    requires
        buffer_fits(b),
        m.new_tuple == Some(t) || (m.new_tuple is None && m.old_tuple == Some(t)),
        t.columns@.len() == b.fields.len(),
        forall|i: int| 0 <= i < b.fields.len() ==> #[trigger] cell_of(b.fields[i].1, t.columns@[i]) is Ok,
    ensures
        add_row_outcome(b, m).1 is Ok,
        add_row_outcome(b, m).0.fields == b.fields,
        add_row_outcome(b, m).0.row_count == b.row_count + 1,
        add_row_outcome(b, m).0.rows == b.rows.push(metadata_of(m)),
        add_row_outcome(b, m).0.columns.len() == b.columns.len(),
        forall|i: int|
            0 <= i < b.columns.len() ==> #[trigger] add_row_outcome(b, m).0.columns[i] == column_push(
                b.columns[i],
                cell_of(b.fields[i].1, t.columns@[i])->Ok_0,
            ),
{
    assert(row_image(m) == Some(t));
    lemma_converted_prefix_bounds(b.fields, t.columns@, 0);
    let n = converted_prefix(b.fields, t.columns@, 0);
    if n < t.columns@.len() {
        assert(cell_of(b.fields[n].1, t.columns@[n]) is Ok);
    }
    assert(n == t.columns@.len());
    let after = add_row_outcome(b, m).0;
    assert(after.columns == appended(b.columns, b.fields, t.columns@, n));
    assert forall|i: int| 0 <= i < b.columns.len() implies #[trigger] after.columns[i] == column_push(
        b.columns[i],
        cell_of(b.fields[i].1, t.columns@[i])->Ok_0,
    ) by {
        assert(i < n);
    }
}

/// Law: the Arrow type of each PostgreSQL type: boolean (16), bytea (17),
/// bigint (20), smallint and integer (21, 23), real (700) and double precision
/// (701) have their own; every other type is stored as text.
pub proof fn lemma_oid_types(oid: u32)
    ensures
        (arrow_type_of(oid) == ArrowType::Boolean) == (oid == 16),
        (arrow_type_of(oid) == ArrowType::Binary) == (oid == 17),
        (arrow_type_of(oid) == ArrowType::Int64) == (oid == 20),
        (arrow_type_of(oid) == ArrowType::Int32) == (oid == 21 || oid == 23),
        (arrow_type_of(oid) == ArrowType::Float32) == (oid == 700),
        (arrow_type_of(oid) == ArrowType::Float64) == (oid == 701),
        (arrow_type_of(oid) == ArrowType::Utf8) == !(oid == 16 || oid == 17 || oid == 20 || oid == 21 || oid == 23
            || oid == 700 || oid == 701),
{
}

/// Law: what a column of each type takes from a row-image column. A null is a
/// null; a non-null column without a value is refused; otherwise a boolean
/// column takes the boolean, a 64-bit column the integer the value stands
/// for, a 32-bit column that integer modulo 2^32, a float column the double,
/// and a text or binary column the value's JSON text; a value of another kind
/// is refused with the error naming the expected one.
pub proof fn lemma_cell_conversion(t: ArrowType, c: Column)
    ensures
        c.is_null ==> cell_of(t, c) == Ok::<Cell, ConvertError>(Cell::Null),
        !c.is_null && c.value is None ==> cell_of(t, c) == Err::<Cell, ConvertError>(ConvertError::MissingValue),
        !c.is_null && c.value is Some ==> ({
            let v = c.value->Some_0;
            match t {
                ArrowType::Boolean => match v.boolean {
                    Some(b) => cell_of(t, c) == Ok::<Cell, ConvertError>(Cell::Bool(b)),
                    None => cell_of(t, c) == Err::<Cell, ConvertError>(ConvertError::ExpectedBoolean),
                },
                ArrowType::Int64 => match integer_of(v) {
                    Some(n) => cell_of(t, c) == Ok::<Cell, ConvertError>(Cell::I64(n)),
                    None => cell_of(t, c) == Err::<Cell, ConvertError>(ConvertError::ExpectedI64),
                },
                ArrowType::Int32 => match integer_of(v) {
                    Some(n) => cell_of(t, c) matches Ok(Cell::I32(x)) && (x - n) % 0x1_0000_0000 == 0,
                    None => cell_of(t, c) == Err::<Cell, ConvertError>(ConvertError::ExpectedInteger),
                },
                ArrowType::Float32 | ArrowType::Float64 => match v.float_bits {
                    Some(f) => cell_of(t, c) == Ok::<Cell, ConvertError>(Cell::Float(f)),
                    None => cell_of(t, c) == Err::<Cell, ConvertError>(ConvertError::ExpectedNumeric),
                },
                ArrowType::Utf8 | ArrowType::Binary => cell_of(t, c) == Ok::<Cell, ConvertError>(Cell::Text(v.text@)),
            }
        }),
{
    if !c.is_null && c.value is Some && t == ArrowType::Int32 {
        let v = c.value->Some_0;
        if let Some(n) = integer_of(v) {
            let x = n as i32;
            assert((x - n) % 0x1_0000_0000 == 0) by (bit_vector)
                requires
                    x == n as i32,
            ;
        }
    }
}

/// Law: what each operation does to the buffers. An insert, update or delete
/// of a table with a buffer adds its row to that buffer alone (see
/// `add_row_outcome`); one of a table without a buffer first gets a fresh
/// buffer, schema from its row image, at the end. Any operation other than
/// these and a truncate adds no row and changes no buffer.
pub proof fn lemma_message_operations(s: Seq<(Seq<char>, TableBufferView)>, m: CdcMessage)
    requires
        converter_fits(s),
    ensures
        ({
            let key = table_key_of(m);
            let op = m.operation@;
            let (after, r) = add_message_outcome(s, m);
            &&& (op == "INSERT"@ || op == "UPDATE"@ || op == "DELETE"@) && has_table(s, key) ==> {
                let i = table_index(s, key);
                &&& after == s.update(i, (key, add_row_outcome(s[i].1, m).0))
                &&& r == add_row_outcome(s[i].1, m).1
            }
            &&& (op == "INSERT"@ || op == "UPDATE"@ || op == "DELETE"@) && !has_table(s, key) && row_image(m) is Some ==> {
                let b = fresh_buffer(row_image(m)->Some_0);
                &&& after == s.push((key, add_row_outcome(b, m).0))
                &&& r == add_row_outcome(b, m).1
            }
            &&& !(op == "INSERT"@ || op == "UPDATE"@ || op == "DELETE"@ || op == "TRUNCATE"@) ==> {
                &&& r is Ok || (r == Err::<(), ConvertError>(ConvertError::NoTupleForSchema) && !has_table(s, key))
                &&& forall|j: int| 0 <= j < s.len() ==> #[trigger] after[j] == s[j]
                &&& after.len() == s.len() || (after.len() == s.len() + 1 && after.last().1.row_count == 0
                    && after.last().1.rows.len() == 0)
            }
        }),
{
    let key = table_key_of(m);
    reveal_strlit("TRUNCATE");
    reveal_strlit("INSERT");
    reveal_strlit("UPDATE");
    reveal_strlit("DELETE");
    if m.operation@ == "INSERT"@ || m.operation@ == "UPDATE"@ || m.operation@ == "DELETE"@ {
        assert(m.operation@ != "TRUNCATE"@) by {
            assert(m.operation@[0] != 'T');
        }
        if !has_table(s, key) && row_image(m) is Some {
            let s1 = s.push((key, fresh_buffer(row_image(m)->Some_0)));
            assert(table_keys(s1) =~= table_keys(s).push(key));
            assert forall|a: int, c: int| 0 <= a < c < table_keys(s1).len() implies table_keys(s1)[a] != table_keys(s1)[c] by {
                if c == s.len() {
                    assert(!table_at(s, key, a));
                } else {
                    assert(table_keys(s1)[a] == table_keys(s)[a]);
                    assert(table_keys(s1)[c] == table_keys(s)[c]);
                }
            }
            assert(table_at(s1, key, s.len() as int));
            lemma_unique_index(s1, key, s.len() as int);
            assert(s1.update(s.len() as int, (key, add_row_outcome(fresh_buffer(row_image(m)->Some_0), m).0)) =~= s.push(
                (key, add_row_outcome(fresh_buffer(row_image(m)->Some_0), m).0),
            ));
        }
    }
}

} // verus!
