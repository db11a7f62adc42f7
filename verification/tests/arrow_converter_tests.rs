use arrow::array::{Array, BooleanArray, Float64Array, Int32Array, Int64Array, StringArray};
use rust_wal_cake_writer::arrow_converter::{pg_oid_to_arrow_type, ArrowConverter, ArrowType, ColumnValues, ConvertError, TableBuffer};
use rust_wal_cake_writer::cdc_message::{CdcMessage, Column, JsonValue, Tuple};

fn json_int(i: i64) -> JsonValue {
    JsonValue { text: i.to_string(), boolean: None, integer: Some(i), string: None, float_bits: Some((i as f64).to_bits()) }
}

fn json_text(s: &str) -> JsonValue {
    JsonValue { text: format!("\"{}\"", s), boolean: None, integer: None, string: Some(s.to_string()), float_bits: s.parse::<f64>().ok().map(f64::to_bits) }
}

fn json_bool(b: bool) -> JsonValue {
    JsonValue { text: b.to_string(), boolean: Some(b), integer: None, string: None, float_bits: None }
}

fn json_float(f: f64) -> JsonValue {
    JsonValue { text: f.to_string(), boolean: None, integer: None, string: None, float_bits: Some(f.to_bits()) }
}

fn col(name: &str, type_oid: u32, value: Option<JsonValue>) -> Column {
    let is_null = value.is_none();
    Column { name: name.to_string(), type_oid, value, is_null }
}

fn message(table: &str, operation: &str, lsn: u64, new_tuple: Option<Vec<Column>>, old_tuple: Option<Vec<Column>>) -> CdcMessage {
    CdcMessage {
        lsn,
        table_schema: "public".to_string(),
        table_name: table.to_string(),
        operation: operation.to_string(),
        oid: 16384,
        new_tuple: new_tuple.map(|columns| Tuple { columns }),
        old_tuple: old_tuple.map(|columns| Tuple { columns }),
        tx_commit_time: 1_700_000_000,
        tx_xid: 42,
    }
}

fn user_row(id: i64, name: &str) -> Vec<Column> {
    vec![col("id", 23, Some(json_int(id))), col("name", 25, Some(json_text(name)))]
}

#[test]
fn test_pg_oid_to_arrow_type() {
    assert!(pg_oid_to_arrow_type(16) == ArrowType::Boolean);
    assert!(pg_oid_to_arrow_type(20) == ArrowType::Int64);
    assert!(pg_oid_to_arrow_type(23) == ArrowType::Int32);
    assert!(pg_oid_to_arrow_type(25) == ArrowType::Utf8);
    assert!(pg_oid_to_arrow_type(701) == ArrowType::Float64);
    assert!(pg_oid_to_arrow_type(9999) == ArrowType::Utf8);
}

#[test]
fn oid_mapping_covers_every_listed_type() {
    assert!(pg_oid_to_arrow_type(17) == ArrowType::Binary);
    assert!(pg_oid_to_arrow_type(21) == ArrowType::Int32);
    assert!(pg_oid_to_arrow_type(700) == ArrowType::Float32);
    assert!(pg_oid_to_arrow_type(1700) == ArrowType::Utf8);
    assert!(pg_oid_to_arrow_type(1114) == ArrowType::Utf8);
    assert!(pg_oid_to_arrow_type(1184) == ArrowType::Utf8);
    assert!(pg_oid_to_arrow_type(2950) == ArrowType::Utf8);
}

#[test]
fn schema_comes_from_the_first_message() {
    let m = message("users", "INSERT", 1, Some(user_row(1, "alice")), None);
    let b = TableBuffer::from_cdc_message(&m).unwrap();
    assert_eq!(b.row_count(), 0);
    let schema = b.schema();
    assert_eq!(schema.len(), 2);
    assert_eq!(schema[0].0, "id");
    assert!(schema[0].1 == ArrowType::Int32);
    assert_eq!(schema[1].0, "name");
    assert!(schema[1].1 == ArrowType::Utf8);
}

#[test]
fn schema_needs_a_row_image() {
    let m = message("users", "TRUNCATE", 1, None, None);
    let e = TableBuffer::from_cdc_message(&m).err().unwrap();
    assert!(matches!(e, ConvertError::NoTupleForSchema));
    assert_eq!(e.message(), "No tuple data for schema inference");
}

#[test]
fn rows_accumulate_and_build_a_batch() {
    let mut c = ArrowConverter::new();
    c.add_message(&message("users", "INSERT", 10, Some(user_row(1, "alice")), None)).unwrap();
    c.add_message(&message("users", "UPDATE", 11, Some(user_row(1, "bob")), None)).unwrap();
    c.add_message(&message("users", "DELETE", 12, None, Some(user_row(1, "bob")))).unwrap();
    assert_eq!(c.table_row_count("public.users"), 3);
    assert_eq!(c.buffered_tables(), vec!["public.users".to_string()]);
    let batch = c.flush_table("public.users").unwrap().unwrap();
    let rb = &batch.batch;
    assert_eq!(rb.num_rows(), 3);
    assert_eq!(rb.num_columns(), 2);
    let ids = rb.column(0).as_any().downcast_ref::<Int32Array>().unwrap();
    assert_eq!(ids.value(0), 1);
    let names = rb.column(1).as_any().downcast_ref::<StringArray>().unwrap();
    assert_eq!(names.value(0), "\"alice\"");
    assert_eq!(names.value(1), "\"bob\"");
    assert_eq!(c.table_row_count("public.users"), 0);
    assert!(c.buffered_tables().is_empty());
    assert!(c.flush_table("public.users").unwrap().is_none());
}

#[test]
fn truncate_drops_the_buffer() {
    let mut c = ArrowConverter::new();
    c.add_message(&message("users", "INSERT", 10, Some(user_row(1, "alice")), None)).unwrap();
    c.add_message(&message("users", "TRUNCATE", 11, None, None)).unwrap();
    assert_eq!(c.table_row_count("public.users"), 0);
    assert!(c.buffered_tables().is_empty());
}

#[test]
fn truncate_of_unknown_table_without_row_is_accepted() {
    let mut c = ArrowConverter::new();
    c.add_message(&message("users", "TRUNCATE", 11, None, None)).unwrap();
    assert_eq!(c.table_row_count("public.users"), 0);
    assert!(c.buffered_tables().is_empty());
}

#[test]
fn truncate_leaves_other_tables_alone() {
    let mut c = ArrowConverter::new();
    c.add_message(&message("a", "INSERT", 1, Some(user_row(1, "x")), None)).unwrap();
    c.add_message(&message("b", "INSERT", 2, Some(user_row(2, "y")), None)).unwrap();
    c.add_message(&message("a", "TRUNCATE", 3, None, None)).unwrap();
    assert_eq!(c.buffered_tables(), vec!["public.b".to_string()]);
    assert_eq!(c.table_row_count("public.b"), 1);
}

#[test]
fn unknown_operation_creates_buffer_without_row() {
    let mut c = ArrowConverter::new();
    c.add_message(&message("users", "MERGE", 10, Some(user_row(1, "alice")), None)).unwrap();
    assert_eq!(c.buffered_tables(), vec!["public.users".to_string()]);
    assert_eq!(c.table_row_count("public.users"), 0);
}

#[test]
fn column_count_mismatch_is_refused() {
    let mut c = ArrowConverter::new();
    c.add_message(&message("users", "INSERT", 10, Some(user_row(1, "alice")), None)).unwrap();
    let e = c.add_message(&message("users", "INSERT", 11, Some(vec![col("id", 23, Some(json_int(2)))]), None)).err().unwrap();
    assert!(matches!(e, ConvertError::ColumnCountMismatch { expected: 2, got: 1 }));
    assert_eq!(e.message(), "Column count mismatch: expected 2, got 1");
    assert_eq!(c.table_row_count("public.users"), 1);
}

#[test]
fn insert_without_row_image_is_refused() {
    let mut c = ArrowConverter::new();
    c.add_message(&message("users", "INSERT", 10, Some(user_row(1, "alice")), None)).unwrap();
    let e = c.add_message(&message("users", "INSERT", 11, None, None)).err().unwrap();
    assert!(matches!(e, ConvertError::NoTuple));
    assert_eq!(e.message(), "No tuple data in CDC message");
}

#[test]
fn conversion_errors_name_the_expected_type() {
    let mut c = ArrowConverter::new();
    let row = vec![col("flag", 16, Some(json_bool(true))), col("n", 20, Some(json_int(5))), col("x", 701, Some(json_float(1.5)))];
    c.add_message(&message("t", "INSERT", 1, Some(row), None)).unwrap();
    let bad_bool = vec![col("flag", 16, Some(json_int(1))), col("n", 20, Some(json_int(5))), col("x", 701, Some(json_float(1.5)))];
    let e = c.add_message(&message("t", "INSERT", 2, Some(bad_bool), None)).err().unwrap();
    assert_eq!(e.message(), "Expected boolean value");
    let bad_i64 = vec![col("flag", 16, Some(json_bool(false))), col("n", 20, Some(json_text("five"))), col("x", 701, Some(json_float(1.5)))];
    let e = c.add_message(&message("t", "INSERT", 3, Some(bad_i64), None)).err().unwrap();
    assert_eq!(e.message(), "Expected i64 value");
    let bad_float = vec![col("flag", 16, Some(json_bool(false))), col("n", 20, Some(json_int(5))), col("x", 701, Some(json_text("x")))];
    let e = c.add_message(&message("t", "INSERT", 4, Some(bad_float), None)).err().unwrap();
    assert_eq!(e.message(), "Expected numeric value");
    let missing = vec![Column { name: "flag".to_string(), type_oid: 16, value: None, is_null: false }, col("n", 20, Some(json_int(5))), col("x", 701, Some(json_float(1.5)))];
    let e = c.add_message(&message("t", "INSERT", 5, Some(missing), None)).err().unwrap();
    assert_eq!(e.message(), "Value is None but is_null is false");
    assert_eq!(c.table_row_count("public.t"), 1);
}

#[test]
fn int32_keeps_the_low_bits_and_nulls_stay_null() {
    let mut c = ArrowConverter::new();
    let row = vec![col("a", 23, Some(json_int(4_294_967_297))), col("b", 20, None), col("f", 701, None), col("s", 25, None), col("z", 16, None)];
    c.add_message(&message("t", "INSERT", 1, Some(row), None)).unwrap();
    let batch = c.flush_table("public.t").unwrap().unwrap();
    let rb = &batch.batch;
    let a = rb.column(0).as_any().downcast_ref::<Int32Array>().unwrap();
    assert_eq!(a.value(0), 1);
    assert!(rb.column(1).as_any().downcast_ref::<Int64Array>().unwrap().is_null(0));
    assert!(rb.column(2).as_any().downcast_ref::<Float64Array>().unwrap().is_null(0));
    assert!(rb.column(3).as_any().downcast_ref::<StringArray>().unwrap().is_null(0));
    assert!(rb.column(4).as_any().downcast_ref::<BooleanArray>().unwrap().is_null(0));
}

#[test]
fn double_column_holds_the_value() {
    let mut c = ArrowConverter::new();
    let row = vec![col("x", 701, Some(json_float(2.25))), col("y", 701, Some(json_int(3)))];
    c.add_message(&message("t", "INSERT", 1, Some(row), None)).unwrap();
    let batch = c.flush_table("public.t").unwrap().unwrap();
    let x = batch.batch.column(0).as_any().downcast_ref::<Float64Array>().unwrap();
    assert_eq!(x.value(0), 2.25);
    let y = batch.batch.column(1).as_any().downcast_ref::<Float64Array>().unwrap();
    assert_eq!(y.value(0), 3.0);
}

#[test]
fn real_and_bytea_columns_build_as_double_and_text() {
    let mut c = ArrowConverter::new();
    let row = vec![col("r", 700, Some(json_float(0.5))), col("b", 17, Some(json_text("\\x0102")))];
    c.add_message(&message("t", "INSERT", 1, Some(row), None)).unwrap();
    let batch = c.flush_table("public.t").unwrap().unwrap();
    let rb = &batch.batch;
    assert_eq!(rb.schema().field(0).data_type(), &arrow::datatypes::DataType::Float64);
    assert_eq!(rb.schema().field(1).data_type(), &arrow::datatypes::DataType::Utf8);
    let r = rb.column(0).as_any().downcast_ref::<Float64Array>().unwrap();
    assert_eq!(r.value(0), 0.5);
    let b = rb.column(1).as_any().downcast_ref::<StringArray>().unwrap();
    assert_eq!(b.value(0), "\"\\x0102\"");
    assert!(c.buffered_tables().is_empty());
}

#[test]
fn numeric_strings_fill_integer_and_double_columns() {
    let mut c = ArrowConverter::new();
    let row = vec![
        col("transaction_id", 20, Some(json_text("12345"))),
        col("user_id", 23, Some(json_int(5678))),
        col("small", 21, Some(json_text("-42"))),
        col("ratio", 701, Some(json_text("2.5"))),
        col("amount", 1700, Some(json_text("500.50"))),
        col("status", 25, Some(json_text("SUCCESS"))),
    ];
    let mut m = message("upi_transactions", "INSERT", 1, Some(row), None);
    c.add_message(&m).unwrap();
    assert_eq!(c.table_row_count("public.upi_transactions"), 1);
    m.lsn = 2;
    c.add_message(&m).unwrap();
    let batch = c.flush_table("public.upi_transactions").unwrap().unwrap();
    let rb = &batch.batch;
    assert_eq!(rb.num_rows(), 2);
    assert_eq!(rb.column(0).as_any().downcast_ref::<Int64Array>().unwrap().value(0), 12345);
    assert_eq!(rb.column(1).as_any().downcast_ref::<Int32Array>().unwrap().value(0), 5678);
    assert_eq!(rb.column(2).as_any().downcast_ref::<Int32Array>().unwrap().value(0), -42);
    assert_eq!(rb.column(3).as_any().downcast_ref::<Float64Array>().unwrap().value(0), 2.5);
    assert_eq!(rb.column(4).as_any().downcast_ref::<StringArray>().unwrap().value(0), "\"500.50\"");
}

#[test]
fn integer_strings_follow_the_signed_decimal_grammar() {
    let mut c = ArrowConverter::new();
    c.add_message(&message("t", "INSERT", 1, Some(vec![col("n", 20, Some(json_text("+7")))]), None)).unwrap();
    c.add_message(&message("t", "INSERT", 2, Some(vec![col("n", 20, Some(json_text("-9223372036854775808")))]), None)).unwrap();
    for bad in ["", "-", "+", "-+1", " 1", "1.0", "9223372036854775808", "0x10"] {
        let e = c.add_message(&message("t", "INSERT", 3, Some(vec![col("n", 20, Some(json_text(bad)))]), None)).err().unwrap();
        assert!(matches!(e, ConvertError::ExpectedI64), "{:?}", bad);
    }
    let e = c.add_message(&message("t", "INSERT", 4, Some(vec![col("n", 20, Some(json_text("abc")))]), None)).err().unwrap();
    assert_eq!(e.message(), "Expected i64 value");
    let batch = c.flush_table("public.t").unwrap().unwrap();
    let n = batch.batch.column(0).as_any().downcast_ref::<Int64Array>().unwrap();
    assert_eq!(n.len(), 2);
    assert_eq!(n.value(0), 7);
    assert_eq!(n.value(1), i64::MIN);
}

#[test]
fn text_limit_error_has_a_message() {
    assert_eq!(ConvertError::TextTooLong.message(), "Text column exceeds the offset range of a UTF-8 array");
}

#[test]
fn table_without_columns_cannot_be_built() {
    let mut c = ArrowConverter::new();
    c.add_message(&message("empty", "INSERT", 1, Some(vec![]), None)).unwrap();
    assert_eq!(c.table_row_count("public.empty"), 1);
    assert!(c.flush_all().is_err());
}

#[test]
fn flush_all_returns_every_table() {
    let mut c = ArrowConverter::new();
    c.add_message(&message("a", "INSERT", 1, Some(user_row(1, "x")), None)).unwrap();
    c.add_message(&message("b", "INSERT", 2, Some(user_row(2, "y")), None)).unwrap();
    c.add_message(&message("a", "INSERT", 3, Some(user_row(3, "z")), None)).unwrap();
    let out = c.flush_all().unwrap();
    assert_eq!(out.len(), 2);
    assert_eq!(out[0].0, "public.a");
    assert_eq!(out[0].1.batch.num_rows(), 2);
    assert_eq!(out[1].0, "public.b");
    assert_eq!(out[1].1.batch.num_rows(), 1);
    assert!(c.buffered_tables().is_empty());
}

#[test]
fn refused_value_leaves_every_column_unchanged() {
    let m = message("t", "INSERT", 1, Some(user_row(1, "a")), None);
    let mut b = TableBuffer::from_cdc_message(&m).unwrap();
    b.add_row(&m).unwrap();
    let bad = message("t", "INSERT", 2, Some(vec![col("id", 23, Some(json_int(2))), Column { name: "name".to_string(), type_oid: 25, value: None, is_null: false }]), None);
    assert!(b.add_row(&bad).is_err());
    assert_eq!(b.row_count(), 1);
    assert_eq!(b.row_metadata().len(), 1);
    match &b.columns()[0] {
        ColumnValues::Int32(v) => assert_eq!(v.len(), 1),
        _ => panic!("id column should hold 32-bit integers"),
    }
    match &b.columns()[1] {
        ColumnValues::Utf8(v) => assert_eq!(v.len(), 1),
        _ => panic!("name column should hold text"),
    }
    let batch = b.build().unwrap();
    assert_eq!(batch.batch.num_rows(), 1);
}

#[test]
fn row_metadata_records_each_row() {
    let m = message("t", "UPDATE", 77, Some(user_row(1, "a")), None);
    let mut b = TableBuffer::from_cdc_message(&m).unwrap();
    b.add_row(&m).unwrap();
    let meta = &b.row_metadata()[0];
    assert_eq!(meta.operation, "UPDATE");
    assert_eq!(meta.lsn, 77);
    assert_eq!(meta.tx_xid, 42);
    assert_eq!(meta.tx_commit_time, 1_700_000_000);
}

#[test]
fn real_and_bytea_buffers_build_one_row() {
    for oid in [700u32, 17] {
        let value = if oid == 700 { json_float(1.5) } else { json_text("\\x01") };
        let m = message("t", "INSERT", 1, Some(vec![col("r", oid, Some(value))]), None);
        let mut b = TableBuffer::from_cdc_message(&m).unwrap();
        b.add_row(&m).unwrap();
        let batch = b.build().unwrap();
        assert_eq!(batch.num_rows(), 1);
        assert_eq!(batch.num_columns(), 1);
    }
}

#[test]
fn flushed_batch_has_a_row_per_buffered_row() {
    let mut c = ArrowConverter::new();
    for lsn in 1..=4 {
        c.add_message(&message("users", "INSERT", lsn, Some(user_row(lsn as i64, "u")), None)).unwrap();
    }
    c.add_message(&message("other", "INSERT", 9, Some(user_row(9, "o")), None)).unwrap();
    let n = c.table_row_count("public.users");
    assert_eq!(n, 4);
    let batch = c.flush_table("public.users").unwrap().unwrap();
    assert_eq!(batch.num_rows(), n);
    assert_eq!(batch.num_columns(), 2);
    assert_eq!(c.table_row_count("public.users"), 0);
    assert_eq!(c.buffered_tables(), vec!["public.other".to_string()]);
    let all = c.flush_all().unwrap();
    assert_eq!(all[0].1.num_rows(), 1);
}
