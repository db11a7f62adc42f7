use rust_wal_cake_writer::cdc_message::{CdcMessage, Column, JsonValue, Tuple};

#[test]
fn text_form_of_an_event() {
    let m = CdcMessage {
        lsn: 0x16B3748,
        table_schema: "public".to_string(),
        table_name: "users".to_string(),
        operation: "UPDATE".to_string(),
        oid: 16384,
        new_tuple: Some(Tuple {
            columns: vec![
                Column { name: "id".to_string(), type_oid: 23, value: Some(JsonValue { text: "1".to_string(), boolean: None, integer: Some(1), string: None, float_bits: None }), is_null: false },
                Column { name: "note".to_string(), type_oid: 25, value: None, is_null: true },
                Column { name: "odd".to_string(), type_oid: 25, value: None, is_null: false },
            ],
        }),
        old_tuple: Some(Tuple { columns: vec![] }),
        tx_commit_time: 0,
        tx_xid: 731,
    };
    assert_eq!(
        m.to_string(),
        "[public.users] UPDATE | LSN=0x16B3748 XID=731 OID=16384\nNEW_TUPLE:\n  id (OID 23): 1\n  note (OID 25): NULL\n  odd (OID 25): ?\nOLD_TUPLE:\n"
    );
}

#[test]
fn text_form_without_rows() {
    let m = CdcMessage {
        lsn: 0,
        table_schema: "s".to_string(),
        table_name: "t".to_string(),
        operation: "TRUNCATE".to_string(),
        oid: 1,
        new_tuple: None,
        old_tuple: None,
        tx_commit_time: 0,
        tx_xid: 0,
    };
    assert_eq!(m.to_string(), "[s.t] TRUNCATE | LSN=0x0 XID=0 OID=1\n");
}
