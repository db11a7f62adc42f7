use rust_wal_cake_writer::arrow_converter::ArrowConverter;
use rust_wal_cake_writer::cdc_message::{CdcMessage, Column, JsonValue, Tuple};
use rust_wal_cake_writer::iceberg_writer::{IcebergWriter, PolarisCatalogConfig, StorageConfig};

fn vars(pairs: &[(&str, &str)]) -> Vec<(String, String)> {
    pairs.iter().map(|(k, v)| (k.to_string(), v.to_string())).collect()
}

#[test]
fn test_polaris_config_from_env() {
    let env = vars(&[
        ("POLARIS_URI", "http://polaris.example.com:8181"),
        ("POLARIS_WORKSPACE", "test_ws"),
        ("POLARIS_CATALOG", "test_catalog"),
    ]);
    let config = PolarisCatalogConfig::from_vars(&env);
    assert_eq!(config.uri, "http://polaris.example.com:8181");
    assert_eq!(config.workspace, "test_ws");
    assert_eq!(config.catalog, "test_catalog");
}

#[test]
fn test_storage_config_from_env() {
    let env = vars(&[
        ("S3_ENDPOINT", "http://minio.example.com:9000"),
        ("S3_BUCKET", "iceberg-warehouse"),
        ("S3_WAREHOUSE", "warehouse"),
    ]);
    let config = StorageConfig::from_vars(&env);
    assert_eq!(config.endpoint, "http://minio.example.com:9000");
    assert_eq!(config.bucket, "iceberg-warehouse");
    assert_eq!(config.use_path_style, true);
}

#[test]
fn polaris_defaults() {
    let config = PolarisCatalogConfig::from_vars(&vec![]);
    assert_eq!(config.uri, "http://localhost:8181");
    assert_eq!(config.workspace, "default");
    assert_eq!(config.catalog, "default");
    assert!(config.token.is_none());
    let with_token = PolarisCatalogConfig::from_vars(&vars(&[("POLARIS_TOKEN", "abc")]));
    assert_eq!(with_token.token.as_deref(), Some("abc"));
}

#[test]
fn storage_defaults_and_path_style() {
    let config = StorageConfig::from_vars(&vec![]);
    assert_eq!(config.endpoint, "http://localhost:9000");
    assert_eq!(config.access_key, "minioadmin");
    assert_eq!(config.secret_key, "minioadmin");
    assert_eq!(config.bucket, "warehouse");
    assert_eq!(config.warehouse, "warehouse");
    assert!(config.use_path_style);
    assert!(!StorageConfig::from_vars(&vars(&[("S3_PATH_STYLE", "false")])).use_path_style);
    assert!(StorageConfig::from_vars(&vars(&[("S3_PATH_STYLE", "FALSE")])).use_path_style);
    assert!(StorageConfig::from_vars(&vars(&[("S3_PATH_STYLE", "no")])).use_path_style);
}

#[test]
fn tables_are_cached_once() {
    let mut c = ArrowConverter::new();
    let m = CdcMessage {
        lsn: 1,
        table_schema: "public".to_string(),
        table_name: "users".to_string(),
        operation: "INSERT".to_string(),
        oid: 1,
        new_tuple: Some(Tuple {
            columns: vec![Column {
                name: "id".to_string(),
                type_oid: 20,
                value: Some(JsonValue { text: "1".to_string(), boolean: None, integer: Some(1), string: None, float_bits: Some(1f64.to_bits()) }),
                is_null: false,
            }],
        }),
        old_tuple: None,
        tx_commit_time: 0,
        tx_xid: 1,
    };
    c.add_message(&m).unwrap();
    let batch = c.flush_table("public.users").unwrap().unwrap();
    let mut w = IcebergWriter::new(PolarisCatalogConfig::from_vars(&vec![]), StorageConfig::from_vars(&vec![]));
    assert!(w.cached_tables().is_empty());
    w.get_or_create_table("public", "users", &batch);
    w.write_record_batch("public", "users", batch);
    assert_eq!(w.cached_tables().len(), 1);
    assert_eq!(w.cached_tables()[0].0, "public.users");
    assert_eq!(w.cached_tables()[0].1 .0, "public");
    assert_eq!(w.cached_tables()[0].1 .1, 1);
    assert_eq!(w.polaris_config().uri, "http://localhost:8181");
    assert_eq!(w.storage_config().bucket, "warehouse");
}
