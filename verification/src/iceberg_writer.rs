//! Catalog and storage settings of the table writer, and its cache of the
//! tables it has seen.
use vstd::prelude::*;
use crate::arrow_converter::{arrow_batch_columns, record_batch_num_columns, ArrowBatch};
use crate::config::{env_value, lookup, optional_setting, optional_text, text_or, text_setting};
use crate::text::str_equal;

verus! {

/// Where the Polaris catalog is and how to reach it.
pub struct PolarisCatalogConfig {
    /// The server URL.
    pub uri: String,
    /// The workspace name.
    pub workspace: String,
    /// The catalog name.
    pub catalog: String,
    /// An OAuth token, if one is used.
    pub token: Option<String>,
}

impl PolarisCatalogConfig {
    /// Reads `POLARIS_URI` (default `http://localhost:8181`), `POLARIS_WORKSPACE`
    /// and `POLARIS_CATALOG` (default `default`) and the optional `POLARIS_TOKEN`.
    pub fn from_vars(vars: &Vec<(String, String)>) -> (c: Self)
        ensures
            c.uri@ == text_setting(vars@, "POLARIS_URI"@, "http://localhost:8181"@),
            c.workspace@ == text_setting(vars@, "POLARIS_WORKSPACE"@, "default"@),
            c.catalog@ == text_setting(vars@, "POLARIS_CATALOG"@, "default"@),
            match optional_setting(vars@, "POLARIS_TOKEN"@) {
                Some(t) => c.token matches Some(s) && s@ == t,
                None => c.token is None,
            },
    {
        PolarisCatalogConfig {
            uri: text_or(vars, "POLARIS_URI", "http://localhost:8181"),
            workspace: text_or(vars, "POLARIS_WORKSPACE", "default"),
            catalog: text_or(vars, "POLARIS_CATALOG", "default"),
            token: optional_text(vars, "POLARIS_TOKEN"),
        }
    }
}

/// Where the table files are stored.
pub struct StorageConfig {
    /// The S3 endpoint.
    pub endpoint: String,
    /// The access key id.
    pub access_key: String,
    /// The secret access key.
    pub secret_key: String,
    /// The bucket holding the tables.
    pub bucket: String,
    /// The warehouse path within the bucket.
    pub warehouse: String,
    /// Path-style URLs (MinIO) rather than virtual-host style (AWS).
    pub use_path_style: bool,
}

impl StorageConfig {
    /// Reads `S3_ENDPOINT` (default `http://localhost:9000`), `S3_ACCESS_KEY` and
    /// `S3_SECRET_KEY` (default `minioadmin`), `S3_BUCKET` and `S3_WAREHOUSE`
    /// (default `warehouse`), and `S3_PATH_STYLE`: path style unless it is
    /// exactly `false`.
    pub fn from_vars(vars: &Vec<(String, String)>) -> (c: Self)
        ensures
            c.endpoint@ == text_setting(vars@, "S3_ENDPOINT"@, "http://localhost:9000"@),
            c.access_key@ == text_setting(vars@, "S3_ACCESS_KEY"@, "minioadmin"@),
            c.secret_key@ == text_setting(vars@, "S3_SECRET_KEY"@, "minioadmin"@),
            c.bucket@ == text_setting(vars@, "S3_BUCKET"@, "warehouse"@),
            c.warehouse@ == text_setting(vars@, "S3_WAREHOUSE"@, "warehouse"@),
            c.use_path_style == (env_value(vars@, "S3_PATH_STYLE"@) != Some("false"@)),
    {
        let use_path_style = match lookup(vars, "S3_PATH_STYLE") {
            Some(v) => !str_equal(v.as_str(), "false"),
            None => true,
        };
        StorageConfig {
            endpoint: text_or(vars, "S3_ENDPOINT", "http://localhost:9000"),
            access_key: text_or(vars, "S3_ACCESS_KEY", "minioadmin"),
            secret_key: text_or(vars, "S3_SECRET_KEY", "minioadmin"),
            bucket: text_or(vars, "S3_BUCKET", "warehouse"),
            warehouse: text_or(vars, "S3_WAREHOUSE", "warehouse"),
            use_path_style,
        }
    }
}

/// Table `key` is in the cache.
pub open spec fn cached_table(t: Seq<(String, (String, usize))>, key: Seq<char>) -> bool {
    exists|i: int| 0 <= i < t.len() && t[i].0@ == key
}

/// Writes change batches to catalog tables, remembering each table it creates.
pub struct IcebergWriter {
    polaris_config: PolarisCatalogConfig,
    storage_config: StorageConfig,
    tables: Vec<(String, (String, usize))>,
}

impl IcebergWriter {
    /// The cached tables.
    pub closed spec fn tables(&self) -> Seq<(String, (String, usize))> {
        self.tables@
    }

    /// A writer for this catalog and storage, with no table yet.
    pub fn new(polaris_config: PolarisCatalogConfig, storage_config: StorageConfig) -> (w: Self)
        ensures
            w.tables().len() == 0,
            w.polaris() == polaris_config,
            w.storage() == storage_config,
    {
        IcebergWriter { polaris_config, storage_config, tables: Vec::new() }
    }

    /// The catalog settings.
    pub closed spec fn polaris(&self) -> PolarisCatalogConfig {
        self.polaris_config
    }

    /// The storage settings.
    pub closed spec fn storage(&self) -> StorageConfig {
        self.storage_config
    }

    /// The catalog settings.
    pub fn polaris_config(&self) -> (r: &PolarisCatalogConfig)
        ensures
            *r == self.polaris(),
    {
        &self.polaris_config
    }

    /// The storage settings.
    pub fn storage_config(&self) -> (r: &StorageConfig)
        ensures
            *r == self.storage(),
    {
        &self.storage_config
    }

    /// The cached tables, in the order they were first seen.
    pub fn cached_tables(&self) -> (r: &Vec<(String, (String, usize))>)
        ensures
            r@ == self.tables(),
    {
        &self.tables
    }

    /// Makes sure table `{schema}.{table}` is known, caching its schema and the
    /// batch's number of columns the first time it is seen.
    pub fn get_or_create_table(&mut self, schema: &str, table: &str, record_batch: &ArrowBatch)
        ensures
            final(self).polaris() == old(self).polaris(),
            final(self).storage() == old(self).storage(),
            ({
                let key = schema@ + "."@ + table@;
                &&& cached_table(old(self).tables(), key) ==> final(self).tables() == old(self).tables()
                &&& !cached_table(old(self).tables(), key) ==> final(self).tables().len() == old(self).tables().len() + 1
                    && final(self).tables().drop_last() == old(self).tables()
                    && final(self).tables().last().0@ == key
                    && final(self).tables().last().1.0@ == schema@
                    && final(self).tables().last().1.1 == arrow_batch_columns(*record_batch)
            }),
    {
        let mut key = String::from_str(schema);
        key.append(".");
        key.append(table);
        let mut i: usize = 0;
        while i < self.tables.len()
            invariant
                i <= self.tables@.len(),
                key@ == schema@ + "."@ + table@,
                forall|j: int| 0 <= j < i ==> self.tables@[j].0@ != key@,
            decreases self.tables@.len() - i,
        {
            if str_equal(self.tables[i].0.as_str(), key.as_str()) {
                return;
            }
            i = i + 1;
        }
        let columns = record_batch_num_columns(record_batch);
        let ghost before = self.tables@;
        self.tables.push((key, (String::from_str(schema), columns)));
        assert(self.tables@.drop_last() =~= before);
    }

    /// Writes a batch to table `{schema}.{table}`, creating the table first when
    /// it is new.
    pub fn write_record_batch(&mut self, schema: &str, table: &str, record_batch: ArrowBatch)
        ensures
            final(self).polaris() == old(self).polaris(),
            final(self).storage() == old(self).storage(),
            ({
                let key = schema@ + "."@ + table@;
                &&& cached_table(old(self).tables(), key) ==> final(self).tables() == old(self).tables()
                &&& !cached_table(old(self).tables(), key) ==> final(self).tables().len() == old(self).tables().len() + 1
                    && final(self).tables().drop_last() == old(self).tables()
                    && final(self).tables().last().0@ == key
                    && final(self).tables().last().1.0@ == schema@
                    && final(self).tables().last().1.1 == arrow_batch_columns(record_batch)
            }),
    {
        self.get_or_create_table(schema, table, &record_batch);
    }
}

} // verus!
