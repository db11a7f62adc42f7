//! Change-data-capture pipeline for PostgreSQL logical replication:
//! pgoutput decoding into WAL records, configuration, batching and
//! acknowledgement bookkeeping, metrics rendering, and the consumer-side
//! columnar buffering.
use vstd::prelude::*;

pub mod arrow_converter;
pub mod cdc_message;
pub mod config;
pub mod consumer;
pub mod decoder;
pub mod http;
pub mod iceberg_writer;
pub mod kafka;
pub mod lsn;
pub mod metrics;
pub mod pipeline;
pub mod replication;
pub mod state;
pub mod text;
pub mod wal_parser;

verus! {
}
