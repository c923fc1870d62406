//! Ingestion and partitioning core of a columnar store: write-ahead buffering,
//! sort-key range routing of rows into partitions, chunk lifecycle and
//! repartitioning, written as a sans-I/O library.

pub mod chunk_store;
pub mod columns;
pub mod data_frame;
pub mod error;
pub mod ingest;
pub mod metastore;
pub mod naming;
pub mod protocol;
pub mod remap;
pub mod repartition;
pub mod router;
pub mod sorting;
pub mod table;
pub mod wal_store;
