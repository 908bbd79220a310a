//! Verified core of a ledger-metrics pipeline: incremental ingestion with a
//! durable cursor, duplicate-safe persistence, hourly aggregation, reliability
//! scoring, multiplexed-address analytics and a cache-aside read path.

pub mod aggregation;
pub mod api_keys;
pub mod cache;
pub mod config;
pub mod cursor;
pub mod health;
pub mod ingest;
pub mod jobs;
pub mod ledger;
pub mod muxed;
pub mod query;
pub mod scheduler;
pub mod scoring;
pub mod table;
pub mod text;
pub mod validation;
