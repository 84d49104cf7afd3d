//! Aggregator-side roles of a privacy-preserving distributed measurement
//! protocol: a Leader and a Helper jointly aggregate secret-shared client
//! reports and hand a Collector the combined statistic for a batch.
//!
//! The crate covers the protocol role engine: task configuration and the
//! query model, report ingestion, the aggregation-job state machine run
//! between Leader and Helper, batch accounting with anti-replay and
//! overlap bookkeeping, the collect-job lifecycle, and bearer-token
//! authorization. The cryptographic capabilities (share encryption and the
//! aggregation scheme itself) are consumed through small in-memory
//! implementations with exact contracts.

pub mod aggregator;
pub mod base;
pub mod batch;
pub mod bytesutil;
pub mod digest;
pub mod driver;
pub mod helper;
pub mod hpke;
pub mod laws;
pub mod leader;
pub mod locator;
pub mod messages;
pub mod rng;
pub mod scheme;
pub mod storage;
pub mod task;
pub mod taskprov;
pub mod urlpath;
