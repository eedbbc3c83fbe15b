//! Honeypot event ingestion and append-only log archival.
//!
//! The library watches honeypot contracts on several chains for
//! attacker-interaction events: it builds the JSON-RPC requests that
//! check contract presence and fetch logs, decodes raw log payloads
//! into structured records, and appends those records to a log store
//! that rotates into gzip archives once a byte threshold is crossed.
//! Network and file I/O stay outside the library; callers hand in the
//! responses and mirror the store's state to disk.

mod clock;
pub mod config;
pub mod decode;
pub mod orchestrator;
pub mod record;
pub mod rpc;
pub mod serialize;
pub mod store;

pub use config::load_chain_configs;
pub use config::verify_environment;
pub use config::ChainConfig;
pub use record::LogEntry;
