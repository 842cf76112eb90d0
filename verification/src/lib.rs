//! Service-client core of a small torrent gateway.
//!
//! The gateway aggregates two external services — a torrent indexer and a
//! torrent download manager — behind a pair of capability interfaces with a
//! shared, closed error taxonomy.  This crate holds everything that can be
//! stated and proved: the data model, the interface contracts, the
//! deterministic in-memory adapters, and the pure request-building and
//! response-interpretation logic of the real adapters.  The transport (HTTP
//! routing, network calls, serialization) lives outside, in an ordinary Rust
//! shell around this library.

pub mod clients;
pub mod codec;
pub mod config;
pub mod error;
pub mod gateway;
pub mod indexer;
pub mod prowlarr;
pub mod qbit;
pub mod text;
pub mod torrent;
