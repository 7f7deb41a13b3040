//! Local-network file sharing: the transfer server's data model, its chunked
//! upload reassembly protocol and its start/stop lifecycle, verified with Verus.

pub mod concurrency;
pub mod config;
pub mod download;
pub mod error;
pub mod logger;
pub mod models;
pub mod reassembly;
pub mod server;
pub mod storage;
pub mod text;
pub mod upload;
