//! Capture server for outbound mail: the protocol session, the ingestion of raw
//! messages into structured records, the store of captured records and the
//! fan-out of new records to observers.

pub mod config;
pub mod fallback;
pub mod fanout;
pub mod headers;
pub mod http;
pub mod ingest;
pub mod mime;
pub mod models;
pub mod session;
pub mod smtp;
pub mod state;
pub mod store;
pub mod text;
