//! A streaming, consistency-preserving bulk exporter for one or more indices
//! held by a distributed document-search backend.
//!
//! The core of the library is an export loop that, for each requested index,
//! opens a point-in-time snapshot, pages through every document in a stable
//! total order, and emits each document as a two-line NDJSON bulk record.
//! All protocol decisions — request construction, two-shape response
//! decoding, error classification, cursor and token rotation — are verified;
//! the asynchronous transport and the file/stdout sinks live outside the
//! library and drive it event by event.

pub mod cursor;
pub mod decode;
pub mod encode;
pub mod export;
pub mod field;
pub mod json;
pub mod model;
pub mod namespace;
pub mod path_parameter;
pub mod request;
pub mod sink;
pub mod text;
