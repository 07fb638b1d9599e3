//! An in-memory catalog of time-tracked work entries.
//!
//! Raw records (an identifier, a free-text title, a composite date/time
//! field and a tag) are validated, normalized and assembled into tasks,
//! which a single ingestion pass materializes into a catalog keyed by
//! identifier.

pub mod document;
pub mod domain;
pub mod dto;
pub mod error;
pub mod laws;
pub mod service;
pub mod text;
