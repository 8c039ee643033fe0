//! Media catalog library: filename tag parsing, catalog records, the
//! versioned snapshot store, and the query engine over snapshots.
pub mod api;
pub mod cache;
pub mod catalog;
pub mod config;
pub mod indexer;
pub mod search;
pub mod tags;
pub mod text;
pub mod thumbnails;
