//! Retrieval core of a local retrieval-augmented-generation workflow:
//! text is cut into overlapping word windows, every window is stored with
//! its embedding, and a query is answered with the stored window whose
//! embedding is closest to the query's.
pub mod chunker;
pub mod config;
pub mod error;
pub mod ingest;
pub mod query;
pub mod resolve;
pub mod similarity;
pub mod store;
pub mod text;
pub mod web;
