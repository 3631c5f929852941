//! Verified core of a forum's full-text search subsystem.
//!
//! The crate wraps an external indexing engine (tantivy) behind a small set of
//! trusted declarations and proves the orchestration around it: the field
//! codec that turns a document into indexable fields and hits back into
//! results, the query executor that decodes, re-ranks and caps result sets,
//! and the command/reply protocol of the single index-owner task.

pub mod codec;
pub mod engine;
pub mod hits;
pub mod index;
pub mod owner;
