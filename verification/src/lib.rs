//! Decision logic of a document retrieval client for a remote document
//! database: bounded retry of single-document fetches, correlation of batch
//! responses with the identifiers that were asked for, and the projections
//! (typed decoding, error suppression, not-found folding) built on both.
//!
//! Nothing here performs a request. The caller sends what these functions
//! plan and hands back what the service answered.

pub mod error;
pub mod document;
pub mod path;
pub mod scope;
pub mod fetch;
pub mod batch;
pub mod projection;
pub mod laws;
