//! A request-batching engine: callers submit work items, the items of
//! concurrent submissions are coalesced into bounded batches, each batch is
//! handed to one downstream handler, and the batch-level outcome is fanned
//! back out to every caller.
//!
//! This crate holds the engine's logic: the single-assignment completion
//! handle, the shared queue and its batch assembler, the per-batch fanout
//! and the retry policy of the drain loop.
pub mod completion;
pub mod request;
pub mod batch;
pub mod inner;
pub mod round_trip;
pub mod laws;
pub mod submit;
