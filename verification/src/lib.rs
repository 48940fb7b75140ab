//! Error propagation for query adapters.
//!
//! An [adapter](adapter::Adapter) maps a schema to data: its resolvers turn lazy sequences of query
//! contexts into lazy sequences of outcomes, each of which may be an error. Pipelines over an
//! adapter work on [plain items](error_tracking::RawAdapter) all the same: the first error of a run
//! goes to a slot that all sequences of the run share, and the
//! [results](surface::surface_errors) of the run are the completed rows, then that error, then
//! nothing.
//!
//! - [`pull`]: lazy sequences, and what they say of their pulls.
//! - [`adapter`] and [`basic_adapter`]: the traits that data providers implement.
//! - [`helpers`]: resolvers of whole sequences out of functions of one vertex.
//! - [`error`], [`error_tracking`] and [`surface`]: errors, the slot, and the results.
//! - [`bridge`]: a synchronous adapter behind an asynchronous stream of contexts.
//! - [`laws`]: what the above comes to, by what goes in and what comes out.

pub mod adapter;
pub mod basic_adapter;
pub mod bridge;
pub mod error;
pub mod error_tracking;
pub mod helpers;
pub mod ir;
pub mod laws;
pub mod pull;
pub mod surface;
