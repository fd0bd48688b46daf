//! An embedding harness for a dynamically-typed guest scripting engine.
//!
//! The library models the host side of the embedding: building an isolated
//! execution context from an ordered set of capabilities, running scripts and
//! modules against that context, draining the context's pending-work queue to
//! quiescence, extracting module exports, and marshalling values across the
//! static/dynamic type boundary in both directions.

pub mod context;
pub mod effects;
pub mod executor;
pub mod laws;
pub mod marshal;
pub mod module;
pub mod shape;
pub mod value;
