//! Compiles a declarative dataflow graph into a runtime-assigned execution
//! plan, and drives the per-node state machine that executes such a plan.
//!
//! The [`model`] module holds the graph compiler: flow descriptors, the
//! compiled record, and the rules that turn the one into the other. The
//! [`runtime`] module holds the runner side: messages, end-to-end deadline
//! checks and the sink runner.
//!
//! Identifiers are strings throughout. [`collections`] holds the map that is
//! keyed by them, [`text`] the helpers that relate strings and containers to
//! the mathematical values that contracts speak of, and [`types`] the error
//! type.

pub mod collections;
pub mod model;
pub mod runtime;
pub mod text;
pub mod types;
