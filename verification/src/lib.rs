//! Conversion of a browser-session recording (one full DOM snapshot plus a
//! stream of timestamped incremental interaction events) into a replayable
//! browser-automation script.
//!
//! The pipeline is strictly linear: event validation, DOM snapshot
//! reconstruction, action extraction with input coalescing, selector
//! synthesis, and code emission.

pub mod action;
pub mod assoc;
pub mod codegen;
pub mod dom;
pub mod error;
pub mod events;
pub mod extract;
pub mod json;
pub mod pipeline;
pub mod selector;
pub mod strutil;
pub mod template;
