//! Command resolution and execution pipeline for a small command server.
//!
//! A free-form textual command is resolved to a concrete action, either by
//! exact keyword match or by consulting an external intent classifier over a
//! line protocol; the action's result is returned as a uniform response
//! envelope. This crate holds the decision core: tokenization, the shared
//! intent table, the classifier line protocol, confidence gating, metadata
//! merging, and the storage-gateway request and response handling. The
//! process edges (HTTP, filesystem, the classifier subprocess) live outside
//! and exchange plain values with this crate.

pub mod actions;
pub mod classifier;
pub mod dispatch;
pub mod envelope;
pub mod gateway;
pub mod intent;
pub mod json;
pub mod text;
pub mod value;
