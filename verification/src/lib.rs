//! Instrumentation layer for a tree-shaped query-processing pipeline.
//!
//! The crate provides a pluggable tracing extension that aggregates
//! per-field timing samples produced while an operation resolves its
//! fields, and emits a deterministic, versioned trace report. Time is
//! supplied by interchangeable clock backends; the report shape never
//! depends on the backend chosen.

pub mod clock;
pub mod trace;
pub mod report;
pub mod scalars;
