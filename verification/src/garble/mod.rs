//! Garbled circuits: configuration, encodings, half-gate garbling, and the
//! garbling and evaluation of whole circuits, gate by gate or in batches.

pub mod batch;
pub mod config;
pub mod encoding;
pub mod garbler;
pub mod half_gate;
pub mod hash;
