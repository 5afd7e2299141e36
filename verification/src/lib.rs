//! Verified building blocks for two-party computation with garbled circuits:
//! dynamically typed binary values, circuit construction and evaluation,
//! memory representations of values, logical thread identifiers and task
//! scheduling, and the half-gate garbling arithmetic.

pub mod binary_types;
pub mod bits;
pub mod circuits;
pub mod circuits_generic;
pub mod common;
pub mod dynamic_types;
pub mod garble;
pub mod lpn;
pub mod memory;
pub mod random;
pub mod text;
