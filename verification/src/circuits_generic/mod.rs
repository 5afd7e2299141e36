//! Generic circuits: gates of any kind that connect indexed nodes.

pub mod circuit;
pub mod model;

pub use circuit::{Circuit, CircuitBuilder, CircuitBuilderError, Next};
pub use model::{Component, Node};
