//! Binary circuits: nodes and gates, and the evaluation of a circuit on
//! values.

pub mod binary;
pub mod circuit;
pub mod components;
pub mod tracer;

pub use binary::{Gate, GateType};
pub use circuit::{Circuit, CircuitError};
pub use components::{Feed, Node, Sink};
pub use tracer::Tracer;
