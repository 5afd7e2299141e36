//! Tracing the operations applied to a value while a circuit is built.

use vstd::prelude::*;

use super::components::{Feed, Node};
use crate::dynamic_types::repr::binary::Bit;

verus! {

/// A wrapper type for tracing operations applied to a value: the value, and
/// the state of the builder that records the operations.
#[derive(Debug, Clone, Copy)]
pub struct Tracer<'a, T, S> {
    value: T,
    state: &'a S,
}

impl<'a, T, S> Tracer<'a, T, S> {
    /// The traced value.
    pub closed spec fn value(&self) -> T {
        self.value
    }

    /// The builder state.
    pub closed spec fn state(&self) -> &'a S {
        self.state
    }

    /// Creates a new tracer.
    pub fn new(state: &'a S, value: T) -> (r: Self)
        ensures
            r.value() == value,
            r.state() == state,
    {
        Tracer { value, state }
    }

    /// Returns the inner value.
    pub fn to_inner(self) -> (r: T)
        ensures
            r == self.value(),
    {
        self.value
    }
}

impl<'a, S> Tracer<'a, Bit<Node<Feed>>, S> {
    /// Returns the single node associated with the bit.
    pub fn node(&self) -> (r: Node<Feed>)
        ensures
            r == self.value().id_spec(),
    {
        let bit = self.value;
        *bit.id()
    }
}

} // verus!
