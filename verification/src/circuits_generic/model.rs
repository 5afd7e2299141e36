//! The main traits and structures used to represent circuits.

use vstd::prelude::*;

verus! {

/// A `Component` defines a block with inputs and outputs.
pub trait Component {
    /// The input nodes.
    closed spec fn inputs(&self) -> Seq<Node> {
        vstd::pervasive::arbitrary()
    }

    /// The output nodes.
    closed spec fn outputs(&self) -> Seq<Node> {
        vstd::pervasive::arbitrary()
    }

    /// Returns the input node indices.
    fn get_inputs(&self) -> (r: &[Node])
        ensures
            r@ == self.inputs(),
    ;

    /// Returns the output node indices.
    fn get_outputs(&self) -> (r: &[Node])
        ensures
            r@ == self.outputs(),
    ;
}

/// A circuit node.
#[derive(Debug, Clone, Copy, Hash, Eq, PartialEq, Structural)]
pub struct Node(pub(crate) u32);

impl Node {
    /// The index of the node.
    pub closed spec fn index(self) -> nat {
        self.0 as nat
    }

    /// Creates a node with the given index.
    pub fn new(index: u32) -> (r: Self)
        ensures
            r.index() == index,
    {
        Node(index)
    }

    /// Returns the index of the node.
    pub fn id(&self) -> (r: u32)
        ensures
            r == self.index(),
    {
        self.0
    }

    pub(crate) fn next(&mut self) -> (r: Self)
        requires
            old(self).index() < u32::MAX,
        ensures
            r == *old(self),
            final(self).index() == old(self).index() + 1,
    {
        let prev = self.0;
        self.0 = prev + 1;
        Self(prev)
    }
}

} // verus!
