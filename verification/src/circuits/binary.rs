//! Binary circuit components: logic gates.

use vstd::prelude::*;

use super::components::{Feed, Node, Sink};

verus! {

/// A binary logic gate.
#[derive(Debug, Clone, Copy)]
pub enum Gate {
    /// XOR gate.
    Xor {
        /// First input.
        x: Node<Sink>,
        /// Second input.
        y: Node<Sink>,
        /// Output.
        z: Node<Feed>,
    },
    /// AND gate.
    And {
        /// First input.
        x: Node<Sink>,
        /// Second input.
        y: Node<Sink>,
        /// Output.
        z: Node<Feed>,
    },
    /// Inverter gate.
    Inv {
        /// Input.
        x: Node<Sink>,
        /// Output.
        z: Node<Feed>,
    },
}

/// The type of a binary gate.
#[derive(Debug, Clone, Copy, PartialEq, Eq, Structural)]
pub enum GateType {
    /// XOR gate.
    Xor,
    /// AND gate.
    And,
    /// Inverter gate.
    Inv,
}

impl Gate {
    /// The type of this gate.
    pub open spec fn ty(self) -> GateType {
        match self {
            Gate::Xor { .. } => GateType::Xor,
            Gate::And { .. } => GateType::And,
            Gate::Inv { .. } => GateType::Inv,
        }
    }

    /// The x input of this gate.
    pub open spec fn x_spec(self) -> Node<Sink> {
        match self {
            Gate::Xor { x, .. } => x,
            Gate::And { x, .. } => x,
            Gate::Inv { x, .. } => x,
        }
    }

    /// The y input of this gate, if it has one.
    pub open spec fn y_spec(self) -> Option<Node<Sink>> {
        match self {
            Gate::Xor { y, .. } => Some(y),
            Gate::And { y, .. } => Some(y),
            Gate::Inv { .. } => None,
        }
    }

    /// The z output of this gate.
    pub open spec fn z_spec(self) -> Node<Feed> {
        match self {
            Gate::Xor { z, .. } => z,
            Gate::And { z, .. } => z,
            Gate::Inv { z, .. } => z,
        }
    }

    /// Every node of this gate is below `bound`.
    pub open spec fn nodes_below(self, bound: nat) -> bool {
        &&& self.x_spec().index() < bound
        &&& self.z_spec().index() < bound
        &&& (self.y_spec() matches Some(y) ==> y.index() < bound)
    }

    /// Every node of this gate is at least `offset`.
    pub open spec fn nodes_from(self, offset: nat) -> bool {
        &&& self.x_spec().index() >= offset
        &&& self.z_spec().index() >= offset
        &&& (self.y_spec() matches Some(y) ==> y.index() >= offset)
    }

    /// Returns the type of this gate.
    pub fn gate_type(&self) -> (r: GateType)
        ensures
            r == self.ty(),
    {
        match self {
            Gate::Xor { .. } => GateType::Xor,
            Gate::And { .. } => GateType::And,
            Gate::Inv { .. } => GateType::Inv,
        }
    }

    /// Returns the x input of this gate.
    pub fn x(&self) -> (r: Node<Sink>)
        ensures
            r == self.x_spec(),
    {
        match self {
            Gate::Xor { x, .. } => *x,
            Gate::And { x, .. } => *x,
            Gate::Inv { x, .. } => *x,
        }
    }

    /// Returns the y input of this gate.
    pub fn y(&self) -> (r: Option<Node<Sink>>)
        ensures
            r == self.y_spec(),
    {
        match self {
            Gate::Xor { y, .. } => Some(*y),
            Gate::And { y, .. } => Some(*y),
            Gate::Inv { .. } => None,
        }
    }

    /// Returns the z output of this gate.
    pub fn z(&self) -> (r: Node<Feed>)
        ensures
            r == self.z_spec(),
    {
        match self {
            Gate::Xor { z, .. } => *z,
            Gate::And { z, .. } => *z,
            Gate::Inv { z, .. } => *z,
        }
    }

    /// Shifts all the node IDs of this gate down by the given offset.
    pub fn shift_left(&mut self, offset: usize)
        requires
            old(self).nodes_from(offset as nat),
        ensures
            final(self).ty() == old(self).ty(),
            final(self).x_spec().index() == old(self).x_spec().index() - offset,
            final(self).z_spec().index() == old(self).z_spec().index() - offset,
            old(self).y_spec() is None ==> final(self).y_spec() is None,
            old(self).y_spec() matches Some(y) ==> final(self).y_spec() matches Some(y2) && y2.index()
                == y.index() - offset,
    {
        match *self {
            Gate::Xor { x, y, z } => {
                let mut x = x;
                let mut y = y;
                let mut z = z;
                x.shift_left(offset);
                y.shift_left(offset);
                z.shift_left(offset);
                *self = Gate::Xor { x, y, z };
            },
            Gate::And { x, y, z } => {
                let mut x = x;
                let mut y = y;
                let mut z = z;
                x.shift_left(offset);
                y.shift_left(offset);
                z.shift_left(offset);
                *self = Gate::And { x, y, z };
            },
            Gate::Inv { x, z } => {
                let mut x = x;
                let mut z = z;
                x.shift_left(offset);
                z.shift_left(offset);
                *self = Gate::Inv { x, z };
            },
        }
    }
}

} // verus!
