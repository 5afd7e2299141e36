//! Building circuits from gates.

use std::marker::PhantomData;
use vstd::prelude::*;

use crate::circuits_generic::model::{Component, Node};

verus! {

/// The Circuit Builder assembles a collection of gates into a circuit.
///
/// Nodes are numbered in the order in which they are handed out: inputs and
/// gate outputs alike.
#[derive(Debug)]
pub struct CircuitBuilder<T> {
    current_node: Node,
    inputs: Vec<Node>,
    outputs: Vec<Node>,
    gates: Vec<T>,
    stack_size: usize,
}

/// Hands out the next node. The builder's node counter moves on by as many
/// nodes as are handed out.
#[derive(Debug)]
pub struct Next<'a>(Node, PhantomData<&'a mut Node>);

impl<'a> Next<'a> {
    /// The node that will be handed out next.
    pub closed spec fn current(&self) -> nat {
        self.0.index()
    }

    /// Returns the next node.
    pub fn next(&mut self) -> (r: Node)
        requires
            old(self).current() < u32::MAX,
        ensures
            r.index() == old(self).current(),
            final(self).current() == old(self).current() + 1,
    {
        self.0.next()
    }
}

/// Errors when building a circuit.
#[derive(Debug, Clone, Copy, PartialEq, Eq, Structural)]
pub enum CircuitBuilderError {
    /// A gate without inputs or without outputs.
    DisconnectedGate,
    /// A circuit without gates.
    EmptyCircuit,
    /// An output of the circuit is an input to a gate.
    OutputValidationFailed,
    /// A gate refers to a node that was never handed out, or that is not
    /// available to it: neither an input of the circuit nor an output of an
    /// earlier gate.
    NodeOutOfIndex,
}

impl CircuitBuilderError {
    /// Returns the message that describes the error.
    pub fn message(&self) -> (s: &'static str)
        ensures
            s@ == self.message_spec(),
    {
        match self {
            CircuitBuilderError::DisconnectedGate => "Disconnected gate",
            CircuitBuilderError::EmptyCircuit => "Empty circuit",
            CircuitBuilderError::OutputValidationFailed => "Output validation failed",
            CircuitBuilderError::NodeOutOfIndex => "Node out of index",
        }
    }

    /// The message that describes the error.
    pub open spec fn message_spec(self) -> Seq<char> {
        match self {
            CircuitBuilderError::DisconnectedGate => "Disconnected gate"@,
            CircuitBuilderError::EmptyCircuit => "Empty circuit"@,
            CircuitBuilderError::OutputValidationFailed => "Output validation failed"@,
            CircuitBuilderError::NodeOutOfIndex => "Node out of index"@,
        }
    }
}

/// Some node of `gates` (an input or an output of some gate) has an index of
/// at least `stack_size`.
pub open spec fn some_node_out_of_index<T: Component>(gates: Seq<T>, stack_size: nat) -> bool {
    exists|i: int, j: int|
        0 <= i < gates.len() && ((0 <= j < gates[i].inputs().len() && gates[i].inputs()[j].index()
            >= stack_size) || (0 <= j < gates[i].outputs().len() && gates[i].outputs()[j].index()
            >= stack_size))
}

/// Node `x` is available to gate `i`: it is an input of the circuit or an
/// output of an earlier gate.
pub open spec fn available_before<T: Component>(inputs: Seq<Node>, gates: Seq<T>, i: int, x: Node) -> bool {
    inputs.contains(x) || exists|a: int, m: int|
        0 <= a < i && 0 <= m < gates[a].outputs().len() && #[trigger] gates[a].outputs()[m] == x
}

/// The gates are topologically sorted: every input of a gate is available to
/// it, so the gates form a directed acyclic graph.
pub open spec fn topologically_sorted<T: Component>(inputs: Seq<Node>, gates: Seq<T>) -> bool {
    forall|i: int, j: int|
        0 <= i < gates.len() && 0 <= j < gates[i].inputs().len() ==> available_before(
            inputs,
            gates,
            i,
            #[trigger] gates[i].inputs()[j],
        )
}

/// Some output of the circuit is an input to some gate.
pub open spec fn some_output_feeds_gate<T: Component>(gates: Seq<T>, outputs: Seq<Node>) -> bool {
    exists|k: int, i: int, j: int|
        0 <= k < outputs.len() && 0 <= i < gates.len() && 0 <= j < gates[i].inputs().len()
            && gates[i].inputs()[j] == outputs[k]
}

impl<T> CircuitBuilder<T> {
    /// The node that will be handed out next.
    pub closed spec fn current(self) -> nat {
        self.current_node.index()
    }

    /// The inputs added so far.
    pub closed spec fn inputs(self) -> Seq<Node> {
        self.inputs@
    }

    /// The outputs added so far.
    pub closed spec fn outputs(self) -> Seq<Node> {
        self.outputs@
    }

    /// The gates added so far.
    pub closed spec fn gates(self) -> Seq<T> {
        self.gates@
    }

    /// The number of nodes that inputs and gate outputs take.
    pub closed spec fn stack_size(self) -> nat {
        self.stack_size as nat
    }

}

impl<T> Default for CircuitBuilder<T> {
    /// Creates an empty circuit builder, as `new` does.
    fn default() -> (r: Self)
        ensures
            r.current() == 0,
            r.inputs().len() == 0,
            r.outputs().len() == 0,
            r.gates().len() == 0,
            r.stack_size() == 0,
    {
        Self {
            current_node: Node::new(0),
            inputs: Vec::new(),
            outputs: Vec::new(),
            gates: Vec::new(),
            stack_size: 0,
        }
    }
}

impl<T: Component> CircuitBuilder<T> {
    /// Creates a new circuit builder.
    pub fn new() -> (r: Self)
        ensures
            r.current() == 0,
            r.inputs().len() == 0,
            r.outputs().len() == 0,
            r.gates().len() == 0,
            r.stack_size() == 0,
    {
        Self {
            current_node: Node::new(0),
            inputs: Vec::new(),
            outputs: Vec::new(),
            gates: Vec::new(),
            stack_size: 0,
        }
    }

    /// Adds an input to the circuit.
    pub fn add_input(&mut self) -> (r: Node)
        requires
            old(self).current() < u32::MAX,
            old(self).stack_size() < usize::MAX,
        ensures
            r.index() == old(self).current(),
            final(self).current() == old(self).current() + 1,
            final(self).inputs() == old(self).inputs().push(r),
            final(self).stack_size() == old(self).stack_size() + 1,
            final(self).outputs() == old(self).outputs(),
            final(self).gates() == old(self).gates(),
    {
        let input = self.current_node.next();
        self.inputs.push(input);
        self.stack_size = self.stack_size + 1;
        input
    }

    /// Adds an output to the circuit.
    pub fn add_output(&mut self, node: Node)
        ensures
            final(self).outputs() == old(self).outputs().push(node),
            final(self).current() == old(self).current(),
            final(self).inputs() == old(self).inputs(),
            final(self).gates() == old(self).gates(),
            final(self).stack_size() == old(self).stack_size(),
    {
        self.outputs.push(node);
    }

    /// Adds a gate to the circuit.
    ///
    /// This method receives a function for constructing a gate. The input
    /// argument, [`Next`], hands out the output nodes of this gate. A gate with
    /// no input or no output is refused.
    pub fn add_gate<F>(&mut self, f: F) -> (r: Result<&T, CircuitBuilderError>)
        where
            F: FnOnce(&mut Next) -> T,
        requires
            forall|n: &mut Next| n.current() == old(self).current() ==> call_requires(f, (n,)),
            forall|n: &mut Next, g: T|
                call_ensures(f, (n,), g) ==> old(self).stack_size() + g.outputs().len()
                    <= usize::MAX,
        ensures
            final(self).inputs() == old(self).inputs(),
            final(self).outputs() == old(self).outputs(),
            exists|n: &mut Next, g: T|
                #![trigger call_ensures(f, (n,), g)]
                {
                    &&& call_ensures(f, (n,), g)
                    &&& n.current() == old(self).current()
                    &&& final(n).current() == final(self).current()
                    &&& (r is Err <==> (g.inputs().len() == 0 || g.outputs().len() == 0))
                    &&& match r {
                        Ok(x) => {
                            &&& *x == g
                            &&& final(self).gates() == old(self).gates().push(g)
                            &&& final(self).stack_size() == old(self).stack_size() + g.outputs().len()
                        },
                        Err(e) => {
                            &&& e == CircuitBuilderError::DisconnectedGate
                            &&& final(self).gates() == old(self).gates()
                            &&& final(self).stack_size() == old(self).stack_size()
                        },
                    }
                },
    {
        let mut next = Next(self.current_node, PhantomData);
        assert(next.current() == old(self).current());
        let gate = f(&mut next);
        self.current_node = next.0;
        let output_count = gate.get_outputs().len();

        if output_count == 0 || gate.get_inputs().len() == 0 {
            return Err(CircuitBuilderError::DisconnectedGate);
        }

        self.stack_size = self.stack_size + output_count;

        self.gates.push(gate);
        let last = self.gates.len() - 1;
        Ok(&self.gates[last])
    }

    /// Builds the circuit.
    ///
    /// Refuses a builder without gates, one where a gate refers to a node
    /// beyond those handed out or to one not available to it (the gates must
    /// be topologically sorted, so that they form a directed acyclic graph),
    /// and one where an output feeds a gate.
    pub fn build(self) -> (r: Result<Circuit<T>, CircuitBuilderError>)
        ensures
            self.gates().len() == 0 ==> r == Err::<Circuit<T>, _>(
                CircuitBuilderError::EmptyCircuit,
            ),
            self.gates().len() > 0 && some_node_out_of_index(self.gates(), self.stack_size())
                ==> r == Err::<Circuit<T>, _>(CircuitBuilderError::NodeOutOfIndex),
            self.gates().len() > 0 && !some_node_out_of_index(self.gates(), self.stack_size())
                && !topologically_sorted(self.inputs(), self.gates()) ==> r == Err::<Circuit<T>, _>(
                CircuitBuilderError::NodeOutOfIndex,
            ),
            self.gates().len() > 0 && !some_node_out_of_index(self.gates(), self.stack_size())
                && topologically_sorted(self.inputs(), self.gates())
                && some_output_feeds_gate(self.gates(), self.outputs()) ==> r == Err::<
                Circuit<T>,
                _,
            >(CircuitBuilderError::OutputValidationFailed),
            self.gates().len() > 0 && !some_node_out_of_index(self.gates(), self.stack_size())
                && topologically_sorted(self.inputs(), self.gates())
                && !some_output_feeds_gate(self.gates(), self.outputs()) ==> (r matches Ok(c)
                && c.input_count_spec() == self.inputs().len() && c.output_count_spec()
                == self.outputs().len() && c.gates_spec() == self.gates()),
    {
        if self.gates.len() == 0 {
            return Err(CircuitBuilderError::EmptyCircuit);
        }
        let mut i: usize = 0;
        while i < self.gates.len()
            invariant
                0 <= i <= self.gates@.len(),
                forall|a: int, j: int|
                    0 <= a < i ==> (0 <= j < self.gates@[a].inputs().len()
                        ==> self.gates@[a].inputs()[j].index() < self.stack_size) && (0 <= j
                        < self.gates@[a].outputs().len() ==> self.gates@[a].outputs()[j].index()
                        < self.stack_size),
            decreases self.gates@.len() - i,
        {
            let ins = self.gates[i].get_inputs();
            if !all_below(ins, self.stack_size) {
                return Err(CircuitBuilderError::NodeOutOfIndex);
            }
            let outs = self.gates[i].get_outputs();
            if !all_below(outs, self.stack_size) {
                return Err(CircuitBuilderError::NodeOutOfIndex);
            }
            i = i + 1;
        }
        let ghost stack = self.stack_size as nat;
        assert(!some_node_out_of_index(self.gates@, stack));
        let mut i: usize = 0;
        while i < self.gates.len()
            invariant
                0 <= i <= self.gates@.len(),
                forall|a: int, j: int|
                    0 <= a < i && 0 <= j < self.gates@[a].inputs().len() ==> available_before(
                        self.inputs@,
                        self.gates@,
                        a,
                        #[trigger] self.gates@[a].inputs()[j],
                    ),
            decreases self.gates@.len() - i,
        {
            let ins = self.gates[i].get_inputs();
            let mut j: usize = 0;
            while j < ins.len()
                invariant
                    0 <= i < self.gates@.len(),
                    ins@ == self.gates@[i as int].inputs(),
                    0 <= j <= ins@.len(),
                    forall|jj: int| 0 <= jj < j ==> available_before(
                        self.inputs@,
                        self.gates@,
                        i as int,
                        #[trigger] ins@[jj],
                    ),
                decreases ins@.len() - j,
            {
                if !available(&self.inputs, &self.gates, i, ins[j]) {
                    proof {
                        assert(self.gates@[i as int].inputs()[j as int] == ins@[j as int]);
                    }
                    return Err(CircuitBuilderError::NodeOutOfIndex);
                }
                j = j + 1;
            }
            i = i + 1;
        }
        assert(topologically_sorted(self.inputs@, self.gates@));
        let mut k: usize = 0;
        while k < self.outputs.len()
            invariant
                0 <= k <= self.outputs@.len(),
                stack == self.stack_size,
                !some_node_out_of_index(self.gates@, stack),
                topologically_sorted(self.inputs@, self.gates@),
                forall|kk: int, a: int, j: int|
                    0 <= kk < k && 0 <= a < self.gates@.len() && 0 <= j
                        < self.gates@[a].inputs().len() ==> self.gates@[a].inputs()[j]
                        != self.outputs@[kk],
            decreases self.outputs@.len() - k,
        {
            let mut a: usize = 0;
            while a < self.gates.len()
                invariant
                    0 <= k < self.outputs@.len(),
                    0 <= a <= self.gates@.len(),
                    stack == self.stack_size,
                    !some_node_out_of_index(self.gates@, stack),
                    topologically_sorted(self.inputs@, self.gates@),
                    forall|kk: int, a2: int, j: int|
                        0 <= kk < k && 0 <= a2 < self.gates@.len() && 0 <= j
                            < self.gates@[a2].inputs().len() ==> self.gates@[a2].inputs()[j]
                            != self.outputs@[kk],
                    forall|a2: int, j: int|
                        0 <= a2 < a && 0 <= j < self.gates@[a2].inputs().len()
                            ==> self.gates@[a2].inputs()[j] != self.outputs@[k as int],
                decreases self.gates@.len() - a,
            {
                if contains_node(self.gates[a].get_inputs(), self.outputs[k]) {
                    return Err(CircuitBuilderError::OutputValidationFailed);
                }
                a = a + 1;
            }
            k = k + 1;
        }
        Ok(Circuit::new(self.inputs.len(), self.outputs.len(), self.gates))
    }
}

/// A circuit constructed from a collection of gates.
///
/// - Each node in the circuit is an indexed point within an external array.
/// - Each gate acts as a unit of logic that connects these nodes.
#[derive(Debug)]
pub struct Circuit<T> {
    input_count: usize,
    output_count: usize,
    gates: Vec<T>,
}

impl<T> Circuit<T> {
    /// The number of inputs.
    pub closed spec fn input_count_spec(self) -> nat {
        self.input_count as nat
    }

    /// The number of outputs.
    pub closed spec fn output_count_spec(self) -> nat {
        self.output_count as nat
    }

    /// The gates.
    pub closed spec fn gates_spec(self) -> Seq<T> {
        self.gates@
    }

    fn new(input_count: usize, output_count: usize, gates: Vec<T>) -> (r: Self)
        ensures
            r.input_count_spec() == input_count,
            r.output_count_spec() == output_count,
            r.gates_spec() == gates@,
    {
        Self { input_count, output_count, gates }
    }

    /// Returns the number of inputs.
    pub fn input_count(&self) -> (r: usize)
        ensures
            r == self.input_count_spec(),
    {
        self.input_count
    }

    /// Returns the number of outputs.
    pub fn output_count(&self) -> (r: usize)
        ensures
            r == self.output_count_spec(),
    {
        self.output_count
    }

    /// Returns the gates.
    pub fn gates(&self) -> (r: &[T])
        ensures
            r@ == self.gates_spec(),
    {
        self.gates.as_slice()
    }
}

fn all_below(nodes: &[Node], bound: usize) -> (r: bool)
    ensures
        r == (forall|j: int| 0 <= j < nodes@.len() ==> nodes@[j].index() < bound),
{
    let mut j: usize = 0;
    while j < nodes.len()
        invariant
            0 <= j <= nodes@.len(),
            forall|jj: int| 0 <= jj < j ==> nodes@[jj].index() < bound,
        decreases nodes@.len() - j,
    {
        if nodes[j].id() as usize >= bound {
            return false;
        }
        j = j + 1;
    }
    true
}

/// Whether `x` is available to gate `i`.
fn available<T: Component>(inputs: &Vec<Node>, gates: &Vec<T>, i: usize, x: Node) -> (r: bool)
    requires
        i <= gates@.len(),
    ensures
        r == available_before(inputs@, gates@, i as int, x),
{
    if contains_node(inputs.as_slice(), x) {
        return true;
    }
    let mut a: usize = 0;
    while a < i
        invariant
            a <= i <= gates@.len(),
            !inputs@.contains(x),
            forall|a2: int, m: int|
                0 <= a2 < a && 0 <= m < gates@[a2].outputs().len() ==> #[trigger] gates@[a2].outputs()[m] != x,
        decreases i - a,
    {
        if contains_node(gates[a].get_outputs(), x) {
            return true;
        }
        a = a + 1;
    }
    false
}

fn contains_node(nodes: &[Node], node: Node) -> (r: bool)
    ensures
        r == (exists|j: int| 0 <= j < nodes@.len() && nodes@[j] == node),
{
    let mut j: usize = 0;
    while j < nodes.len()
        invariant
            0 <= j <= nodes@.len(),
            forall|jj: int| 0 <= jj < j ==> nodes@[jj] != node,
        decreases nodes@.len() - j,
    {
        if nodes[j] == node {
            return true;
        }
        j = j + 1;
    }
    false
}

} // verus!
