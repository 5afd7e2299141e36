//! Binary circuits and their evaluation.

use vstd::prelude::*;

use super::binary::Gate;
use super::components::{Feed, Node, Registers};
use crate::binary_types::{Value, ValueType};
use crate::memory::repr::binary::{lemma_holds_same_bits, lemma_holds_unique, lemma_value_holds_frame, same_value, ValueRepr};
use crate::memory::repr::{all_present, distinct, Repr};
use crate::memory::Memory;

verus! {

/// An error that can occur when performing operations with a circuit.
#[derive(Debug, Clone, Copy, PartialEq, Eq, Structural)]
pub enum CircuitError {
    /// Invalid number of inputs: expected, got.
    InvalidInputCount(usize, usize),
    /// Invalid number of outputs: expected, got.
    InvalidOutputCount(usize, usize),
    /// Invalid input type.
    InvalidInputType {
        /// Index of the input.
        id: usize,
        /// The type of the input.
        expected: ValueType,
        /// The type of the value given.
        actual: ValueType,
    },
    /// Invalid output type.
    InvalidOutputType {
        /// Index of the output.
        id: usize,
        /// The type of the output.
        expected: ValueType,
        /// The type of the value given.
        actual: ValueType,
    },
}

/// The registers after evaluating one gate.
pub open spec fn step(regs: Seq<bool>, gate: Gate) -> Seq<bool> {
    match gate {
        Gate::Xor { x, y, z } => regs.update(
            z.index() as int,
            regs[x.index() as int] != regs[y.index() as int],
        ),
        Gate::And { x, y, z } => regs.update(
            z.index() as int,
            regs[x.index() as int] && regs[y.index() as int],
        ),
        Gate::Inv { x, z } => regs.update(z.index() as int, !regs[x.index() as int]),
    }
}

/// The registers after evaluating the gates in order.
pub open spec fn run(regs: Seq<bool>, gates: Seq<Gate>) -> Seq<bool>
    decreases gates.len(),
{
    if gates.len() == 0 {
        regs
    } else {
        step(run(regs, gates.drop_last()), gates.last())
    }
}

/// Every id of every representation is a node below `bound`.
pub open spec fn reprs_below(reprs: Seq<ValueRepr<Node<Feed>>>, bound: nat) -> bool {
    forall|i: int, k: int|
        0 <= i < reprs.len() && 0 <= k < reprs[i].value_ids().len() ==> (
        #[trigger] reprs[i].value_ids()[k]).index() < bound
}

/// No node is used twice by the representations, within one or across two.
pub open spec fn reprs_disjoint(reprs: Seq<ValueRepr<Node<Feed>>>) -> bool {
    &&& forall|i: int| 0 <= i < reprs.len() ==> distinct(#[trigger] reprs[i].value_ids())
    &&& forall|i: int, j: int, id: Node<Feed>|
        0 <= i < reprs.len() && 0 <= j < reprs.len() && i != j && #[trigger] reprs[i].value_ids().contains(id)
            ==> !#[trigger] reprs[j].value_ids().contains(id)
}

/// Node `k` is used by one of the representations.
pub open spec fn used_by(reprs: Seq<ValueRepr<Node<Feed>>>, k: usize) -> bool {
    exists|i: int| 0 <= i < reprs.len() && #[trigger] reprs[i].value_ids().contains(Node::<Feed>::with_index(k))
}

/// A well formed circuit: its nodes are feeds of the circuit, and no node is
/// set by two inputs.
pub open spec fn well_formed(
    inputs: Seq<ValueRepr<Node<Feed>>>,
    outputs: Seq<ValueRepr<Node<Feed>>>,
    gates: Seq<Gate>,
    feed_count: nat,
) -> bool {
    &&& reprs_below(inputs, feed_count)
    &&& reprs_below(outputs, feed_count)
    &&& forall|g: int| 0 <= g < gates.len() ==> (#[trigger] gates[g]).nodes_below(feed_count)
    &&& reprs_disjoint(inputs)
}

/// A binary circuit.
#[derive(Debug)]
pub struct Circuit {
    inputs: Vec<ValueRepr<Node<Feed>>>,
    outputs: Vec<ValueRepr<Node<Feed>>>,
    gates: Vec<Gate>,
    feed_count: usize,
    and_count: usize,
    xor_count: usize,
}

/// Counts the gates of a type.
pub open spec fn count_gates(gates: Seq<Gate>, and: bool) -> nat
    decreases gates.len(),
{
    if gates.len() == 0 {
        0
    } else {
        count_gates(gates.drop_last(), and) + if (and && gates.last() is And) || (!and
            && gates.last() is Xor) {
            1nat
        } else {
            0nat
        }
    }
}

impl Circuit {
    #[verifier::type_invariant]
    spec fn inv(self) -> bool {
        &&& well_formed(self.inputs@, self.outputs@, self.gates@, self.feed_count as nat)
        &&& self.and_count == count_gates(self.gates@, true)
        &&& self.xor_count == count_gates(self.gates@, false)
    }

    /// The input representations.
    pub closed spec fn inputs_spec(&self) -> Seq<ValueRepr<Node<Feed>>> {
        self.inputs@
    }

    /// The output representations.
    pub closed spec fn outputs_spec(&self) -> Seq<ValueRepr<Node<Feed>>> {
        self.outputs@
    }

    /// The gates, in evaluation order.
    pub closed spec fn gates_spec(&self) -> Seq<Gate> {
        self.gates@
    }

    /// The number of feeds.
    pub closed spec fn feed_count_spec(&self) -> usize {
        self.feed_count
    }

    /// Evaluating the circuit on `values` gives `outs`: the registers start
    /// clear, but for the inputs, which hold the values; the gates run in
    /// order; and the outputs hold `outs`.
    pub open spec fn evaluates_to(&self, values: Seq<Value>, outs: Seq<Value>) -> bool {
        exists|r0: Registers<bool>, r1: Registers<bool>|
            #![trigger r0@, r1@]
            self.evaluates_through(values, outs, r0, r1)
    }

    /// Evaluating the circuit on `values` gives `outs`, with registers `r0`
    /// before the gates run and `r1` after.
    pub open spec fn evaluates_through(
        &self,
        values: Seq<Value>,
        outs: Seq<Value>,
        r0: Registers<bool>,
        r1: Registers<bool>,
    ) -> bool {
        &&& r0@.len() == self.feed_count_spec()
        &&& values.len() == self.inputs_spec().len()
        &&& forall|i: int|
            0 <= i < values.len() ==> #[trigger] Repr::<bool, Registers<bool>>::holds(
                &self.inputs_spec()[i],
                &r0,
                values[i],
            )
        &&& forall|k: usize|
            k < r0@.len() && !used_by(self.inputs_spec(), k) ==> !#[trigger] r0@[k as int]
        &&& r1@ == run(r0@, self.gates_spec())
        &&& outs.len() == self.outputs_spec().len()
        &&& forall|i: int|
            0 <= i < outs.len() ==> #[trigger] Repr::<bool, Registers<bool>>::holds(
                &self.outputs_spec()[i],
                &r1,
                outs[i],
            )
    }

    /// Returns a reference to the inputs of the circuit.
    pub fn inputs(&self) -> (r: &[ValueRepr<Node<Feed>>])
        ensures
            r@ == self.inputs_spec(),
            reprs_below(r@, self.feed_count_spec() as nat),
            reprs_disjoint(r@),
    {
        proof {
            use_type_invariant(self);
        }
        self.inputs.as_slice()
    }

    /// Returns a reference to the outputs of the circuit.
    pub fn outputs(&self) -> (r: &[ValueRepr<Node<Feed>>])
        ensures
            r@ == self.outputs_spec(),
            reprs_below(r@, self.feed_count_spec() as nat),
    {
        proof {
            use_type_invariant(self);
        }
        self.outputs.as_slice()
    }

    /// Returns a reference to the gates of the circuit.
    pub fn gates(&self) -> (r: &[Gate])
        ensures
            r@ == self.gates_spec(),
            forall|g: int| 0 <= g < r@.len() ==> (#[trigger] r@[g]).nodes_below(self.feed_count_spec() as nat),
    {
        proof {
            use_type_invariant(self);
        }
        self.gates.as_slice()
    }

    /// Returns the number of feeds in the circuit.
    pub fn feed_count(&self) -> (r: usize)
        ensures
            r == self.feed_count_spec(),
    {
        self.feed_count
    }

    /// Returns the number of AND gates in the circuit.
    pub fn and_count(&self) -> (r: usize)
        ensures
            r == count_gates(self.gates_spec(), true),
    {
        proof {
            use_type_invariant(self);
        }
        self.and_count
    }

    /// Returns the number of XOR gates in the circuit.
    pub fn xor_count(&self) -> (r: usize)
        ensures
            r == count_gates(self.gates_spec(), false),
    {
        proof {
            use_type_invariant(self);
        }
        self.xor_count
    }
}

impl Circuit {
    /// Evaluates the circuit with the given inputs, returning its outputs.
    ///
    /// Fails if the number of values is not the number of inputs, or if a
    /// value's type is not its input's (the first such input is reported).
    pub fn evaluate(&self, values: &[Value]) -> (r: Result<Vec<Value>, CircuitError>)
        ensures
            values@.len() != self.inputs_spec().len() ==> r == Err::<Vec<Value>, CircuitError>(
                CircuitError::InvalidInputCount(self.inputs_spec().len() as usize, values@.len() as usize),
            ),
            values@.len() == self.inputs_spec().len() ==> (r is Ok <==> forall|i: int|
                0 <= i < values@.len() ==> #[trigger] values@[i].ty() == self.inputs_spec()[i].ty()),
            r matches Err(CircuitError::InvalidInputType { id, expected, actual }) ==> {
                &&& id < values@.len()
                &&& expected == self.inputs_spec()[id as int].ty()
                &&& actual == values@[id as int].ty()
                &&& expected != actual
                &&& forall|j: int| 0 <= j < id ==> #[trigger] values@[j].ty() == self.inputs_spec()[j].ty()
            },
            r matches Err(e) ==> (e is InvalidInputCount || e is InvalidInputType),
            values@.len() == self.inputs_spec().len() && r is Err ==> (r matches Err(e) && e is InvalidInputType),
            r matches Ok(outs) ==> self.evaluates_to(values@, outs@),
    {
        proof {
            use_type_invariant(self);
        }
        let n = self.inputs.len();
        if values.len() != n {
            return Err(CircuitError::InvalidInputCount(n, values.len()));
        }
        let mut regs = Registers::new(self.feed_count);
        let ghost inputs = self.inputs@;
        let mut i: usize = 0;
        while i < n
            invariant
                i <= n,
                n == inputs.len(),
                values@.len() == n,
                inputs == self.inputs@,
                well_formed(self.inputs@, self.outputs@, self.gates@, self.feed_count as nat),
                regs@.len() == self.feed_count,
                forall|j: int| 0 <= j < i ==> #[trigger] values@[j].ty() == inputs[j].ty(),
                forall|j: int|
                    0 <= j < i ==> #[trigger] Repr::<bool, Registers<bool>>::holds(&inputs[j], &regs, values@[j]),
                forall|k: usize|
                    k < regs@.len() && !used_by(inputs.subrange(0, i as int), k) ==> !#[trigger] regs@[k as int],
            decreases n - i,
        {
            let expected = self.inputs[i].value_type();
            let actual = values[i].value_type();
            if expected != actual {
                return Err(CircuitError::InvalidInputType { id: i, expected, actual });
            }
            let value = values[i].clone();
            let ghost before = regs;
            let ghost repr = inputs[i as int];
            proof {
                assert(Repr::<bool, Registers<bool>>::ids(&repr) == repr.value_ids());
                assert forall|k: int| 0 <= k < repr.value_ids().len() implies (#[trigger] regs.slot(repr.value_ids()[k])) is Some by {
                    assert(repr.value_ids()[k].index() < self.feed_count);
                }
                assert(distinct(repr.value_ids()));
                assert(Repr::<bool, Registers<bool>>::fits(&repr, value));
                assert(Repr::<bool, Registers<bool>>::writable(&repr, value));
            }
            self.inputs[i].set(&mut regs, value);
            proof {
                assert forall|k: usize| (#[trigger] regs.slot(Node::<Feed>::with_index(k))) is Some <==> k < self.feed_count by {
                    let node = Node::<Feed>::with_index(k);
                    Node::<Feed>::lemma_index(k);
                    if repr.value_ids().contains(node) {
                        let m = choose|m: int| 0 <= m < repr.value_ids().len() && repr.value_ids()[m] == node;
                        assert(repr.value_ids()[m].index() < self.feed_count);
                        assert(regs.slot(repr.value_ids()[m]) is Some);
                    } else {
                        assert(regs.slot(node) == before.slot(node));
                    }
                }
                crate::circuits::components::lemma_registers_len(&regs, self.feed_count);
                crate::memory::repr::binary::lemma_value_holds_frame(repr, &regs, &regs, value);
                assert(Repr::<bool, Registers<bool>>::holds(&repr, &regs, values@[i as int])) by {
                    match (repr, value, values@[i as int]) {
                        (ValueRepr::Array(r), Value::Array(a), Value::Array(b)) => {
                            assert(b.elems() =~= a.elems());
                        },
                        _ => {},
                    }
                }
                assert forall|j: int| 0 <= j < i + 1 implies #[trigger] Repr::<bool, Registers<bool>>::holds(&inputs[j], &regs, values@[j]) by {
                    if j < i {
                        assert forall|id: Node<Feed>| #[trigger] inputs[j].value_ids().contains(id) implies regs.slot(id) == before.slot(id) by {
                            assert(!repr.value_ids().contains(id));
                        }
                        crate::memory::repr::binary::lemma_value_holds_frame(inputs[j], &before, &regs, values@[j]);
                    }
                }
                assert forall|k: usize| k < regs@.len() && !used_by(inputs.subrange(0, i + 1), k) implies !#[trigger] regs@[k as int] by {
                    let node = Node::<Feed>::with_index(k);
                    Node::<Feed>::lemma_index(k);
                    if repr.value_ids().contains(node) {
                        assert(inputs.subrange(0, i + 1)[i as int] == repr);
                    }
                    assert(!repr.value_ids().contains(node));
                    assert(regs.slot(node) == before.slot(node));
                    if used_by(inputs.subrange(0, i as int), k) {
                        let j = choose|j: int| 0 <= j < i && #[trigger] inputs.subrange(0, i as int)[j].value_ids().contains(node);
                        assert(inputs.subrange(0, i + 1)[j] == inputs.subrange(0, i as int)[j]);
                    }
                }
            }
            i = i + 1;
        }
        let ghost r0 = regs;
        proof {
            assert(inputs.subrange(0, n as int) =~= inputs);
        }
        let mut g: usize = 0;
        while g < self.gates.len()
            invariant
                g <= self.gates@.len(),
                well_formed(self.inputs@, self.outputs@, self.gates@, self.feed_count as nat),
                regs@.len() == self.feed_count,
                regs@ == run(r0@, self.gates@.subrange(0, g as int)),
            decreases self.gates.len() - g,
        {
            let gate = self.gates[g];
            proof {
                assert(gate.nodes_below(self.feed_count as nat));
                let s = self.gates@.subrange(0, g + 1);
                assert(s.drop_last() =~= self.gates@.subrange(0, g as int));
                assert(s.last() == gate);
            }
            match gate {
                Gate::Xor { x, y, z } => {
                    let a = regs.read(x);
                    let b = regs.read(y);
                    regs.write(z, a != b);
                },
                Gate::And { x, y, z } => {
                    let a = regs.read(x);
                    let b = regs.read(y);
                    regs.write(z, a && b);
                },
                Gate::Inv { x, z } => {
                    let a = regs.read(x);
                    regs.write(z, !a);
                },
            }
            g = g + 1;
        }
        let ghost r1 = regs;
        proof {
            assert(self.gates@.subrange(0, g as int) =~= self.gates@);
        }
        let mut outs: Vec<Value> = Vec::new();
        let mut o: usize = 0;
        while o < self.outputs.len()
            invariant
                o <= self.outputs@.len(),
                well_formed(self.inputs@, self.outputs@, self.gates@, self.feed_count as nat),
                regs@.len() == self.feed_count,
                regs == r1,
                outs@.len() == o,
                forall|j: int|
                    0 <= j < o ==> #[trigger] Repr::<bool, Registers<bool>>::holds(&self.outputs@[j], &regs, outs@[j]),
            decreases self.outputs.len() - o,
        {
            let ghost repr = self.outputs@[o as int];
            proof {
                assert(Repr::<bool, Registers<bool>>::ids(&repr) == repr.value_ids());
                assert forall|k: int| 0 <= k < repr.value_ids().len() implies (#[trigger] regs.slot(repr.value_ids()[k])) is Some by {
                    assert(repr.value_ids()[k].index() < self.feed_count);
                }
            }
            match self.outputs[o].get(&regs) {
                Some(v) => {
                    outs.push(v);
                },
                None => {
                    proof {
                        assert(false);
                    }
                },
            }
            o = o + 1;
        }
        proof {
            assert(r0@.len() == self.feed_count_spec());
            assert(r1@ == run(r0@, self.gates_spec()));
        }
        Ok(outs)
    }
}

/// Node index `m` occurs among the ids of the first `i` representations, or
/// among the first `k` ids of representation `i`.
pub open spec fn seen_before(reprs: Seq<ValueRepr<Node<Feed>>>, i: int, k: int, m: usize) -> bool {
    exists|j: int, kk: int|
        #![trigger reprs[j].value_ids()[kk]]
        0 <= j <= i && 0 <= kk < reprs[j].value_ids().len() && (j < i || kk < k)
            && reprs[j].value_ids()[kk].index() == m
}

/// Checks that every id of every representation is a node below `bound`.
fn check_below(reprs: &Vec<ValueRepr<Node<Feed>>>, bound: usize) -> (b: bool)
    ensures
        b == reprs_below(reprs@, bound as nat),
{
    let mut i: usize = 0;
    while i < reprs.len()
        invariant
            i <= reprs@.len(),
            forall|j: int, k: int|
                0 <= j < i && 0 <= k < reprs@[j].value_ids().len() ==> (
                #[trigger] reprs@[j].value_ids()[k]).index() < bound,
        decreases reprs.len() - i,
    {
        let ids = reprs[i].ids_vec();
        let mut k: usize = 0;
        while k < ids.len()
            invariant
                i < reprs@.len(),
                k <= ids@.len(),
                ids@ == reprs@[i as int].value_ids(),
                forall|j: int, kk: int|
                    0 <= j < i && 0 <= kk < reprs@[j].value_ids().len() ==> (
                    #[trigger] reprs@[j].value_ids()[kk]).index() < bound,
                forall|kk: int| 0 <= kk < k ==> (#[trigger] ids@[kk]).index() < bound,
            decreases ids.len() - k,
        {
            if ids[k].id() >= bound {
                return false;
            }
            k = k + 1;
        }
        i = i + 1;
    }
    true
}

/// Adding a representation that repeats no node, and shares none with the
/// ones before, keeps the representations disjoint.
#[verifier::rlimit(40)]
proof fn lemma_disjoint_extend(reprs: Seq<ValueRepr<Node<Feed>>>, i: int)
    requires
        0 <= i < reprs.len(),
        reprs_disjoint(reprs.subrange(0, i)),
        distinct(reprs[i].value_ids()),
        forall|j: int, id: Node<Feed>| 0 <= j < i && #[trigger] reprs[j].value_ids().contains(id) ==> !reprs[i].value_ids().contains(id),
    ensures
        reprs_disjoint(reprs.subrange(0, i + 1)),
{
    let p = reprs.subrange(0, i + 1);
    let q = reprs.subrange(0, i);
    assert forall|j: int| 0 <= j < p.len() implies distinct(#[trigger] p[j].value_ids()) by {
        if j < i {
            assert(p[j] == q[j]);
        }
    }
    assert forall|a: int, b: int, id: Node<Feed>|
        0 <= a < p.len() && 0 <= b < p.len() && a != b && #[trigger] p[a].value_ids().contains(id)
            implies !#[trigger] p[b].value_ids().contains(id) by {
        if a < i && b < i {
            assert(p[a] == q[a]);
            assert(p[b] == q[b]);
            assert(!q[b].value_ids().contains(id));
        } else if a == i {
            assert(p[b] == reprs[b]);
            assert(p[a] == reprs[i]);
            if reprs[b].value_ids().contains(id) {
                assert(!reprs[i].value_ids().contains(id));
            }
        } else {
            assert(p[a] == reprs[a]);
            assert(p[b] == reprs[i]);
            assert(!reprs[i].value_ids().contains(id));
        }
    }
}

/// Having seen every id of representation `i` is having seen all of the
/// first `i + 1` representations.
proof fn lemma_seen_next(reprs: Seq<ValueRepr<Node<Feed>>>, i: int, k: int)
    requires
        0 <= i < reprs.len(),
        k == reprs[i].value_ids().len(),
    ensures
        forall|m: usize| #[trigger] seen_before(reprs, i + 1, 0, m) == seen_before(reprs, i, k, m),
{
    assert forall|m: usize| #[trigger] seen_before(reprs, i + 1, 0, m) == seen_before(reprs, i, k, m) by {
        if seen_before(reprs, i, k, m) {
            let (j, kk) = choose|j: int, kk: int|
                #![trigger reprs[j].value_ids()[kk]]
                0 <= j <= i && 0 <= kk < reprs[j].value_ids().len() && (j < i || kk < k)
                    && reprs[j].value_ids()[kk].index() == m;
            assert(seen_before(reprs, i + 1, 0, m));
        }
        if seen_before(reprs, i + 1, 0, m) {
            let (j, kk) = choose|j: int, kk: int|
                #![trigger reprs[j].value_ids()[kk]]
                0 <= j <= i + 1 && 0 <= kk < reprs[j].value_ids().len() && (j < i + 1 || kk < 0)
                    && reprs[j].value_ids()[kk].index() == m;
            assert(seen_before(reprs, i, k, m));
        }
    }
}

/// Checks that no node is used twice by the representations, given that all
/// their nodes are below `bound`.
fn check_disjoint(reprs: &Vec<ValueRepr<Node<Feed>>>, bound: usize) -> (b: bool)
    requires
        reprs_below(reprs@, bound as nat),
    ensures
        b == reprs_disjoint(reprs@),
{
    let mut seen = Registers::new(bound);
    let mut i: usize = 0;
    while i < reprs.len()
        invariant
            i <= reprs@.len(),
            reprs_below(reprs@, bound as nat),
            seen@.len() == bound,
            forall|m: usize| m < bound ==> (#[trigger] seen@[m as int] <==> seen_before(reprs@, i as int, 0, m)),
            reprs_disjoint(reprs@.subrange(0, i as int)),
        decreases reprs.len() - i,
    {
        let ids = reprs[i].ids_vec();
        let ghost cur = reprs@[i as int].value_ids();
        let mut k: usize = 0;
        while k < ids.len()
            invariant
                i < reprs@.len(),
                k <= ids@.len(),
                ids@ == cur,
                cur == reprs@[i as int].value_ids(),
                reprs_below(reprs@, bound as nat),
                seen@.len() == bound,
                forall|m: usize| m < bound ==> (#[trigger] seen@[m as int] <==> seen_before(reprs@, i as int, k as int, m)),
                reprs_disjoint(reprs@.subrange(0, i as int)),
                distinct(cur.subrange(0, k as int)),
                forall|j: int, id: Node<Feed>| 0 <= j < i && #[trigger] reprs@[j].value_ids().contains(id) ==> !cur.subrange(0, k as int).contains(id),
            decreases ids.len() - k,
        {
            let node = ids[k];
            proof {
                assert(cur[k as int] == reprs@[i as int].value_ids()[k as int]);
                assert(node.index() < bound);
            }
            if seen.read(node) {
                proof {
                    let m = node.index();
                    assert(seen_before(reprs@, i as int, k as int, m));
                    let (j, kk) = choose|j: int, kk: int|
                        #![trigger reprs@[j].value_ids()[kk]]
                        0 <= j <= i && 0 <= kk < reprs@[j].value_ids().len() && (j < i || kk < k)
                            && reprs@[j].value_ids()[kk].index() == m;
                    let other = reprs@[j].value_ids()[kk];
                    Node::<Feed>::lemma_index(m);
                    assert(other == Node::<Feed>::with_index(other.index()));
                    assert(node == Node::<Feed>::with_index(node.index()));
                    assert(other == node);
                    if j == i {
                        assert(cur[kk] == cur[k as int] && kk != k);
                        assert(!distinct(reprs@[i as int].value_ids()));
                    } else {
                        assert(reprs@[j].value_ids().contains(node));
                        assert(reprs@[i as int].value_ids().contains(node));
                    }
                }
                return false;
            }
            let ghost before = seen@;
            seen.write(node, true);
            proof {
                let m0 = node.index();
                assert forall|m: usize| m < bound implies (#[trigger] seen@[m as int] <==> seen_before(reprs@, i as int, k + 1, m)) by {
                    if m == m0 {
                        assert(reprs@[i as int].value_ids()[k as int].index() == m);
                    } else {
                        assert(seen@[m as int] == before[m as int]);
                        if seen_before(reprs@, i as int, k + 1, m) {
                            let (j, kk) = choose|j: int, kk: int|
                                #![trigger reprs@[j].value_ids()[kk]]
                                0 <= j <= i && 0 <= kk < reprs@[j].value_ids().len() && (j < i || kk < k + 1)
                                    && reprs@[j].value_ids()[kk].index() == m;
                            assert(seen_before(reprs@, i as int, k as int, m));
                        }
                    }
                }
                assert(!cur.subrange(0, k as int).contains(node)) by {
                    if cur.subrange(0, k as int).contains(node) {
                        let kk = choose|kk: int| 0 <= kk < k && cur.subrange(0, k as int)[kk] == node;
                        assert(reprs@[i as int].value_ids()[kk].index() == m0);
                        assert(seen_before(reprs@, i as int, k as int, m0));
                    }
                }
                let s = cur.subrange(0, k + 1);
                assert(s =~= cur.subrange(0, k as int).push(node));
                assert(distinct(s)) by {
                    assert forall|a: int, b: int| 0 <= a < s.len() && 0 <= b < s.len() && a != b implies s[a] != s[b] by {
                        if a == k {
                            assert(cur.subrange(0, k as int).contains(s[b]));
                        } else if b == k {
                            assert(cur.subrange(0, k as int).contains(s[a]));
                        } else {
                            assert(s[a] == cur.subrange(0, k as int)[a]);
                            assert(s[b] == cur.subrange(0, k as int)[b]);
                        }
                    }
                }
                assert forall|j: int, id: Node<Feed>| 0 <= j < i && #[trigger] reprs@[j].value_ids().contains(id) implies !s.contains(id) by {
                    if s.contains(id) {
                        if id == node {
                            let kk = choose|kk: int| 0 <= kk < reprs@[j].value_ids().len() && reprs@[j].value_ids()[kk] == id;
                            assert(reprs@[j].value_ids()[kk].index() == m0);
                            assert(seen_before(reprs@, i as int, k as int, m0));
                        } else {
                            let a = choose|a: int| 0 <= a < s.len() && s[a] == id;
                            assert(cur.subrange(0, k as int)[a] == id);
                            assert(cur.subrange(0, k as int).contains(id));
                        }
                    }
                }
            }
            k = k + 1;
        }
        proof {
            assert(cur.subrange(0, k as int) =~= cur);
            lemma_disjoint_extend(reprs@, i as int);
            lemma_seen_next(reprs@, i as int, k as int);
        }
        i = i + 1;
    }
    proof {
        assert(reprs@.subrange(0, i as int) =~= reprs@);
    }
    true
}

impl Circuit {
    /// Creates a circuit from its inputs, outputs, gates and number of feeds.
    /// Returns `None` unless the circuit is well formed: every node is a feed
    /// of the circuit, and no node is set by two inputs.
    pub fn new(
        inputs: Vec<ValueRepr<Node<Feed>>>,
        outputs: Vec<ValueRepr<Node<Feed>>>,
        gates: Vec<Gate>,
        feed_count: usize,
    ) -> (r: Option<Self>)
        ensures
            r is Some <==> well_formed(inputs@, outputs@, gates@, feed_count as nat),
            r matches Some(c) ==> {
                &&& c.inputs_spec() == inputs@
                &&& c.outputs_spec() == outputs@
                &&& c.gates_spec() == gates@
                &&& c.feed_count_spec() == feed_count
            },
    {
        let mut and_count: usize = 0;
        let mut xor_count: usize = 0;
        let mut g: usize = 0;
        while g < gates.len()
            invariant
                g <= gates@.len(),
                and_count == count_gates(gates@.subrange(0, g as int), true),
                xor_count == count_gates(gates@.subrange(0, g as int), false),
                and_count + xor_count <= g,
                forall|j: int| 0 <= j < g ==> (#[trigger] gates@[j]).nodes_below(feed_count as nat),
            decreases gates.len() - g,
        {
            let gate = gates[g];
            let x = gate.x();
            let z = gate.z();
            if x.id() >= feed_count || z.id() >= feed_count {
                return None;
            }
            match gate.y() {
                Some(y) => {
                    if y.id() >= feed_count {
                        return None;
                    }
                },
                None => {},
            }
            proof {
                let s = gates@.subrange(0, g + 1);
                assert(s.drop_last() =~= gates@.subrange(0, g as int));
                assert(s.last() == gate);
            }
            match gate {
                Gate::And { .. } => {
                    and_count = and_count + 1;
                },
                Gate::Xor { .. } => {
                    xor_count = xor_count + 1;
                },
                Gate::Inv { .. } => {},
            }
            g = g + 1;
        }
        proof {
            assert(gates@.subrange(0, g as int) =~= gates@);
        }
        if !check_below(&inputs, feed_count) || !check_below(&outputs, feed_count) {
            return None;
        }
        if !check_disjoint(&inputs, feed_count) {
            return None;
        }
        Some(Circuit { inputs, outputs, gates, feed_count, and_count, xor_count })
    }
}

/// `s` is `r` with the order of its elements reversed, where `r` is an array;
/// a primitive stays as it is.
pub open spec fn reversed_repr(r: ValueRepr<Node<Feed>>, s: ValueRepr<Node<Feed>>) -> bool {
    match r {
        ValueRepr::Array(a) => s matches ValueRepr::Array(b) && b.ty() == a.ty() && b.elem_seq()
            == a.elem_seq().reverse(),
        ValueRepr::Primitive(_) => s == r,
    }
}

/// A representation and its element-reversed form use the same nodes.
proof fn lemma_reversed_repr_ids(r: ValueRepr<Node<Feed>>, s: ValueRepr<Node<Feed>>)
    requires
        reversed_repr(r, s),
    ensures
        forall|id: Node<Feed>| #[trigger] s.value_ids().contains(id) <==> r.value_ids().contains(id),
        distinct(r.value_ids()) ==> distinct(s.value_ids()),
{
    if let ValueRepr::Array(a) = r {
        crate::memory::repr::binary::lemma_reverse_ids(a.elem_seq());
    }
}

/// Representations that use, one by one, the nodes that others use keep
/// those others' bounds and disjointness.
proof fn lemma_same_ids_keep(
    old: Seq<ValueRepr<Node<Feed>>>,
    new: Seq<ValueRepr<Node<Feed>>>,
    perm: spec_fn(int) -> int,
    bound: nat,
)
    requires
        new.len() == old.len(),
        forall|i: int| 0 <= i < new.len() ==> 0 <= #[trigger] perm(i) < old.len(),
        forall|i: int, j: int| 0 <= i < new.len() && 0 <= j < new.len() && i != j ==> #[trigger] perm(i) != #[trigger] perm(j),
        forall|i: int, id: Node<Feed>|
            0 <= i < new.len() ==> (#[trigger] new[i].value_ids().contains(id) <==> old[perm(i)].value_ids().contains(id)),
        forall|i: int| 0 <= i < new.len() && distinct(old[perm(i)].value_ids()) ==> distinct(#[trigger] new[i].value_ids()),
    ensures
        reprs_below(old, bound) ==> reprs_below(new, bound),
        reprs_disjoint(old) ==> reprs_disjoint(new),
{
    if reprs_below(old, bound) {
        assert forall|i: int, k: int| 0 <= i < new.len() && 0 <= k < new[i].value_ids().len() implies (
        #[trigger] new[i].value_ids()[k]).index() < bound by {
            let id = new[i].value_ids()[k];
            assert(new[i].value_ids().contains(id));
            assert(old[perm(i)].value_ids().contains(id));
            let ids = old[perm(i)].value_ids();
            let k2 = choose|k2: int| 0 <= k2 < ids.len() && #[trigger] ids[k2] == id;
            assert(ids[k2].index() < bound);
        }
    }
    if reprs_disjoint(old) {
        assert forall|i: int| 0 <= i < new.len() implies distinct(#[trigger] new[i].value_ids()) by {
            assert(distinct(old[perm(i)].value_ids()));
        }
        assert forall|i: int, j: int, id: Node<Feed>|
            0 <= i < new.len() && 0 <= j < new.len() && i != j && #[trigger] new[i].value_ids().contains(id)
                implies !#[trigger] new[j].value_ids().contains(id) by {
            assert(old[perm(i)].value_ids().contains(id));
            assert(perm(i) != perm(j));
            if new[j].value_ids().contains(id) {
                assert(old[perm(j)].value_ids().contains(id));
            }
        }
    }
}

/// Reverses the order of the elements of the array at `idx`, if there is one.
fn reverse_repr_at(reprs: &mut Vec<ValueRepr<Node<Feed>>>, idx: usize)
    ensures
        final(reprs)@.len() == old(reprs)@.len(),
        forall|i: int| 0 <= i < old(reprs)@.len() && i != idx ==> #[trigger] final(reprs)@[i] == old(reprs)@[i],
        idx < old(reprs)@.len() ==> reversed_repr(old(reprs)@[idx as int], final(reprs)@[idx as int]),
{
    if idx < reprs.len() {
        let x = reprs.remove(idx);
        let y = match x {
            ValueRepr::Array(mut a) => {
                a.reverse();
                ValueRepr::Array(a)
            },
            p => p,
        };
        reprs.insert(idx, y);
    }
}

/// Reverses the order of the representations.
fn reverse_reprs(reprs: Vec<ValueRepr<Node<Feed>>>) -> (r: Vec<ValueRepr<Node<Feed>>>)
    ensures
        r@ == reprs@.reverse(),
{
    let mut rest = reprs;
    let ghost orig = rest@;
    let mut r: Vec<ValueRepr<Node<Feed>>> = Vec::new();
    while rest.len() > 0
        invariant
            rest@ == orig.subrange(0, rest@.len() as int),
            r@.len() + rest@.len() == orig.len(),
            forall|i: int| 0 <= i < r@.len() ==> r@[i] == orig[orig.len() - 1 - i],
        decreases rest.len(),
    {
        let x = rest.pop().unwrap();
        r.push(x);
    }
    assert(r@ =~= orig.reverse());
    r
}

impl Circuit {
    /// Reverses the order of the inputs.
    pub fn reverse_inputs(self) -> (r: Self)
        ensures
            r.inputs_spec() == self.inputs_spec().reverse(),
            r.outputs_spec() == self.outputs_spec(),
            r.gates_spec() == self.gates_spec(),
            r.feed_count_spec() == self.feed_count_spec(),
    {
        proof {
            use_type_invariant(&self);
        }
        let Circuit { inputs, outputs, gates, feed_count, and_count, xor_count } = self;
        let ghost old_inputs = inputs@;
        let inputs = reverse_reprs(inputs);
        proof {
            let n = old_inputs.len() as int;
            lemma_same_ids_keep(old_inputs, inputs@, |i: int| n - 1 - i, feed_count as nat);
        }
        Circuit { inputs, outputs, gates, feed_count, and_count, xor_count }
    }

    /// Reverses the endianness of the input at `idx`: the order of its
    /// elements, where it is an array. Anything else is left as it is.
    pub fn reverse_input(self, idx: usize) -> (r: Self)
        ensures
            r.inputs_spec().len() == self.inputs_spec().len(),
            forall|i: int| 0 <= i < self.inputs_spec().len() && i != idx ==> #[trigger] r.inputs_spec()[i] == self.inputs_spec()[i],
            idx < self.inputs_spec().len() ==> reversed_repr(self.inputs_spec()[idx as int], r.inputs_spec()[idx as int]),
            r.outputs_spec() == self.outputs_spec(),
            r.gates_spec() == self.gates_spec(),
            r.feed_count_spec() == self.feed_count_spec(),
    {
        proof {
            use_type_invariant(&self);
        }
        let Circuit { mut inputs, outputs, gates, feed_count, and_count, xor_count } = self;
        let ghost old_inputs = inputs@;
        reverse_repr_at(&mut inputs, idx);
        proof {
            if idx < old_inputs.len() {
                lemma_reversed_repr_ids(old_inputs[idx as int], inputs@[idx as int]);
            }
            lemma_same_ids_keep(old_inputs, inputs@, |i: int| i, feed_count as nat);
        }
        Circuit { inputs, outputs, gates, feed_count, and_count, xor_count }
    }

    /// Reverses the order of the outputs.
    pub fn reverse_outputs(self) -> (r: Self)
        ensures
            r.outputs_spec() == self.outputs_spec().reverse(),
            r.inputs_spec() == self.inputs_spec(),
            r.gates_spec() == self.gates_spec(),
            r.feed_count_spec() == self.feed_count_spec(),
    {
        proof {
            use_type_invariant(&self);
        }
        let Circuit { inputs, outputs, gates, feed_count, and_count, xor_count } = self;
        let ghost old_outputs = outputs@;
        let outputs = reverse_reprs(outputs);
        proof {
            let n = old_outputs.len() as int;
            lemma_same_ids_keep(old_outputs, outputs@, |i: int| n - 1 - i, feed_count as nat);
        }
        Circuit { inputs, outputs, gates, feed_count, and_count, xor_count }
    }

    /// Reverses the endianness of the output at `idx`: the order of its
    /// elements, where it is an array. Anything else is left as it is.
    pub fn reverse_output(self, idx: usize) -> (r: Self)
        ensures
            r.outputs_spec().len() == self.outputs_spec().len(),
            forall|i: int| 0 <= i < self.outputs_spec().len() && i != idx ==> #[trigger] r.outputs_spec()[i] == self.outputs_spec()[i],
            idx < self.outputs_spec().len() ==> reversed_repr(self.outputs_spec()[idx as int], r.outputs_spec()[idx as int]),
            r.inputs_spec() == self.inputs_spec(),
            r.gates_spec() == self.gates_spec(),
            r.feed_count_spec() == self.feed_count_spec(),
    {
        proof {
            use_type_invariant(&self);
        }
        let Circuit { inputs, mut outputs, gates, feed_count, and_count, xor_count } = self;
        let ghost old_outputs = outputs@;
        reverse_repr_at(&mut outputs, idx);
        proof {
            if idx < old_outputs.len() {
                lemma_reversed_repr_ids(old_outputs[idx as int], outputs@[idx as int]);
            }
            lemma_same_ids_keep(old_outputs, outputs@, |i: int| i, feed_count as nat);
        }
        Circuit { inputs, outputs, gates, feed_count, and_count, xor_count }
    }
}

/// Evaluation is a function of the input values: any two outcomes of
/// evaluating a circuit on the same values hold the same output values.
pub proof fn lemma_evaluation_deterministic(c: Circuit, values: Seq<Value>, o1: Seq<Value>, o2: Seq<Value>)
    requires
        c.evaluates_to(values, o1),
        c.evaluates_to(values, o2),
    ensures
        o1.len() == o2.len(),
        forall|i: int| 0 <= i < o1.len() ==> same_value(#[trigger] o1[i], o2[i]),
{
    let (r0, r1) = choose|r0: Registers<bool>, r1: Registers<bool>|
        #![trigger r0@, r1@]
        c.evaluates_through(values, o1, r0, r1);
    let (s0, s1) = choose|s0: Registers<bool>, s1: Registers<bool>|
        #![trigger s0@, s1@]
        c.evaluates_through(values, o2, s0, s1);
    let inputs = c.inputs_spec();
    assert forall|k: int| 0 <= k < r0@.len() implies r0@[k] == s0@[k] by {
        let ku = k as usize;
        let node = Node::<Feed>::with_index(ku);
        Node::<Feed>::lemma_index(ku);
        if used_by(inputs, ku) {
            let i = choose|i: int| 0 <= i < inputs.len() && #[trigger] inputs[i].value_ids().contains(node);
            assert(Repr::<bool, Registers<bool>>::holds(&inputs[i], &r0, values[i]));
            assert(Repr::<bool, Registers<bool>>::holds(&inputs[i], &s0, values[i]));
            lemma_holds_same_bits(inputs[i], &r0, &s0, values[i]);
            assert(r0.slot(node) == s0.slot(node));
        } else {
            assert(!r0@[ku as int]);
            assert(!s0@[ku as int]);
        }
    }
    assert(r0@ =~= s0@);
    assert(r1@ == s1@);
    assert forall|i: int| 0 <= i < o1.len() implies same_value(#[trigger] o1[i], o2[i]) by {
        let repr = c.outputs_spec()[i];
        assert(Repr::<bool, Registers<bool>>::holds(&repr, &s1, o2[i]));
        assert(Repr::<bool, Registers<bool>>::holds(&repr, &r1, o1[i]));
        lemma_value_holds_frame(repr, &s1, &r1, o2[i]);
        lemma_holds_unique(repr, &r1, o1[i], o2[i]);
    }
}

} // verus!
