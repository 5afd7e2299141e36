//! Garbling and evaluating whole circuits.
//!
//! The generator holds, for every feed of a circuit, the label of the value
//! 0 (the label of 1 is that one offset by `Delta`); the evaluator holds, for
//! every feed, the label of the value the feed takes. XOR gates are free, an
//! inverter swaps the generator's labels, and AND gates are garbled with half
//! gates: the generator sends one encrypted gate per AND gate, in order, and
//! the `k`-th AND gate uses the tweaks `2k + 1` and `2k + 2`.

use vstd::prelude::*;

use super::encoding::{pointer, Delta, Label};
use super::hash::{gates_digest, GateHasher};
use super::half_gate::{
    eval_spec, evaluate_and_gate, garble_and_gate, garble_spec, EncryptedGate,
};
use crate::binary_types::ValueType;
use crate::circuits::binary::Gate;
use crate::circuits::circuit::{count_gates, reprs_below, run, step, Circuit, CircuitError};
use crate::circuits::components::{Feed, Node};
use crate::memory::repr::binary::ValueRepr;

verus! {

/// The block offset of a value: `delta` for 1, nothing for 0.
pub open spec fn offset(b: bool, delta: u128) -> u128 {
    if b {
        delta
    } else {
        0
    }
}

/// The first tweak of the `k`-th AND gate.
pub open spec fn and_tweak(k: nat) -> u128 {
    (2 * k + 1) as u128
}

/// Garbling `gates` from the 0-labels `labels`: the 0-labels after the gates,
/// and the rows of the encrypted AND gates, in order. `h(t, b)` is the hash
/// of block `b` under tweak `t`.
pub open spec fn gen_run(
    labels: Seq<u128>,
    gates: Seq<Gate>,
    delta: u128,
    h: spec_fn(u128, u128) -> u128,
) -> (Seq<u128>, Seq<(u128, u128)>)
    decreases gates.len(),
{
    if gates.len() == 0 {
        (labels, Seq::empty())
    } else {
        let (l, t) = gen_run(labels, gates.drop_last(), delta, h);
        match gates.last() {
            Gate::Xor { x, y, z } => (
                l.update(z.index() as int, l[x.index() as int] ^ l[y.index() as int]),
                t,
            ),
            Gate::Inv { x, z } => (l.update(z.index() as int, l[x.index() as int] ^ delta), t),
            Gate::And { x, y, z } => {
                let j = and_tweak(t.len());
                let k = (j + 1) as u128;
                let x_0 = l[x.index() as int];
                let y_0 = l[y.index() as int];
                let (z_0, t_g, t_e) = garble_spec(
                    x_0,
                    y_0,
                    delta,
                    h(j, x_0),
                    h(k, y_0),
                    h(j, x_0 ^ delta),
                    h(k, y_0 ^ delta),
                );
                (l.update(z.index() as int, z_0), t.push((t_g, t_e)))
            },
        }
    }
}

/// Evaluating `gates` on the active labels `labels` with the encrypted AND
/// gates `tables`: the active labels after the gates, and how many AND gates
/// were met.
pub open spec fn eval_run(
    labels: Seq<u128>,
    gates: Seq<Gate>,
    tables: Seq<(u128, u128)>,
    h: spec_fn(u128, u128) -> u128,
) -> (Seq<u128>, nat)
    decreases gates.len(),
{
    if gates.len() == 0 {
        (labels, 0)
    } else {
        let (l, n) = eval_run(labels, gates.drop_last(), tables, h);
        match gates.last() {
            Gate::Xor { x, y, z } => (
                l.update(z.index() as int, l[x.index() as int] ^ l[y.index() as int]),
                n,
            ),
            Gate::Inv { x, z } => (l.update(z.index() as int, l[x.index() as int]), n),
            Gate::And { x, y, z } => {
                let j = and_tweak(n);
                let k = (j + 1) as u128;
                let x_a = l[x.index() as int];
                let y_b = l[y.index() as int];
                let (t_g, t_e) = tables[n as int];
                (l.update(z.index() as int, eval_spec(x_a, y_b, t_g, t_e, h(j, x_a), h(k, y_b))), n + 1)
            },
        }
    }
}

/// Every node of every gate is below `n`.
pub open spec fn gates_below(gates: Seq<Gate>, n: nat) -> bool {
    forall|g: int| 0 <= g < gates.len() ==> (#[trigger] gates[g]).nodes_below(n)
}

/// The active labels of values `bits` under the 0-labels `labels`.
pub open spec fn active_labels(labels: Seq<u128>, bits: Seq<bool>, delta: u128) -> Seq<u128> {
    Seq::new(labels.len(), |i: int| labels[i] ^ offset(bits[i], delta))
}

/// Garbled circuits compute the circuit: whatever the hash, when the
/// evaluator starts from the labels of the feeds' values and evaluates the
/// generator's encrypted gates, every feed ends with the label of the value
/// the plain evaluation gives it. This holds whenever the offset's pointer
/// bit is set.
pub proof fn lemma_garbling_correct(
    labels: Seq<u128>,
    bits: Seq<bool>,
    gates: Seq<Gate>,
    delta: u128,
    h: spec_fn(u128, u128) -> u128,
)
    requires
        pointer(delta),
        bits.len() == labels.len(),
        gates_below(gates, labels.len()),
    ensures
        ({
            let (gl, tables) = gen_run(labels, gates, delta, h);
            let (el, n) = eval_run(active_labels(labels, bits, delta), gates, tables, h);
            &&& n == tables.len()
            &&& el == active_labels(gl, run(bits, gates), delta)
        }),
{
    let tables = gen_run(labels, gates, delta, h).1;
    assert(tables.subrange(0, tables.len() as int) =~= tables);
    lemma_garbling_prefix(labels, bits, gates, delta, h, tables);
}

/// The garbled evaluation of a prefix of the gates, with tables that extend
/// the ones garbled for that prefix.
proof fn lemma_garbling_prefix(
    labels: Seq<u128>,
    bits: Seq<bool>,
    gates: Seq<Gate>,
    delta: u128,
    h: spec_fn(u128, u128) -> u128,
    tables: Seq<(u128, u128)>,
)
    requires
        pointer(delta),
        bits.len() == labels.len(),
        gates_below(gates, labels.len()),
        gen_run(labels, gates, delta, h).1.len() <= tables.len(),
        tables.subrange(0, gen_run(labels, gates, delta, h).1.len() as int) == gen_run(
            labels,
            gates,
            delta,
            h,
        ).1,
    ensures
        ({
            let (gl, t) = gen_run(labels, gates, delta, h);
            let (el, n) = eval_run(active_labels(labels, bits, delta), gates, tables, h);
            &&& n == t.len()
            &&& gl.len() == labels.len()
            &&& run(bits, gates).len() == labels.len()
            &&& el == active_labels(gl, run(bits, gates), delta)
        }),
    decreases gates.len(),
{
    if gates.len() > 0 {
        let gs = gates.drop_last();
        let g = gates.last();
        let (l, t) = gen_run(labels, gs, delta, h);
        assert(gates_below(gs, labels.len())) by {
            assert forall|i: int| 0 <= i < gs.len() implies (#[trigger] gs[i]).nodes_below(labels.len()) by {
                assert(gs[i] == gates[i]);
            }
        }
        assert(g == gates[gates.len() - 1]);
        assert(g.nodes_below(labels.len()));
        let full = gen_run(labels, gates, delta, h).1;
        // The tables garbled for the prefix are a prefix of the full ones.
        assert(t.len() <= full.len());
        assert(full.subrange(0, t.len() as int) == t) by {
            match g {
                Gate::And { .. } => {
                    assert(full == t.push(full.last()));
                    assert(full.subrange(0, t.len() as int) =~= t);
                },
                _ => {
                    assert(full == t);
                    assert(full.subrange(0, t.len() as int) =~= t);
                },
            }
        }
        assert(tables.subrange(0, t.len() as int) =~= t) by {
            assert forall|i: int| 0 <= i < t.len() implies tables[i] == t[i] by {
                assert(tables.subrange(0, full.len() as int)[i] == full[i]);
                assert(full.subrange(0, t.len() as int)[i] == t[i]);
            }
        }
        lemma_garbling_prefix(labels, bits, gs, delta, h, tables);
        let act = active_labels(labels, bits, delta);
        let (el, n) = eval_run(act, gs, tables, h);
        let regs = run(bits, gs);
        assert(el == active_labels(l, regs, delta));
        match g {
            Gate::Xor { x, y, z } => {
                let (xi, yi, zi) = (x.index() as int, y.index() as int, z.index() as int);
                let v = regs[xi] != regs[yi];
                assert(el[xi] ^ el[yi] == (l[xi] ^ l[yi]) ^ offset(v, delta)) by {
                    lemma_free_xor(l[xi], l[yi], regs[xi], regs[yi], delta);
                }
                assert(eval_run(act, gates, tables, h).0 =~= active_labels(
                    gen_run(labels, gates, delta, h).0,
                    run(bits, gates),
                    delta,
                ));
            },
            Gate::Inv { x, z } => {
                let (xi, zi) = (x.index() as int, z.index() as int);
                assert(el[xi] == (l[xi] ^ delta) ^ offset(!regs[xi], delta)) by {
                    lemma_free_inv(l[xi], regs[xi], delta);
                }
                assert(eval_run(act, gates, tables, h).0 =~= active_labels(
                    gen_run(labels, gates, delta, h).0,
                    run(bits, gates),
                    delta,
                ));
            },
            Gate::And { x, y, z } => {
                let (xi, yi, zi) = (x.index() as int, y.index() as int, z.index() as int);
                let j = and_tweak(n);
                let k = (j + 1) as u128;
                let x_0 = l[xi];
                let y_0 = l[yi];
                let (z_0, t_g, t_e) = garble_spec(
                    x_0,
                    y_0,
                    delta,
                    h(j, x_0),
                    h(k, y_0),
                    h(j, x_0 ^ delta),
                    h(k, y_0 ^ delta),
                );
                assert(full == t.push((t_g, t_e)));
                assert(full[n as int] == (t_g, t_e));
                assert(tables[n as int] == full[n as int]) by {
                    assert(tables.subrange(0, full.len() as int)[n as int] == full[n as int]);
                }
                let a = regs[xi];
                let b = regs[yi];
                lemma_active_label(z_0, a && b, delta);
                crate::garble::half_gate::lemma_half_gate_correct(
                    l[xi],
                    l[yi],
                    delta,
                    j,
                    (j + 1) as u128,
                    h,
                    regs[xi],
                    regs[yi],
                );
                lemma_active_label(l[xi], regs[xi], delta);
                lemma_active_label(l[yi], regs[yi], delta);
                assert(eval_run(act, gates, tables, h).0 =~= active_labels(
                    gen_run(labels, gates, delta, h).0,
                    run(bits, gates),
                    delta,
                ));
            },
        }
    }
}

/// The label of a value is the 0-label, or the 0-label offset by `delta`.
proof fn lemma_active_label(label: u128, b: bool, delta: u128)
    ensures
        label ^ offset(b, delta) == if b { label ^ delta } else { label },
{
    assert(label ^ 0u128 == label) by (bit_vector);
}

/// Free XOR: the XOR of two active labels is the active label of the XOR of
/// the values, under the XOR of the 0-labels.
proof fn lemma_free_xor(x: u128, y: u128, a: bool, b: bool, delta: u128)
    ensures
        (x ^ offset(a, delta)) ^ (y ^ offset(b, delta)) == (x ^ y) ^ offset(a != b, delta),
{
    let oa = offset(a, delta);
    let ob = offset(b, delta);
    let o = offset(a != b, delta);
    assert((x ^ oa) ^ (y ^ ob) == (x ^ y) ^ o) by (bit_vector)
        requires
            oa == (if a { delta } else { 0u128 }),
            ob == (if b { delta } else { 0u128 }),
            o == (if a != b { delta } else { 0u128 }),
    ;
}

/// An inverter keeps the active label, and swaps the 0-label with the
/// 1-label.
proof fn lemma_free_inv(x: u128, a: bool, delta: u128)
    ensures
        x ^ offset(a, delta) == (x ^ delta) ^ offset(!a, delta),
{
    let oa = offset(a, delta);
    let on = offset(!a, delta);
    assert(x ^ oa == (x ^ delta) ^ on) by (bit_vector)
        requires
            oa == (if a { delta } else { 0u128 }),
            on == (if !a { delta } else { 0u128 }),
    ;
}

/// `h` gives the hashes recorded in `log`: `h(t, b) == r` for every entry
/// `(t, b, r)`.
pub open spec fn agrees(h: spec_fn(u128, u128) -> u128, log: Seq<(u128, u128, u128)>) -> bool {
    forall|i: int| 0 <= i < log.len() ==> h(log[i].0, log[i].1) == log[i].2
}

/// A value's encoding: its type and the labels of its bits, in the order of
/// the bits of the value's representation.
#[derive(Debug)]
pub struct EncodedValue {
    ty: ValueType,
    labels: Vec<u128>,
}

impl EncodedValue {
    /// The type of the value.
    pub closed spec fn ty(&self) -> ValueType {
        self.ty
    }

    /// The labels.
    pub closed spec fn label_seq(&self) -> Seq<u128> {
        self.labels@
    }

    /// Creates the encoding of a value of type `ty` from its labels.
    pub fn new(ty: ValueType, labels: Vec<u128>) -> (r: Self)
        ensures
            r.ty() == ty,
            r.label_seq() == labels@,
    {
        EncodedValue { ty, labels }
    }

    /// Returns the type of the value.
    pub fn value_type(&self) -> (r: ValueType)
        ensures
            r == self.ty(),
    {
        self.ty
    }

    /// Returns the labels.
    pub fn labels(&self) -> (r: &[u128])
        ensures
            r@ == self.label_seq(),
    {
        self.labels.as_slice()
    }
}

/// Errors that can occur during garbled circuit generation.
#[derive(Debug, Clone, Copy, PartialEq, Eq, Structural)]
pub enum GeneratorError {
    /// An encoding has another type than its input, or another number of labels.
    TypeError {
        /// The type of the input.
        expected: ValueType,
        /// The type of the encoding.
        actual: ValueType,
    },
    /// The circuit was given the wrong number of inputs.
    CircuitError(CircuitError),
    /// Not all the AND gates have been garbled.
    NotFinished,
}

/// Errors that can occur during garbled circuit evaluation.
#[derive(Debug, Clone, Copy, PartialEq, Eq, Structural)]
pub enum EvaluatorError {
    /// An encoding has another type than its input, or another number of labels.
    TypeError {
        /// The type of the input.
        expected: ValueType,
        /// The type of the encoding.
        actual: ValueType,
    },
    /// The circuit was given the wrong number of inputs.
    CircuitError(CircuitError),
    /// Not all the AND gates have been evaluated.
    NotFinished,
}

/// Output of the generator.
#[derive(Debug)]
pub struct GeneratorOutput {
    /// Full encodings (the 0-labels) of the outputs of the circuit.
    pub outputs: Vec<EncodedValue>,
    /// Digest of the encrypted gates, where hashing was enabled.
    pub hash: Option<[u8; 32]>,
}

/// Output of the evaluator.
#[derive(Debug)]
pub struct EvaluatorOutput {
    /// Active encodings of the outputs of the circuit.
    pub outputs: Vec<EncodedValue>,
    /// Digest of the encrypted gates, where hashing was enabled.
    pub hash: Option<[u8; 32]>,
}

/// The labels that the feeds start with: those of the inputs' encodings,
/// where the inputs are; zero elsewhere.
pub open spec fn start_labels_ok(
    labels: Seq<u128>,
    inputs: Seq<ValueRepr<Node<Feed>>>,
    encodings: Seq<Seq<u128>>,
) -> bool {
    &&& forall|i: int, k: int|
        0 <= i < inputs.len() && 0 <= k < inputs[i].value_ids().len() ==> labels[(
        #[trigger] inputs[i].value_ids()[k]).index() as int] == encodings[i][k]
    &&& forall|f: usize|
        f < labels.len() && !crate::circuits::circuit::used_by(inputs, f) ==> #[trigger] labels[f as int] == 0
}

/// Lays out the inputs' labels over `feed_count` feeds.
fn place_inputs(
    circ: &Circuit,
    inputs: &Vec<EncodedValue>,
) -> (r: Result<Vec<u128>, GeneratorError>)
    ensures
        inputs@.len() != circ.inputs_spec().len() ==> r == Err::<Vec<u128>, GeneratorError>(
            GeneratorError::CircuitError(
                CircuitError::InvalidInputCount(circ.inputs_spec().len() as usize, inputs@.len() as usize),
            ),
        ),
        r is Ok <==> (inputs@.len() == circ.inputs_spec().len() && forall|i: int|
            0 <= i < inputs@.len() ==> (#[trigger] inputs@[i]).ty() == circ.inputs_spec()[i].ty()
                && inputs@[i].label_seq().len() == circ.inputs_spec()[i].value_ids().len()),
        r matches Ok(labels) ==> labels@.len() == circ.feed_count_spec() && start_labels_ok(
            labels@,
            circ.inputs_spec(),
            inputs@.map_values(|e: EncodedValue| e.label_seq()),
        ),
{
    let reprs = circ.inputs();
    let n = reprs.len();
    if inputs.len() != n {
        return Err(GeneratorError::CircuitError(CircuitError::InvalidInputCount(n, inputs.len())));
    }
    let fc = circ.feed_count();
    let mut labels: Vec<u128> = Vec::new();
    let mut c: usize = 0;
    while c < fc
        invariant
            c <= fc,
            labels@ == Seq::new(c as nat, |j: int| 0u128),
        decreases fc - c,
    {
        labels.push(0);
        c = c + 1;
        assert(labels@ =~= Seq::new(c as nat, |j: int| 0u128));
    }
    let ghost encs = inputs@.map_values(|e: EncodedValue| e.label_seq());
    let mut i: usize = 0;
    while i < n
        invariant
            i <= n,
            n == reprs@.len(),
            inputs@.len() == n,
            reprs@ == circ.inputs_spec(),
            encs == inputs@.map_values(|e: EncodedValue| e.label_seq()),
            reprs_below(reprs@, fc as nat),
            crate::circuits::circuit::reprs_disjoint(reprs@),
            labels@.len() == fc,
            forall|j: int|
                0 <= j < i ==> (#[trigger] inputs@[j]).ty() == reprs@[j].ty()
                    && inputs@[j].label_seq().len() == reprs@[j].value_ids().len(),
            forall|j: int, k: int|
                0 <= j < i && 0 <= k < reprs@[j].value_ids().len() ==> labels@[(
                #[trigger] reprs@[j].value_ids()[k]).index() as int] == encs[j][k],
            forall|f: usize|
                f < labels@.len() && !crate::circuits::circuit::used_by(reprs@.subrange(0, i as int), f)
                    ==> #[trigger] labels@[f as int] == 0,
        decreases n - i,
    {
        let expected = reprs[i].value_type();
        let actual = inputs[i].value_type();
        if expected != actual {
            return Err(GeneratorError::TypeError { expected, actual });
        }
        let ids = reprs[i].ids_vec();
        let enc = inputs[i].labels();
        if ids.len() != enc.len() {
            return Err(GeneratorError::TypeError { expected, actual });
        }
        let ghost before = labels@;
        assert(forall|f: usize|
            f < before.len() && !crate::circuits::circuit::used_by(reprs@.subrange(0, i as int), f)
                ==> #[trigger] before[f as int] == 0);
        let mut k: usize = 0;
        while k < ids.len()
            invariant
                k <= ids@.len(),
                i < n,
                n == reprs@.len(),
                ids@ == reprs@[i as int].value_ids(),
                enc@ == inputs@[i as int].label_seq(),
                enc@.len() == ids@.len(),
                encs[i as int] == enc@,
                reprs_below(reprs@, fc as nat),
                crate::circuits::circuit::reprs_disjoint(reprs@),
                labels@.len() == fc,
                forall|kk: int| 0 <= kk < k ==> labels@[(#[trigger] ids@[kk]).index() as int] == enc@[kk],
                forall|f: int| 0 <= f < fc && (forall|kk: int| 0 <= kk < k ==> #[trigger] ids@[kk].index() != f) ==> labels@[f] == before[f],
            decreases ids.len() - k,
        {
            let node = ids[k];
            proof {
                assert(reprs@[i as int].value_ids()[k as int] == node);
                assert(node.index() < fc);
                assert(crate::memory::repr::distinct(reprs@[i as int].value_ids()));
            }
            let ghost prev = labels@;
            vstd::pervasive::VecAdditionalExecFns::set(&mut labels, node.id(), enc[k]);
            proof {
                assert forall|kk: int| 0 <= kk < k + 1 implies labels@[(#[trigger] ids@[kk]).index() as int] == enc@[kk] by {
                    if kk < k {
                        assert(ids@[kk] != ids@[k as int]);
                        Node::<Feed>::lemma_index(ids@[kk].index());
                        if ids@[kk].index() == node.index() {
                            assert(ids@[kk] == Node::<Feed>::with_index(ids@[kk].index()));
                            assert(node == Node::<Feed>::with_index(node.index()));
                        }
                    }
                }
            }
            k = k + 1;
        }
        proof {
            let cur = reprs@[i as int].value_ids();
            assert forall|j: int, kk: int|
                0 <= j < i + 1 && 0 <= kk < reprs@[j].value_ids().len() implies labels@[(
                #[trigger] reprs@[j].value_ids()[kk]).index() as int] == encs[j][kk] by {
                if j < i {
                    let id = reprs@[j].value_ids()[kk];
                    assert(reprs@[j].value_ids().contains(id));
                    assert(!cur.contains(id));
                    assert forall|m: int| 0 <= m < ids@.len() implies #[trigger] ids@[m].index() != id.index() by {
                        Node::<Feed>::lemma_index(id.index());
                        if ids@[m].index() == id.index() {
                            assert(ids@[m] == Node::<Feed>::with_index(ids@[m].index()));
                            assert(id == Node::<Feed>::with_index(id.index()));
                            assert(cur.contains(ids@[m]));
                        }
                    }
                    assert(id.index() < fc);
                }
            }
            assert forall|f: usize|
                f < labels@.len() && !crate::circuits::circuit::used_by(reprs@.subrange(0, i + 1), f)
                    implies #[trigger] labels@[f as int] == 0 by {
                let node_f = Node::<Feed>::with_index(f);
                Node::<Feed>::lemma_index(f);
                assert(!crate::circuits::circuit::used_by(reprs@.subrange(0, i as int), f)) by {
                    if crate::circuits::circuit::used_by(reprs@.subrange(0, i as int), f) {
                        let j = choose|j: int| 0 <= j < i && #[trigger] reprs@.subrange(0, i as int)[j].value_ids().contains(node_f);
                        assert(reprs@.subrange(0, i + 1)[j] == reprs@.subrange(0, i as int)[j]);
                    }
                }
                assert forall|m: int| 0 <= m < ids@.len() implies #[trigger] ids@[m].index() != f by {
                    if ids@[m].index() == f {
                        assert(ids@[m] == Node::<Feed>::with_index(ids@[m].index()));
                        assert(cur.contains(node_f));
                        assert(reprs@.subrange(0, i + 1)[i as int] == reprs@[i as int]);
                    }
                }
                assert(labels@[f as int] == before[f as int]);
                assert(before[f as int] == 0);
            }
        }
        i = i + 1;
    }
    proof {
        assert(reprs@.subrange(0, n as int) =~= reprs@);
    }
    Ok(labels)
}

/// Counting gates over a longer prefix counts at least as many.
proof fn lemma_count_prefix(gates: Seq<Gate>, i: int, j: int, and: bool)
    requires
        0 <= i <= j <= gates.len(),
    ensures
        count_gates(gates.subrange(0, i), and) <= count_gates(gates.subrange(0, j), and),
        count_gates(gates.subrange(0, j), and) <= j,
    decreases j,
{
    if j > 0 {
        let s = gates.subrange(0, j);
        assert(s.drop_last() =~= gates.subrange(0, j - 1));
        if i < j {
            lemma_count_prefix(gates, i, j - 1, and);
        } else {
            lemma_count_prefix(gates, j - 1, j - 1, and);
        }
    } else {
        assert(gates.subrange(0, 0) =~= Seq::<Gate>::empty());
    }
}

/// One more gate of the prefix.
proof fn lemma_prefix_step(gates: Seq<Gate>, pos: int)
    requires
        0 <= pos < gates.len(),
    ensures
        gates.subrange(0, pos + 1).drop_last() == gates.subrange(0, pos),
        gates.subrange(0, pos + 1).last() == gates[pos],
{
    assert(gates.subrange(0, pos + 1).drop_last() =~= gates.subrange(0, pos));
}

/// Garbled circuit generator.
#[derive(Debug, Default)]
pub struct Generator;

/// Garbling a circuit's gates one after the other, the AND gates with hashes
/// supplied from outside.
pub struct EncryptedGateIter<'a> {
    circ: &'a Circuit,
    delta: Delta,
    labels: Vec<u128>,
    pos: usize,
    counter: usize,
    and_count: usize,
    start: Ghost<Seq<u128>>,
    log: Ghost<Seq<(u128, u128, u128)>>,
    tables: Ghost<Seq<(u128, u128)>>,
    hasher: GateHasher,
}

impl Generator {
    /// Starts garbling a circuit with the global offset `delta`, from the
    /// full encodings (the 0-labels) of its inputs.
    pub fn generate<'a>(&mut self, circ: &'a Circuit, delta: Delta, inputs: Vec<EncodedValue>) -> (r:
        Result<EncryptedGateIter<'a>, GeneratorError>)
        ensures
            inputs@.len() != circ.inputs_spec().len() ==> (r matches Err(e) && e == GeneratorError::CircuitError(
                CircuitError::InvalidInputCount(circ.inputs_spec().len() as usize, inputs@.len() as usize),
            )),
            r is Ok <==> (inputs@.len() == circ.inputs_spec().len() && forall|i: int|
                0 <= i < inputs@.len() ==> (#[trigger] inputs@[i]).ty() == circ.inputs_spec()[i].ty()
                    && inputs@[i].label_seq().len() == circ.inputs_spec()[i].value_ids().len()),
            r matches Ok(it) ==> ({
                &&& it.wf()
                &&& it.circuit() == circ
                &&& it.delta_spec() == delta
                &&& it.pos() == 0
                &&& it.log().len() == 0
                &&& it.tables().len() == 0
                &&& it.hash_from() is None
                &&& start_labels_ok(it.start(), circ.inputs_spec(), inputs@.map_values(|e: EncodedValue| e.label_seq()))
            }),
    {
        match place_inputs(circ, &inputs) {
            Ok(labels) => {
                let _ = delta.into_inner();
                let and_count = circ.and_count();
                let gates = circ.gates();
                let it = EncryptedGateIter {
                    circ,
                    delta,
                    labels,
                    pos: 0,
                    counter: 0,
                    and_count,
                    start: Ghost(labels@),
                    log: Ghost(Seq::empty()),
                    tables: Ghost(Seq::empty()),
                    hasher: GateHasher::new(),
                };
                proof {
                    assert(gates@.subrange(0, 0) =~= Seq::<Gate>::empty());
                }
                Ok(it)
            },
            Err(e) => Err(e),
        }
    }
}

impl<'a> EncryptedGateIter<'a> {
    /// The circuit garbled.
    pub closed spec fn circuit(&self) -> &'a Circuit {
        self.circ
    }

    /// The global offset.
    pub closed spec fn delta_spec(&self) -> Delta {
        self.delta
    }

    /// The number of gates garbled so far.
    pub closed spec fn pos(&self) -> nat {
        self.pos as nat
    }

    /// The 0-labels the feeds started with.
    pub closed spec fn start(&self) -> Seq<u128> {
        self.start@
    }

    /// The hashes supplied so far: tweak, block, hash.
    pub closed spec fn log(&self) -> Seq<(u128, u128, u128)> {
        self.log@
    }

    /// The rows of the encrypted gates produced so far.
    pub closed spec fn tables(&self) -> Seq<(u128, u128)> {
        self.tables@
    }

    /// The number of encrypted gates seen before hashing was enabled, if it
    /// was: the gates from there on are hashed.
    pub closed spec fn hash_from(&self) -> Option<nat> {
        self.hasher.from()
    }

    /// The current 0-labels of the feeds.
    pub closed spec fn labels_spec(&self) -> Seq<u128> {
        self.labels@
    }

    /// The garbling so far is that of the first gates, under every hash that
    /// gives the hashes supplied.
    pub closed spec fn wf(&self) -> bool {
        let gates = self.circ.gates_spec();
        let fc = self.circ.feed_count_spec() as nat;
        &&& self.labels@.len() == fc
        &&& self.start@.len() == fc
        &&& gates_below(gates, fc)
        &&& pointer(self.delta.block())
        &&& self.pos <= gates.len()
        &&& self.counter == self.tables@.len()
        &&& self.hasher.tracks(self.tables@)
        &&& self.and_count == count_gates(gates, true)
        &&& count_gates(gates.subrange(0, self.pos as int), true) == self.counter
        &&& forall|h: spec_fn(u128, u128) -> u128|
            #[trigger] agrees(h, self.log@) ==> gen_run(
                self.start@,
                gates.subrange(0, self.pos as int),
                self.delta.block(),
                h,
            ) == (self.labels@, self.tables@)
    }

    /// Garbles the free gates (XOR and inverters) up to the next AND gate, and
    /// returns the blocks to hash for it: `x_0`, `y_0`, `x_0 ^ delta`,
    /// `y_0 ^ delta`, under the tweaks of `pending_tweaks`. Returns `None`
    /// when all the gates are garbled.
    pub fn advance(&mut self) -> (r: Option<[u128; 4]>)
        requires
            old(self).wf(),
        ensures
            final(self).wf(),
            final(self).circuit() == old(self).circuit(),
            final(self).delta_spec() == old(self).delta_spec(),
            final(self).start() == old(self).start(),
            final(self).hash_from() == old(self).hash_from(),
            final(self).log() == old(self).log(),
            final(self).tables() == old(self).tables(),
            final(self).pos() >= old(self).pos(),
            r is None ==> final(self).pos() == final(self).circuit().gates_spec().len(),
            r is None ==> final(self).tables().len() == count_gates(final(self).circuit().gates_spec(), true),
            r is Some ==> final(self).tables().len() < count_gates(final(self).circuit().gates_spec(), true),
            r matches Some(blocks) ==> ({
                let gate = final(self).circuit().gates_spec()[final(self).pos() as int];
                let l = final(self).labels_spec();
                let d = final(self).delta_spec().block();
                &&& final(self).pos() < final(self).circuit().gates_spec().len()
                &&& gate is And
                &&& blocks[0] == l[gate.x_spec().index() as int]
                &&& blocks[1] == l[gate.y_spec()->0.index() as int]
                &&& blocks[2] == l[gate.x_spec().index() as int] ^ d
                &&& blocks[3] == l[gate.y_spec()->0.index() as int] ^ d
            }),
    {
        let gates = self.circ.gates();
        let d = self.delta.into_inner();
        while self.pos < gates.len()
            invariant
                self.wf(),
                gates@ == self.circ.gates_spec(),
                d == self.delta.block(),
                self.circ == old(self).circ,
                self.delta == old(self).delta,
                self.start@ == old(self).start@,
                self.log@ == old(self).log@,
                self.tables@ == old(self).tables@,
                self.pos >= old(self).pos,
                self.hasher.from() == old(self).hasher.from(),
            decreases gates.len() - self.pos,
        {
            let gate = gates[self.pos];
            let ghost pos = self.pos as int;
            let ghost prev = self.labels@;
            proof {
                lemma_prefix_step(gates@, pos);
                assert(gate.nodes_below(self.labels@.len()));
            }
            match gate {
                Gate::Xor { x, y, z } => {
                    let v = self.labels[x.id()] ^ self.labels[y.id()];
                    vstd::pervasive::VecAdditionalExecFns::set(&mut self.labels, z.id(), v);
                },
                Gate::Inv { x, z } => {
                    let v = self.labels[x.id()] ^ d;
                    vstd::pervasive::VecAdditionalExecFns::set(&mut self.labels, z.id(), v);
                },
                Gate::And { x, y, .. } => {
                    let x_0 = self.labels[x.id()];
                    let y_0 = self.labels[y.id()];
                    proof {
                        lemma_count_prefix(gates@, pos + 1, gates@.len() as int, true);
                        assert(gates@.subrange(0, gates@.len() as int) =~= gates@);
                    }
                    return Some([x_0, y_0, x_0 ^ d, y_0 ^ d]);
                },
            }
            self.pos = self.pos + 1;
            proof {
                assert forall|h: spec_fn(u128, u128) -> u128| #[trigger] agrees(h, self.log@) implies gen_run(
                    self.start@,
                    gates@.subrange(0, self.pos as int),
                    self.delta.block(),
                    h,
                ) == (self.labels@, self.tables@) by {
                    assert(gen_run(self.start@, gates@.subrange(0, pos), self.delta.block(), h) == (prev, self.tables@));
                }
            }
        }
        proof {
            assert(gates@.subrange(0, gates@.len() as int) =~= gates@);
        }
        None
    }

    /// The tweaks of the pending AND gate's hashes: the first for the blocks
    /// of its first input, the second for those of its second input.
    pub fn pending_tweaks(&self) -> (r: (u128, u128))
        requires
            self.wf(),
        ensures
            r.0 == and_tweak(self.tables().len()),
            r.1 == and_tweak(self.tables().len()) + 1,
    {
        let j = (self.counter as u128) * 2 + 1;
        (j, j + 1)
    }

    /// Garbles the pending AND gate, given the hashes of the blocks that
    /// `advance` returned, in that order, and returns its encrypted gate.
    pub fn garble_and(&mut self, hashes: [u128; 4]) -> (r: EncryptedGate)
        requires
            old(self).wf(),
            old(self).pos() < old(self).circuit().gates_spec().len(),
            old(self).circuit().gates_spec()[old(self).pos() as int] is And,
        ensures
            final(self).wf(),
            final(self).circuit() == old(self).circuit(),
            final(self).delta_spec() == old(self).delta_spec(),
            final(self).start() == old(self).start(),
            final(self).hash_from() == old(self).hash_from(),
            final(self).pos() == old(self).pos() + 1,
            final(self).tables() == old(self).tables().push((r.row_g(), r.row_e())),
            ({
                let gate = old(self).circuit().gates_spec()[old(self).pos() as int];
                let l = old(self).labels_spec();
                let d = old(self).delta_spec().block();
                let x_0 = l[gate.x_spec().index() as int];
                let y_0 = l[gate.y_spec()->0.index() as int];
                let j = and_tweak(old(self).tables().len());
                let k = (j + 1) as u128;
                final(self).log() == old(self).log() + seq![
                    (j, x_0, hashes[0]),
                    (k, y_0, hashes[1]),
                    (j, x_0 ^ d, hashes[2]),
                    (k, y_0 ^ d, hashes[3]),
                ]
            }),
    {
        let gates = self.circ.gates();
        let gate = gates[self.pos];
        let ghost pos = self.pos as int;
        let ghost prev = self.labels@;
        let ghost old_log = self.log@;
        let ghost old_tables = self.tables@;
        proof {
            lemma_prefix_step(gates@, pos);
            lemma_count_prefix(gates@, pos + 1, gates@.len() as int, true);
            assert(gates@.subrange(0, gates@.len() as int) =~= gates@);
            assert(gate.nodes_below(self.labels@.len()));
        }
        let (x, y, z) = match gate {
            Gate::And { x, y, z } => (x, y, z),
            Gate::Xor { x, y, z } => (x, y, z),
            Gate::Inv { x, z } => (x, x, z),
        };
        let x_0 = self.labels[x.id()];
        let y_0 = self.labels[y.id()];
        let j = (self.counter as u128) * 2 + 1;
        let (z_0, encrypted) = garble_and_gate(&Label::new(x_0), &Label::new(y_0), &self.delta, hashes);
        vstd::pervasive::VecAdditionalExecFns::set(&mut self.labels, z.id(), z_0.to_inner());
        self.counter = self.counter + 1;
        self.pos = self.pos + 1;
        let ghost d = self.delta.block();
        self.hasher.absorb(Ghost(old_tables), (encrypted.get(0), encrypted.get(1)));
        proof {
            self.tables@ = old_tables.push((encrypted.row_g(), encrypted.row_e()));
            self.log@ = old_log + seq![
                (j, x_0, hashes[0]),
                ((j + 1) as u128, y_0, hashes[1]),
                (j, x_0 ^ d, hashes[2]),
                ((j + 1) as u128, y_0 ^ d, hashes[3]),
            ];
            assert forall|h: spec_fn(u128, u128) -> u128| #[trigger] agrees(h, self.log@) implies gen_run(
                self.start@,
                gates@.subrange(0, self.pos as int),
                d,
                h,
            ) == (self.labels@, self.tables@) by {
                assert(agrees(h, old_log)) by {
                    assert forall|i: int| 0 <= i < old_log.len() implies h(old_log[i].0, old_log[i].1) == old_log[i].2 by {
                        assert(self.log@[i] == old_log[i]);
                    }
                }
                let n = old_log.len() as int;
                assert(self.log@[n] == (j, x_0, hashes[0]));
                assert(self.log@[n + 1] == ((j + 1) as u128, y_0, hashes[1]));
                assert(self.log@[n + 2] == (j, x_0 ^ d, hashes[2]));
                assert(self.log@[n + 3] == ((j + 1) as u128, y_0 ^ d, hashes[3]));
                assert(gen_run(self.start@, gates@.subrange(0, pos), d, h) == (prev, old_tables));
            }
        }
        encrypted
    }

    /// Hashes the encrypted gates from here on; the digest comes out with
    /// the outputs.
    pub fn enable_hasher(&mut self)
        requires
            old(self).wf(),
        ensures
            final(self).wf(),
            final(self).circuit() == old(self).circuit(),
            final(self).start() == old(self).start(),
            final(self).pos() == old(self).pos(),
            final(self).log() == old(self).log(),
            final(self).tables() == old(self).tables(),
            final(self).labels_spec() == old(self).labels_spec(),
            final(self).hash_from() == Some(old(self).tables().len()),
            final(self).delta_spec() == old(self).delta_spec(),
    {
        self.hasher.enable(Ghost(self.tables@));
    }

    /// Returns `true` if AND gates remain to be garbled.
    pub fn has_gates(&self) -> (r: bool)
        requires
            self.wf(),
        ensures
            r == (self.tables().len() < count_gates(self.circuit().gates_spec(), true)),
    {
        proof {
            lemma_count_prefix(self.circ.gates_spec(), self.pos as int, self.circ.gates_spec().len() as int, true);
            assert(self.circ.gates_spec().subrange(0, self.circ.gates_spec().len() as int) =~= self.circ.gates_spec());
        }
        self.counter != self.and_count
    }
}

/// The labels that a representation's ids hold.
pub open spec fn output_labels(labels: Seq<u128>, repr: ValueRepr<Node<Feed>>) -> Seq<u128> {
    repr.value_ids().map_values(|n: Node<Feed>| labels[n.index() as int])
}

/// Reads the labels of each output.
fn collect_outputs(circ: &Circuit, labels: &Vec<u128>) -> (r: Vec<EncodedValue>)
    requires
        labels@.len() == circ.feed_count_spec(),
    ensures
        r@.len() == circ.outputs_spec().len(),
        forall|i: int|
            0 <= i < r@.len() ==> (#[trigger] r@[i]).ty() == circ.outputs_spec()[i].ty()
                && r@[i].label_seq() == output_labels(labels@, circ.outputs_spec()[i]),
{
    let outputs = circ.outputs();
    let mut r: Vec<EncodedValue> = Vec::new();
    let mut i: usize = 0;
    while i < outputs.len()
        invariant
            i <= outputs@.len(),
            outputs@ == circ.outputs_spec(),
            reprs_below(outputs@, circ.feed_count_spec() as nat),
            labels@.len() == circ.feed_count_spec(),
            r@.len() == i,
            forall|j: int|
                0 <= j < i ==> (#[trigger] r@[j]).ty() == outputs@[j].ty() && r@[j].label_seq()
                    == output_labels(labels@, outputs@[j]),
        decreases outputs.len() - i,
    {
        let ids = outputs[i].ids_vec();
        let mut ls: Vec<u128> = Vec::new();
        let mut k: usize = 0;
        while k < ids.len()
            invariant
                i < outputs@.len(),
                k <= ids@.len(),
                ids@ == outputs@[i as int].value_ids(),
                reprs_below(outputs@, circ.feed_count_spec() as nat),
                labels@.len() == circ.feed_count_spec(),
                ls@ == ids@.subrange(0, k as int).map_values(|n: Node<Feed>| labels@[n.index() as int]),
            decreases ids.len() - k,
        {
            proof {
                assert(outputs@[i as int].value_ids()[k as int] == ids@[k as int]);
            }
            ls.push(labels[ids[k].id()]);
            proof {
                assert(ls@ =~= ids@.subrange(0, k + 1).map_values(|n: Node<Feed>| labels@[n.index() as int]));
            }
            k = k + 1;
        }
        proof {
            assert(ids@.subrange(0, k as int) =~= ids@);
        }
        r.push(EncodedValue::new(outputs[i].value_type(), ls));
        i = i + 1;
    }
    r
}

/// Once all the AND gates are garbled, none remains after the position.
proof fn lemma_no_and_left(gates: Seq<Gate>, pos: int, q: int)
    requires
        0 <= pos <= q < gates.len(),
        count_gates(gates.subrange(0, pos), true) == count_gates(gates, true),
        count_gates(gates.subrange(0, q), true) == count_gates(gates.subrange(0, pos), true),
    ensures
        !(gates[q] is And),
{
    lemma_prefix_step(gates, q);
    lemma_count_prefix(gates, q + 1, gates.len() as int, true);
    assert(gates.subrange(0, gates.len() as int) =~= gates);
}

impl<'a> EncryptedGateIter<'a> {
    /// Garbles the remaining free gates and returns the full encodings (the
    /// 0-labels) of the outputs. Fails if AND gates remain to be garbled.
    pub fn finish(self) -> (r: Result<GeneratorOutput, GeneratorError>)
        requires
            self.wf(),
        ensures
            r is Err <==> self.tables().len() < count_gates(self.circuit().gates_spec(), true),
            r matches Err(e) ==> e == GeneratorError::NotFinished,
            r matches Ok(out) ==> {
                let outs = out.outputs;
                &&& out.hash is Some <==> self.hash_from() is Some
                &&& out.hash matches Some(h) ==> gates_digest(self.tables(), self.hash_from()) == Some(h@)
                &&& outs@.len() == self.circuit().outputs_spec().len()
                &&& forall|i: int| 0 <= i < outs@.len() ==> (#[trigger] outs@[i]).ty() == self.circuit().outputs_spec()[i].ty()
                &&& forall|h: spec_fn(u128, u128) -> u128|
                    #[trigger] agrees(h, self.log()) ==> forall|i: int|
                        0 <= i < outs@.len() ==> (#[trigger] outs@[i]).label_seq() == output_labels(
                            gen_run(self.start(), self.circuit().gates_spec(), self.delta_spec().block(), h).0,
                            self.circuit().outputs_spec()[i],
                        )
            },
    {
        if self.has_gates() {
            return Err(GeneratorError::NotFinished);
        }
        let mut it = self;
        let ghost pos = it.pos as int;
        match it.advance() {
            Some(_) => {
                proof {
                    let gs = it.circ.gates_spec();
                    lemma_count_prefix(gs, pos, it.pos as int, true);
                    lemma_count_prefix(gs, pos, gs.len() as int, true);
                    assert(gs.subrange(0, gs.len() as int) =~= gs);
                    lemma_no_and_left(gs, pos, it.pos as int);
                }
                return Err(GeneratorError::NotFinished);
            },
            None => {},
        }
        proof {
            assert(it.circ.gates_spec().subrange(0, it.pos as int) =~= it.circ.gates_spec());
        }
        let outputs = collect_outputs(it.circ, &it.labels);
        let hash = it.hasher.digest(Ghost(it.tables@));
        Ok(GeneratorOutput { outputs, hash })
    }
}

/// How many AND gates an evaluation meets: those among the gates.
proof fn lemma_eval_run_count(
    labels: Seq<u128>,
    gates: Seq<Gate>,
    tables: Seq<(u128, u128)>,
    h: spec_fn(u128, u128) -> u128,
)
    ensures
        eval_run(labels, gates, tables, h).1 == count_gates(gates, true),
    decreases gates.len(),
{
    if gates.len() > 0 {
        lemma_eval_run_count(labels, gates.drop_last(), tables, h);
    }
}

/// An evaluation reads only the tables of the AND gates it meets.
proof fn lemma_eval_run_extend(
    labels: Seq<u128>,
    gates: Seq<Gate>,
    tables: Seq<(u128, u128)>,
    more: Seq<(u128, u128)>,
    h: spec_fn(u128, u128) -> u128,
)
    requires
        count_gates(gates, true) <= tables.len(),
        tables.len() <= more.len(),
        more.subrange(0, tables.len() as int) == tables,
    ensures
        eval_run(labels, gates, more, h) == eval_run(labels, gates, tables, h),
    decreases gates.len(),
{
    if gates.len() > 0 {
        let gs = gates.drop_last();
        assert(count_gates(gs, true) <= count_gates(gates, true));
        lemma_eval_run_extend(labels, gs, tables, more, h);
        lemma_eval_run_count(labels, gs, tables, h);
        let n = eval_run(labels, gs, tables, h).1;
        if gates.last() is And {
            assert(n < tables.len());
            assert(more[n as int] == more.subrange(0, tables.len() as int)[n as int]);
        }
    }
}

/// Garbled circuit evaluator.
#[derive(Debug, Default)]
pub struct Evaluator;

/// Evaluating a circuit's gates one after the other, the AND gates with the
/// generator's encrypted gates and with hashes supplied from outside.
pub struct EncryptedGateConsumer<'a> {
    circ: &'a Circuit,
    labels: Vec<u128>,
    pos: usize,
    counter: usize,
    and_count: usize,
    start: Ghost<Seq<u128>>,
    log: Ghost<Seq<(u128, u128, u128)>>,
    tables: Ghost<Seq<(u128, u128)>>,
    hasher: GateHasher,
}

impl Evaluator {
    /// Starts evaluating a circuit from the active encodings (the labels of
    /// the values) of its inputs.
    pub fn evaluate<'a>(&mut self, circ: &'a Circuit, inputs: Vec<EncodedValue>) -> (r: Result<
        EncryptedGateConsumer<'a>,
        EvaluatorError,
    >)
        ensures
            inputs@.len() != circ.inputs_spec().len() ==> (r matches Err(e) && e == EvaluatorError::CircuitError(
                CircuitError::InvalidInputCount(circ.inputs_spec().len() as usize, inputs@.len() as usize),
            )),
            r is Ok <==> (inputs@.len() == circ.inputs_spec().len() && forall|i: int|
                0 <= i < inputs@.len() ==> (#[trigger] inputs@[i]).ty() == circ.inputs_spec()[i].ty()
                    && inputs@[i].label_seq().len() == circ.inputs_spec()[i].value_ids().len()),
            r matches Ok(c) ==> ({
                &&& c.wf()
                &&& c.circuit() == circ
                &&& c.pos() == 0
                &&& c.log().len() == 0
                &&& c.tables().len() == 0
                &&& c.hash_from() is None
                &&& start_labels_ok(c.start(), circ.inputs_spec(), inputs@.map_values(|e: EncodedValue| e.label_seq()))
            }),
    {
        match place_inputs(circ, &inputs) {
            Ok(labels) => {
                let and_count = circ.and_count();
                let gates = circ.gates();
                let c = EncryptedGateConsumer {
                    circ,
                    labels,
                    pos: 0,
                    counter: 0,
                    and_count,
                    start: Ghost(labels@),
                    log: Ghost(Seq::empty()),
                    tables: Ghost(Seq::empty()),
                    hasher: GateHasher::new(),
                };
                proof {
                    assert(gates@.subrange(0, 0) =~= Seq::<Gate>::empty());
                }
                Ok(c)
            },
            Err(GeneratorError::TypeError { expected, actual }) => Err(EvaluatorError::TypeError { expected, actual }),
            Err(GeneratorError::CircuitError(e)) => Err(EvaluatorError::CircuitError(e)),
            Err(GeneratorError::NotFinished) => Err(EvaluatorError::NotFinished),
        }
    }
}

impl<'a> EncryptedGateConsumer<'a> {
    /// The circuit evaluated.
    pub closed spec fn circuit(&self) -> &'a Circuit {
        self.circ
    }

    /// The number of gates evaluated so far.
    pub closed spec fn pos(&self) -> nat {
        self.pos as nat
    }

    /// The active labels the feeds started with.
    pub closed spec fn start(&self) -> Seq<u128> {
        self.start@
    }

    /// The hashes supplied so far: tweak, block, hash.
    pub closed spec fn log(&self) -> Seq<(u128, u128, u128)> {
        self.log@
    }

    /// The rows of the encrypted gates received so far.
    pub closed spec fn tables(&self) -> Seq<(u128, u128)> {
        self.tables@
    }

    /// The number of encrypted gates seen before hashing was enabled, if it
    /// was: the gates from there on are hashed.
    pub closed spec fn hash_from(&self) -> Option<nat> {
        self.hasher.from()
    }

    /// The current active labels of the feeds.
    pub closed spec fn labels_spec(&self) -> Seq<u128> {
        self.labels@
    }

    /// The evaluation so far is that of the first gates, under every hash
    /// that gives the hashes supplied.
    pub closed spec fn wf(&self) -> bool {
        let gates = self.circ.gates_spec();
        let fc = self.circ.feed_count_spec() as nat;
        &&& self.labels@.len() == fc
        &&& self.start@.len() == fc
        &&& gates_below(gates, fc)
        &&& self.pos <= gates.len()
        &&& self.counter == self.tables@.len()
        &&& self.hasher.tracks(self.tables@)
        &&& self.and_count == count_gates(gates, true)
        &&& count_gates(gates.subrange(0, self.pos as int), true) == self.counter
        &&& forall|h: spec_fn(u128, u128) -> u128|
            #[trigger] agrees(h, self.log@) ==> eval_run(
                self.start@,
                gates.subrange(0, self.pos as int),
                self.tables@,
                h,
            ).0 == self.labels@
    }

    /// Evaluates the free gates (XOR and inverters) up to the next AND gate,
    /// and returns the blocks to hash for it: `x` and `y`, under the tweaks
    /// of `pending_tweaks`. Returns `None` when all the gates are evaluated.
    pub fn advance(&mut self) -> (r: Option<[u128; 2]>)
        requires
            old(self).wf(),
        ensures
            final(self).wf(),
            final(self).circuit() == old(self).circuit(),
            final(self).start() == old(self).start(),
            final(self).hash_from() == old(self).hash_from(),
            final(self).log() == old(self).log(),
            final(self).tables() == old(self).tables(),
            final(self).pos() >= old(self).pos(),
            r is None ==> final(self).pos() == final(self).circuit().gates_spec().len(),
            r is None ==> final(self).tables().len() == count_gates(final(self).circuit().gates_spec(), true),
            r is Some ==> final(self).tables().len() < count_gates(final(self).circuit().gates_spec(), true),
            r matches Some(blocks) ==> ({
                let gate = final(self).circuit().gates_spec()[final(self).pos() as int];
                let l = final(self).labels_spec();
                &&& final(self).pos() < final(self).circuit().gates_spec().len()
                &&& gate is And
                &&& blocks[0] == l[gate.x_spec().index() as int]
                &&& blocks[1] == l[gate.y_spec()->0.index() as int]
            }),
    {
        let gates = self.circ.gates();
        while self.pos < gates.len()
            invariant
                self.wf(),
                gates@ == self.circ.gates_spec(),
                self.circ == old(self).circ,
                self.start@ == old(self).start@,
                self.log@ == old(self).log@,
                self.tables@ == old(self).tables@,
                self.pos >= old(self).pos,
                self.hasher.from() == old(self).hasher.from(),
            decreases gates.len() - self.pos,
        {
            let gate = gates[self.pos];
            let ghost pos = self.pos as int;
            let ghost prev = self.labels@;
            proof {
                lemma_prefix_step(gates@, pos);
                assert(gate.nodes_below(self.labels@.len()));
            }
            match gate {
                Gate::Xor { x, y, z } => {
                    let v = self.labels[x.id()] ^ self.labels[y.id()];
                    vstd::pervasive::VecAdditionalExecFns::set(&mut self.labels, z.id(), v);
                },
                Gate::Inv { x, z } => {
                    let v = self.labels[x.id()];
                    vstd::pervasive::VecAdditionalExecFns::set(&mut self.labels, z.id(), v);
                },
                Gate::And { x, y, .. } => {
                    proof {
                        lemma_count_prefix(gates@, pos + 1, gates@.len() as int, true);
                        assert(gates@.subrange(0, gates@.len() as int) =~= gates@);
                    }
                    return Some([self.labels[x.id()], self.labels[y.id()]]);
                },
            }
            self.pos = self.pos + 1;
            proof {
                assert forall|h: spec_fn(u128, u128) -> u128| #[trigger] agrees(h, self.log@) implies eval_run(
                    self.start@,
                    gates@.subrange(0, self.pos as int),
                    self.tables@,
                    h,
                ).0 == self.labels@ by {
                    assert(eval_run(self.start@, gates@.subrange(0, pos), self.tables@, h).0 == prev);
                }
            }
        }
        proof {
            assert(gates@.subrange(0, gates@.len() as int) =~= gates@);
        }
        None
    }

    /// The tweaks of the pending AND gate's hashes: the first for the block
    /// of its first input, the second for that of its second input.
    pub fn pending_tweaks(&self) -> (r: (u128, u128))
        requires
            self.wf(),
        ensures
            r.0 == and_tweak(self.tables().len()),
            r.1 == and_tweak(self.tables().len()) + 1,
    {
        let j = (self.counter as u128) * 2 + 1;
        (j, j + 1)
    }

    /// Evaluates the pending AND gate with its encrypted gate, given the
    /// hashes of the blocks that `advance` returned, in that order.
    pub fn evaluate_and(&mut self, encrypted: EncryptedGate, hashes: [u128; 2])
        requires
            old(self).wf(),
            old(self).pos() < old(self).circuit().gates_spec().len(),
            old(self).circuit().gates_spec()[old(self).pos() as int] is And,
        ensures
            final(self).wf(),
            final(self).circuit() == old(self).circuit(),
            final(self).start() == old(self).start(),
            final(self).hash_from() == old(self).hash_from(),
            final(self).pos() == old(self).pos() + 1,
            final(self).tables() == old(self).tables().push((encrypted.row_g(), encrypted.row_e())),
            ({
                let gate = old(self).circuit().gates_spec()[old(self).pos() as int];
                let l = old(self).labels_spec();
                let x = l[gate.x_spec().index() as int];
                let y = l[gate.y_spec()->0.index() as int];
                let j = and_tweak(old(self).tables().len());
                let k = (j + 1) as u128;
                final(self).log() == old(self).log() + seq![(j, x, hashes[0]), (k, y, hashes[1])]
            }),
    {
        let gates = self.circ.gates();
        let gate = gates[self.pos];
        let ghost pos = self.pos as int;
        let ghost prev = self.labels@;
        let ghost old_log = self.log@;
        let ghost old_tables = self.tables@;
        proof {
            lemma_prefix_step(gates@, pos);
            lemma_count_prefix(gates@, pos + 1, gates@.len() as int, true);
            assert(gates@.subrange(0, gates@.len() as int) =~= gates@);
            assert(gate.nodes_below(self.labels@.len()));
        }
        let (x, y, z) = match gate {
            Gate::And { x, y, z } => (x, y, z),
            Gate::Xor { x, y, z } => (x, y, z),
            Gate::Inv { x, z } => (x, x, z),
        };
        let xa = self.labels[x.id()];
        let yb = self.labels[y.id()];
        let j = (self.counter as u128) * 2 + 1;
        let out = evaluate_and_gate(&Label::new(xa), &Label::new(yb), &encrypted, hashes);
        vstd::pervasive::VecAdditionalExecFns::set(&mut self.labels, z.id(), out.to_inner());
        self.counter = self.counter + 1;
        self.pos = self.pos + 1;
        self.hasher.absorb(Ghost(old_tables), (encrypted.get(0), encrypted.get(1)));
        proof {
            self.tables@ = old_tables.push((encrypted.row_g(), encrypted.row_e()));
            self.log@ = old_log + seq![(j, xa, hashes[0]), ((j + 1) as u128, yb, hashes[1])];
            assert forall|h: spec_fn(u128, u128) -> u128| #[trigger] agrees(h, self.log@) implies eval_run(
                self.start@,
                gates@.subrange(0, self.pos as int),
                self.tables@,
                h,
            ).0 == self.labels@ by {
                assert(agrees(h, old_log)) by {
                    assert forall|i: int| 0 <= i < old_log.len() implies h(old_log[i].0, old_log[i].1) == old_log[i].2 by {
                        assert(self.log@[i] == old_log[i]);
                    }
                }
                let n = old_log.len() as int;
                assert(self.log@[n] == (j, xa, hashes[0]));
                assert(self.log@[n + 1] == ((j + 1) as u128, yb, hashes[1]));
                let gs = gates@.subrange(0, pos);
                assert(eval_run(self.start@, gs, old_tables, h).0 == prev);
                assert(self.tables@.subrange(0, old_tables.len() as int) =~= old_tables);
                lemma_eval_run_extend(self.start@, gs, old_tables, self.tables@, h);
                lemma_eval_run_count(self.start@, gs, self.tables@, h);
            }
        }
    }

    /// Hashes the encrypted gates from here on; the digest comes out with
    /// the outputs.
    pub fn enable_hasher(&mut self)
        requires
            old(self).wf(),
        ensures
            final(self).wf(),
            final(self).circuit() == old(self).circuit(),
            final(self).start() == old(self).start(),
            final(self).pos() == old(self).pos(),
            final(self).log() == old(self).log(),
            final(self).tables() == old(self).tables(),
            final(self).labels_spec() == old(self).labels_spec(),
            final(self).hash_from() == Some(old(self).tables().len()),
    {
        self.hasher.enable(Ghost(self.tables@));
    }

    /// Returns `true` if the evaluator wants more encrypted gates.
    pub fn wants_gates(&self) -> (r: bool)
        requires
            self.wf(),
        ensures
            r == (self.tables().len() < count_gates(self.circuit().gates_spec(), true)),
    {
        proof {
            lemma_count_prefix(self.circ.gates_spec(), self.pos as int, self.circ.gates_spec().len() as int, true);
            assert(self.circ.gates_spec().subrange(0, self.circ.gates_spec().len() as int) =~= self.circ.gates_spec());
        }
        self.counter != self.and_count
    }

    /// Evaluates the remaining free gates and returns the active encodings of
    /// the outputs. Fails if AND gates remain to be evaluated.
    pub fn finish(self) -> (r: Result<EvaluatorOutput, EvaluatorError>)
        requires
            self.wf(),
        ensures
            r is Err <==> self.tables().len() < count_gates(self.circuit().gates_spec(), true),
            r matches Err(e) ==> e == EvaluatorError::NotFinished,
            r matches Ok(out) ==> {
                let outs = out.outputs;
                &&& out.hash is Some <==> self.hash_from() is Some
                &&& out.hash matches Some(h) ==> gates_digest(self.tables(), self.hash_from()) == Some(h@)
                &&& outs@.len() == self.circuit().outputs_spec().len()
                &&& forall|i: int| 0 <= i < outs@.len() ==> (#[trigger] outs@[i]).ty() == self.circuit().outputs_spec()[i].ty()
                &&& forall|h: spec_fn(u128, u128) -> u128|
                    #[trigger] agrees(h, self.log()) ==> forall|i: int|
                        0 <= i < outs@.len() ==> (#[trigger] outs@[i]).label_seq() == output_labels(
                            eval_run(self.start(), self.circuit().gates_spec(), self.tables(), h).0,
                            self.circuit().outputs_spec()[i],
                        )
            },
    {
        if self.wants_gates() {
            return Err(EvaluatorError::NotFinished);
        }
        let mut c = self;
        let ghost pos = c.pos as int;
        match c.advance() {
            Some(_) => {
                proof {
                    let gs = c.circ.gates_spec();
                    lemma_count_prefix(gs, pos, c.pos as int, true);
                    lemma_count_prefix(gs, pos, gs.len() as int, true);
                    assert(gs.subrange(0, gs.len() as int) =~= gs);
                    lemma_no_and_left(gs, pos, c.pos as int);
                }
                return Err(EvaluatorError::NotFinished);
            },
            None => {},
        }
        proof {
            assert(c.circ.gates_spec().subrange(0, c.pos as int) =~= c.circ.gates_spec());
        }
        let outputs = collect_outputs(c.circ, &c.labels);
        let hash = c.hasher.digest(Ghost(c.tables@));
        Ok(EvaluatorOutput { outputs, hash })
    }
}

/// The decoding of a full encoding: the pointer bits of its 0-labels.
pub fn decoding(full: &EncodedValue) -> (r: Vec<bool>)
    ensures
        r@ == full.label_seq().map_values(|l: u128| pointer(l)),
{
    let labels = full.labels();
    let mut r: Vec<bool> = Vec::new();
    let mut k: usize = 0;
    while k < labels.len()
        invariant
            k <= labels@.len(),
            labels@ == full.label_seq(),
            r@ == labels@.subrange(0, k as int).map_values(|l: u128| pointer(l)),
        decreases labels.len() - k,
    {
        r.push(labels[k] & 1 == 1);
        proof {
            assert(r@ =~= labels@.subrange(0, k + 1).map_values(|l: u128| pointer(l)));
        }
        k = k + 1;
    }
    proof {
        assert(labels@.subrange(0, k as int) =~= labels@);
    }
    r
}

/// Decodes an active encoding with a decoding: each bit is the pointer bit of
/// its label, flipped where the decoding's bit is set. Returns `None` if the
/// lengths differ.
pub fn decode_bits(active: &EncodedValue, decoding: &[bool]) -> (r: Option<Vec<bool>>)
    ensures
        r is Some <==> active.label_seq().len() == decoding@.len(),
        r matches Some(bits) ==> bits@.len() == decoding@.len() && forall|k: int|
            0 <= k < bits@.len() ==> #[trigger] bits@[k] == (pointer(active.label_seq()[k]) != decoding@[k]),
{
    let labels = active.labels();
    if labels.len() != decoding.len() {
        return None;
    }
    let mut r: Vec<bool> = Vec::new();
    let mut k: usize = 0;
    while k < labels.len()
        invariant
            k <= labels@.len(),
            labels@.len() == decoding@.len(),
            labels@ == active.label_seq(),
            r@.len() == k,
            forall|j: int| 0 <= j < k ==> #[trigger] r@[j] == (pointer(labels@[j]) != decoding@[j]),
        decreases labels.len() - k,
    {
        r.push((labels[k] & 1 == 1) != decoding[k]);
        k = k + 1;
    }
    Some(r)
}

/// Decoding gives the value back: the label of a value, decoded with the
/// pointer bit of the 0-label, is the value.
pub proof fn lemma_decode(zero: u128, b: bool, delta: u128)
    requires
        pointer(delta),
    ensures
        (pointer(zero ^ offset(b, delta)) != pointer(zero)) == b,
{
    let o = offset(b, delta);
    assert((pointer(zero ^ o) != pointer(zero)) == b) by (bit_vector)
        requires
            delta & 1 == 1,
            o == (if b { delta } else { 0u128 }),
    ;
}

} // verus!
