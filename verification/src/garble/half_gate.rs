//! Half-gate garbling of AND gates ("Two Halves Make a Whole", ZRE15), and
//! the garbled circuit's encrypted gates.
//!
//! Garbling an AND gate hashes four labels, and evaluating it hashes two,
//! each under a tweak derived from the id of that AND gate; the hash is a tweakable
//! correlation-robust hash. The functions here take the hashes as arguments
//! and do the rest.

use vstd::prelude::*;

use super::encoding::{pointer, Delta, Label};

verus! {

/// All ones if `b`, else all zeros: selects a block or nothing.
pub open spec fn mask(b: bool) -> u128 {
    if b {
        u128::MAX
    } else {
        0
    }
}

/// The selection mask, computed.
fn select_mask(b: bool) -> (r: u128)
    ensures
        r == mask(b),
{
    if b {
        u128::MAX
    } else {
        0
    }
}

/// Garbling an AND gate whose inputs have 0-labels `x_0` and `y_0`, given the
/// hashes of `x_0`, `x_0 ^ delta` (under the first tweak) and of `y_0`,
/// `y_0 ^ delta` (under the second): the output's 0-label and its two
/// rows.
pub open spec fn garble_spec(
    x_0: u128,
    y_0: u128,
    delta: u128,
    hx_0: u128,
    hy_0: u128,
    hx_1: u128,
    hy_1: u128,
) -> (u128, u128, u128) {
    let p_a = pointer(x_0);
    let p_b = pointer(y_0);
    let t_g = hx_0 ^ hx_1 ^ (mask(p_b) & delta);
    let w_g = hx_0 ^ (mask(p_a) & t_g);
    let t_e = hy_0 ^ hy_1 ^ x_0;
    let w_e = hy_0 ^ (mask(p_b) & (t_e ^ x_0));
    (w_g ^ w_e, t_g, t_e)
}

/// Evaluating an AND gate with rows `t_g`, `t_e` on active labels `x` and
/// `y`, given the hash of `x` (under the first tweak) and of `y` (under the
/// second): the output's active label.
pub open spec fn eval_spec(x: u128, y: u128, t_g: u128, t_e: u128, hx: u128, hy: u128) -> u128 {
    let w_g = hx ^ (t_g & mask(pointer(x)));
    let w_e = hy ^ (mask(pointer(y)) & (t_e ^ x));
    w_g ^ w_e
}

/// Encrypted gate truth table: the two rows of a half-gate garbled AND gate.
#[derive(Debug, Clone, Copy, PartialEq, Eq, Structural)]
pub struct EncryptedGate {
    row_g: u128,
    row_e: u128,
}

impl EncryptedGate {
    /// The first row, of the generator's half gate.
    pub closed spec fn row_g(self) -> u128 {
        self.row_g
    }

    /// The second row, of the evaluator's half gate.
    pub closed spec fn row_e(self) -> u128 {
        self.row_e
    }

    /// Creates an encrypted gate from its two rows.
    pub fn new(inner: [u128; 2]) -> (r: Self)
        ensures
            r.row_g() == inner[0],
            r.row_e() == inner[1],
    {
        EncryptedGate { row_g: inner[0], row_e: inner[1] }
    }

    /// Returns the row at `index`.
    pub fn get(&self, index: usize) -> (r: u128)
        requires
            index < 2,
        ensures
            index == 0 ==> r == self.row_g(),
            index == 1 ==> r == self.row_e(),
    {
        if index == 0 {
            self.row_g
        } else {
            self.row_e
        }
    }
}

impl Default for EncryptedGate {
    fn default() -> (r: Self)
        ensures
            r.row_g() == 0 && r.row_e() == 0,
    {
        EncryptedGate { row_g: 0, row_e: 0 }
    }
}

/// The tweaks under which the hashes of an AND gate's input labels are taken:
/// its id and its successor.
pub fn gate_tweaks(gid: usize) -> (r: (u128, u128))
    requires
        gid < usize::MAX,
    ensures
        r.0 == gid,
        r.1 == gid + 1,
{
    (gid as u128, (gid + 1) as u128)
}

/// The blocks whose hashes garbling an AND gate needs, in order: `x_0`,
/// `y_0`, `x_0 ^ delta`, `y_0 ^ delta`, to be hashed under the first, second,
/// first and second tweak.
pub fn garble_hash_inputs(x_0: &Label, y_0: &Label, delta: &Delta) -> (r: [u128; 4])
    ensures
        r[0] == x_0.block(),
        r[1] == y_0.block(),
        r[2] == x_0.block() ^ delta.block(),
        r[3] == y_0.block() ^ delta.block(),
{
    let d = delta.into_inner();
    [x_0.to_inner(), y_0.to_inner(), x_0.to_inner() ^ d, y_0.to_inner() ^ d]
}

/// Garbles an AND gate with half gates: returns the output's 0-label and the
/// encrypted gate.
///
/// `hashes` holds the hashes of the blocks of `garble_hash_inputs`, in that
/// order.
pub fn garble_and_gate(x_0: &Label, y_0: &Label, delta: &Delta, hashes: [u128; 4]) -> (r: (
    Label,
    EncryptedGate,
))
    ensures
        ({
            let (z_0, t_g, t_e) = garble_spec(
                x_0.block(),
                y_0.block(),
                delta.block(),
                hashes[0],
                hashes[1],
                hashes[2],
                hashes[3],
            );
            &&& r.0.block() == z_0
            &&& r.1.row_g() == t_g
            &&& r.1.row_e() == t_e
        }),
{
    let delta = delta.into_inner();
    let x_0 = x_0.to_inner();
    let y_0 = y_0.to_inner();
    let hx_0 = hashes[0];
    let hy_0 = hashes[1];
    let hx_1 = hashes[2];
    let hy_1 = hashes[3];
    let p_a = x_0 & 1 == 1;
    let p_b = y_0 & 1 == 1;
    // Garbled row of the generator's half gate.
    let t_g = hx_0 ^ hx_1 ^ (select_mask(p_b) & delta);
    let w_g = hx_0 ^ (select_mask(p_a) & t_g);
    // Garbled row of the evaluator's half gate.
    let t_e = hy_0 ^ hy_1 ^ x_0;
    let w_e = hy_0 ^ (select_mask(p_b) & (t_e ^ x_0));
    let z_0 = Label::new(w_g ^ w_e);
    (z_0, EncryptedGate::new([t_g, t_e]))
}

/// The blocks whose hashes evaluating an AND gate needs, in order: `x` and
/// `y`, to be hashed under the first and second tweak.
pub fn evaluate_hash_inputs(x: &Label, y: &Label) -> (r: [u128; 2])
    ensures
        r[0] == x.block(),
        r[1] == y.block(),
{
    [x.to_inner(), y.to_inner()]
}

/// Evaluates a half-gate garbled AND gate on active labels: returns the
/// output's active label.
///
/// `hashes` holds the hashes of the blocks of `evaluate_hash_inputs`, in that
/// order.
pub fn evaluate_and_gate(x: &Label, y: &Label, gate: &EncryptedGate, hashes: [u128; 2]) -> (r: Label)
    ensures
        r.block() == eval_spec(
            x.block(),
            y.block(),
            gate.row_g(),
            gate.row_e(),
            hashes[0],
            hashes[1],
        ),
{
    let x = x.to_inner();
    let y = y.to_inner();
    let s_a = x & 1 == 1;
    let s_b = y & 1 == 1;
    let hx = hashes[0];
    let hy = hashes[1];
    let w_g = hx ^ (gate.get(0) & select_mask(s_a));
    let w_e = hy ^ (select_mask(s_b) & (gate.get(1) ^ x));
    Label::new(w_g ^ w_e)
}

/// Half gates compute AND: for any hash `h` and any input values `a`, `b`,
/// evaluating the garbled gate on the labels of `a` and `b` gives the label of
/// `a && b`, that is the output's 0-label, offset by `delta` when both are set.
/// This holds whenever the offset's pointer bit is set.
pub proof fn lemma_half_gate_correct(
    x_0: u128,
    y_0: u128,
    delta: u128,
    j: u128,
    k: u128,
    h: spec_fn(u128, u128) -> u128,
    a: bool,
    b: bool,
)
    requires
        pointer(delta),
    ensures
        ({
            let x_1 = x_0 ^ delta;
            let y_1 = y_0 ^ delta;
            let (z_0, t_g, t_e) = garble_spec(x_0, y_0, delta, h(j, x_0), h(k, y_0), h(j, x_1), h(k, y_1));
            let x = if a { x_1 } else { x_0 };
            let y = if b { y_1 } else { y_0 };
            eval_spec(x, y, t_g, t_e, h(j, x), h(k, y)) == if a && b { z_0 ^ delta } else { z_0 }
        }),
{
    let x_1 = x_0 ^ delta;
    let y_1 = y_0 ^ delta;
    let hx_0 = h(j, x_0);
    let hx_1 = h(j, x_1);
    let hy_0 = h(k, y_0);
    let hy_1 = h(k, y_1);
    lemma_half_gate_rows(x_0, y_0, delta, hx_0, hy_0, hx_1, hy_1, a, b);
}

/// The arithmetic of half gates, for given hashes.
proof fn lemma_half_gate_rows(
    x_0: u128,
    y_0: u128,
    delta: u128,
    hx_0: u128,
    hy_0: u128,
    hx_1: u128,
    hy_1: u128,
    a: bool,
    b: bool,
)
    requires
        pointer(delta),
    ensures
        ({
            let (z_0, t_g, t_e) = garble_spec(x_0, y_0, delta, hx_0, hy_0, hx_1, hy_1);
            let x = if a { x_0 ^ delta } else { x_0 };
            let y = if b { y_0 ^ delta } else { y_0 };
            let hx = if a { hx_1 } else { hx_0 };
            let hy = if b { hy_1 } else { hy_0 };
            eval_spec(x, y, t_g, t_e, hx, hy) == if a && b { z_0 ^ delta } else { z_0 }
        }),
{
    let ma = mask(pointer(x_0));
    let mb = mask(pointer(y_0));
    let t_g = hx_0 ^ hx_1 ^ (mb & delta);
    let t_e = hy_0 ^ hy_1 ^ x_0;
    let z_0 = (hx_0 ^ (ma & t_g)) ^ (hy_0 ^ (mb & (t_e ^ x_0)));
    assert(garble_spec(x_0, y_0, delta, hx_0, hy_0, hx_1, hy_1) == (z_0, t_g, t_e));
    // The other label of a wire has the other pointer bit, hence the other mask.
    lemma_flip_mask(x_0, delta);
    lemma_flip_mask(y_0, delta);
    let nma = mask(pointer(x_0 ^ delta));
    let nmb = mask(pointer(y_0 ^ delta));
    if a && b {
        let ev = (hx_1 ^ (t_g & nma)) ^ (hy_1 ^ (nmb & (t_e ^ (x_0 ^ delta))));
        assert(ev == z_0 ^ delta) by (bit_vector)
            requires
                nma == !ma,
                nmb == !mb,
                t_g == hx_0 ^ hx_1 ^ (mb & delta),
                t_e == hy_0 ^ hy_1 ^ x_0,
                z_0 == (hx_0 ^ (ma & t_g)) ^ (hy_0 ^ (mb & (t_e ^ x_0))),
                ev == (hx_1 ^ (t_g & nma)) ^ (hy_1 ^ (nmb & (t_e ^ (x_0 ^ delta)))),
        ;
    } else if a {
        let ev = (hx_1 ^ (t_g & nma)) ^ (hy_0 ^ (mb & (t_e ^ (x_0 ^ delta))));
        assert(ev == z_0) by (bit_vector)
            requires
                nma == !ma,
                t_g == hx_0 ^ hx_1 ^ (mb & delta),
                t_e == hy_0 ^ hy_1 ^ x_0,
                z_0 == (hx_0 ^ (ma & t_g)) ^ (hy_0 ^ (mb & (t_e ^ x_0))),
                ev == (hx_1 ^ (t_g & nma)) ^ (hy_0 ^ (mb & (t_e ^ (x_0 ^ delta)))),
        ;
    } else if b {
        let ev = (hx_0 ^ (t_g & ma)) ^ (hy_1 ^ (nmb & (t_e ^ x_0)));
        assert(ev == z_0) by (bit_vector)
            requires
                nmb == !mb,
                t_g == hx_0 ^ hx_1 ^ (mb & delta),
                t_e == hy_0 ^ hy_1 ^ x_0,
                z_0 == (hx_0 ^ (ma & t_g)) ^ (hy_0 ^ (mb & (t_e ^ x_0))),
                ev == (hx_0 ^ (t_g & ma)) ^ (hy_1 ^ (nmb & (t_e ^ x_0))),
        ;
    } else {
        let ev = (hx_0 ^ (t_g & ma)) ^ (hy_0 ^ (mb & (t_e ^ x_0)));
        assert(ev == z_0) by (bit_vector)
            requires
                z_0 == (hx_0 ^ (ma & t_g)) ^ (hy_0 ^ (mb & (t_e ^ x_0))),
                ev == (hx_0 ^ (t_g & ma)) ^ (hy_0 ^ (mb & (t_e ^ x_0))),
        ;
    }
}

/// Offsetting a label by `delta` flips its pointer bit, and so its mask.
proof fn lemma_flip_mask(label: u128, delta: u128)
    requires
        pointer(delta),
    ensures
        mask(pointer(label ^ delta)) == !mask(pointer(label)),
{
    assert(pointer(label ^ delta) == !pointer(label)) by (bit_vector)
        requires
            delta & 1 == 1,
    ;
    assert(!(u128::MAX) == 0u128) by (bit_vector);
    assert(!(0u128) == u128::MAX) by (bit_vector);
}

/// A batch of `N` encrypted gates.
#[derive(Debug)]
pub struct EncryptedGateBatch<const N: usize> {
    gates: [EncryptedGate; N],
}

impl<const N: usize> EncryptedGateBatch<N> {
    /// The gates of the batch.
    pub closed spec fn gates_spec(&self) -> Seq<EncryptedGate> {
        self.gates@
    }

    /// Creates a new batch of encrypted gates.
    pub fn new(batch: [EncryptedGate; N]) -> (r: Self)
        ensures
            r.gates_spec() == batch@,
    {
        EncryptedGateBatch { gates: batch }
    }

    /// Returns the length of the batch.
    pub fn len(&self) -> (r: usize)
        ensures
            r == N,
    {
        N
    }

    /// Returns the inner array.
    pub fn into_array(self) -> (r: [EncryptedGate; N])
        ensures
            r@ == self.gates_spec(),
    {
        self.gates
    }
}

/// A garbled circuit: its encrypted gates, and the commitments to its
/// output encodings if the generator sends them.
#[derive(Debug, Clone)]
pub struct GarbledCircuit<C> {
    /// Encrypted gates of the circuit.
    pub gates: Vec<EncryptedGate>,
    /// Encoding commitments of the circuit outputs.
    pub commitments: Option<Vec<C>>,
}

} // verus!
