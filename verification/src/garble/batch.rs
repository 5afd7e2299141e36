//! Garbling and evaluating a circuit's AND gates in batches.
//!
//! The generator hands out its encrypted gates `N` at a time, and the
//! evaluator takes them `N` at a time. A batch is full but for the last one,
//! which is padded with empty gates. Each AND gate's blocks are hashed by the
//! function given, a hash of a block under a tweak.

use vstd::prelude::*;

use super::encoding::Delta;
use super::garbler::{
    agrees, eval_run, gen_run, output_labels, start_labels_ok, EncodedValue,
    EncryptedGateConsumer, EncryptedGateIter, Evaluator, EvaluatorError, EvaluatorOutput,
    Generator, GeneratorError, GeneratorOutput,
};
use super::half_gate::{EncryptedGate, EncryptedGateBatch};
use super::hash::gates_digest;
use crate::circuits::circuit::{count_gates, Circuit, CircuitError};

verus! {

/// The number of gates a batch of `n` carries when `remaining` are left.
pub open spec fn batch_len(n: nat, remaining: nat) -> nat {
    if remaining < n {
        remaining
    } else {
        n
    }
}

/// The rows of the first `m` gates of `gates`.
pub open spec fn batch_rows(gates: Seq<EncryptedGate>, m: nat) -> Seq<(u128, u128)> {
    Seq::new(m, |i: int| (gates[i].row_g(), gates[i].row_e()))
}

/// Every entry of `log` from `from` on is a hash that `hash` gave: the hash
/// of its block under its tweak.
pub open spec fn hashed_by<H: Fn(u128, u128) -> u128>(
    hash: H,
    log: Seq<(u128, u128, u128)>,
    from: int,
) -> bool {
    forall|i: int|
        #![trigger log[i]]
        from <= i < log.len() ==> call_ensures(hash, (log[i].0, log[i].1), log[i].2)
}

/// Garbling a circuit's gates, handing out the encrypted gates in batches of
/// `N`.
pub struct EncryptedGateBatchIter<'a, const N: usize> {
    inner: EncryptedGateIter<'a>,
}

impl Generator {
    /// Starts garbling a circuit as `generate` does, to hand out its
    /// encrypted gates in batches.
    pub fn generate_batched<'a, const N: usize>(
        &mut self,
        circ: &'a Circuit,
        delta: Delta,
        inputs: Vec<EncodedValue>,
    ) -> (r: Result<EncryptedGateBatchIter<'a, N>, GeneratorError>)
        ensures
            inputs@.len() != circ.inputs_spec().len() ==> (r matches Err(e) && e == GeneratorError::CircuitError(
                CircuitError::InvalidInputCount(circ.inputs_spec().len() as usize, inputs@.len() as usize),
            )),
            r is Ok <==> (inputs@.len() == circ.inputs_spec().len() && forall|i: int|
                0 <= i < inputs@.len() ==> (#[trigger] inputs@[i]).ty() == circ.inputs_spec()[i].ty()
                    && inputs@[i].label_seq().len() == circ.inputs_spec()[i].value_ids().len()),
            r matches Ok(b) ==> ({
                let it = b.garbler();
                &&& it.wf()
                &&& it.circuit() == circ
                &&& it.delta_spec() == delta
                &&& it.pos() == 0
                &&& it.log().len() == 0
                &&& it.tables().len() == 0
                &&& it.hash_from() is None
                &&& start_labels_ok(it.start(), circ.inputs_spec(), inputs@.map_values(|e: EncodedValue| e.label_seq()))
            }),
    {
        match self.generate(circ, delta, inputs) {
            Ok(inner) => Ok(EncryptedGateBatchIter { inner }),
            Err(e) => Err(e),
        }
    }
}

impl<'a, const N: usize> EncryptedGateBatchIter<'a, N> {
    /// The garbling underway.
    pub closed spec fn garbler(&self) -> EncryptedGateIter<'a> {
        self.inner
    }

    /// Hashes the encrypted gates from here on.
    pub fn enable_hasher(&mut self)
        requires
            old(self).garbler().wf(),
        ensures
            final(self).garbler().wf(),
            final(self).garbler().circuit() == old(self).garbler().circuit(),
            final(self).garbler().start() == old(self).garbler().start(),
            final(self).garbler().log() == old(self).garbler().log(),
            final(self).garbler().tables() == old(self).garbler().tables(),
            final(self).garbler().hash_from() == Some(old(self).garbler().tables().len()),
            final(self).garbler().delta_spec() == old(self).garbler().delta_spec(),
    {
        self.inner.enable_hasher()
    }

    /// Returns `true` if AND gates remain to be garbled.
    pub fn has_gates(&self) -> (r: bool)
        requires
            self.garbler().wf(),
        ensures
            r == (self.garbler().tables().len() < count_gates(self.garbler().circuit().gates_spec(), true)),
    {
        self.inner.has_gates()
    }

    /// Garbles the next batch of AND gates, with the free gates before them,
    /// and returns their encrypted gates; `None` if no AND gate is left.
    pub fn next_batch<H>(&mut self, hash: &H) -> (r: Option<EncryptedGateBatch<N>>)
        where
            H: Fn(u128, u128) -> u128,
        requires
            N > 0,
            old(self).garbler().wf(),
            forall|t: u128, b: u128| call_requires(*hash, (t, b)),
        ensures
            final(self).garbler().wf(),
            final(self).garbler().circuit() == old(self).garbler().circuit(),
            final(self).garbler().delta_spec() == old(self).garbler().delta_spec(),
            final(self).garbler().start() == old(self).garbler().start(),
            final(self).garbler().hash_from() == old(self).garbler().hash_from(),
            old(self).garbler().log().len() <= final(self).garbler().log().len(),
            final(self).garbler().log().subrange(0, old(self).garbler().log().len() as int)
                == old(self).garbler().log(),
            hashed_by(*hash, final(self).garbler().log(), old(self).garbler().log().len() as int),
            r is None <==> old(self).garbler().tables().len() >= count_gates(
                old(self).garbler().circuit().gates_spec(),
                true,
            ),
            r is None ==> final(self).garbler().tables() == old(self).garbler().tables(),
            r matches Some(b) ==> ({
                let count = count_gates(old(self).garbler().circuit().gates_spec(), true);
                let m = batch_len(N as nat, (count - old(self).garbler().tables().len()) as nat);
                &&& final(self).garbler().tables() == old(self).garbler().tables() + batch_rows(
                    b.gates_spec(),
                    m,
                )
                &&& forall|i: int|
                    m <= i < N ==> (#[trigger] b.gates_spec()[i]).row_g() == 0
                        && b.gates_spec()[i].row_e() == 0
            }),
    {
        if !self.inner.has_gates() {
            return None;
        }
        let ghost count = count_gates(self.inner.circuit().gates_spec(), true);
        let ghost old_tables = self.inner.tables();
        let ghost old_log = self.inner.log();
        let empty = EncryptedGate::default();
        let mut batch: [EncryptedGate; N] = [empty; N];
        let mut i: usize = 0;
        let mut done = false;
        while i < N && !done
            invariant
                i <= N,
                self.inner.wf(),
                self.inner.circuit() == old(self).inner.circuit(),
                self.inner.delta_spec() == old(self).inner.delta_spec(),
                self.inner.start() == old(self).inner.start(),
                self.inner.hash_from() == old(self).inner.hash_from(),
                count == count_gates(self.inner.circuit().gates_spec(), true),
                old_tables == old(self).inner.tables(),
                old_log == old(self).inner.log(),
                old_tables.len() < count,
                old_log.len() <= self.inner.log().len(),
                self.inner.log().subrange(0, old_log.len() as int) == old_log,
                hashed_by(*hash, self.inner.log(), old_log.len() as int),
                forall|t: u128, b: u128| call_requires(*hash, (t, b)),
                self.inner.tables() == old_tables + batch_rows(batch@, i as nat),
                self.inner.tables().len() <= count,
                done ==> self.inner.tables().len() == count,
                forall|k: int| i <= k < N ==> (#[trigger] batch@[k]).row_g() == 0 && batch@[k].row_e() == 0,
            decreases N - i + if done { 0int } else { 1int },
        {
            match self.inner.advance() {
                Some(blocks) => {
                    let (j, k) = self.inner.pending_tweaks();
                    let h0 = hash(j, blocks[0]);
                    let h1 = hash(k, blocks[1]);
                    let h2 = hash(j, blocks[2]);
                    let h3 = hash(k, blocks[3]);
                    let ghost prev_log = self.inner.log();
                    let ghost prev_tables = self.inner.tables();
                    let gate = self.inner.garble_and([h0, h1, h2, h3]);
                    batch[i] = gate;
                    proof {
                        let log = self.inner.log();
                        let n = prev_log.len() as int;
                        assert(log.subrange(0, n) =~= prev_log);
                        assert(log.subrange(0, old_log.len() as int) =~= prev_log.subrange(0, old_log.len() as int));
                        assert(log[n] == (j, blocks[0], h0));
                        assert(log[n + 1] == (k, blocks[1], h1));
                        assert(log[n + 2] == (j, blocks[2], h2));
                        assert(log[n + 3] == (k, blocks[3], h3));
                        assert forall|q: int| old_log.len() <= q < log.len() implies call_ensures(
                            *hash,
                            (#[trigger] log[q].0, log[q].1),
                            log[q].2,
                        ) by {
                            if q < n {
                                assert(log[q] == prev_log[q]);
                            }
                        }
                        assert(self.inner.tables() =~= old_tables + batch_rows(batch@, (i + 1) as nat));
                    }
                    i = i + 1;
                },
                None => {
                    done = true;
                },
            }
        }
        Some(EncryptedGateBatch::new(batch))
    }

    /// Garbles the remaining free gates and returns the full encodings of the
    /// outputs, as `EncryptedGateIter::finish` does.
    pub fn finish(self) -> (r: Result<GeneratorOutput, GeneratorError>)
        requires
            self.garbler().wf(),
        ensures
            r is Err <==> self.garbler().tables().len() < count_gates(self.garbler().circuit().gates_spec(), true),
            r matches Err(e) ==> e == GeneratorError::NotFinished,
            r matches Ok(out) ==> {
                let outs = out.outputs;
                &&& out.hash is Some <==> self.garbler().hash_from() is Some
                &&& out.hash matches Some(h) ==> gates_digest(self.garbler().tables(), self.garbler().hash_from()) == Some(h@)
                &&& outs@.len() == self.garbler().circuit().outputs_spec().len()
                &&& forall|i: int| 0 <= i < outs@.len() ==> (#[trigger] outs@[i]).ty() == self.garbler().circuit().outputs_spec()[i].ty()
                &&& forall|h: spec_fn(u128, u128) -> u128|
                    #[trigger] agrees(h, self.garbler().log()) ==> forall|i: int|
                        0 <= i < outs@.len() ==> (#[trigger] outs@[i]).label_seq() == output_labels(
                            gen_run(self.garbler().start(), self.garbler().circuit().gates_spec(), self.garbler().delta_spec().block(), h).0,
                            self.garbler().circuit().outputs_spec()[i],
                        )
            },
    {
        self.inner.finish()
    }
}

/// Evaluating a circuit's gates, taking the encrypted gates in batches of
/// `N`.
pub struct EncryptedGateBatchConsumer<'a, const N: usize> {
    inner: EncryptedGateConsumer<'a>,
}

impl Evaluator {
    /// Starts evaluating a circuit as `evaluate` does, to take its encrypted
    /// gates in batches.
    pub fn evaluate_batched<'a, const N: usize>(
        &mut self,
        circ: &'a Circuit,
        inputs: Vec<EncodedValue>,
    ) -> (r: Result<EncryptedGateBatchConsumer<'a, N>, EvaluatorError>)
        ensures
            inputs@.len() != circ.inputs_spec().len() ==> (r matches Err(e) && e == EvaluatorError::CircuitError(
                CircuitError::InvalidInputCount(circ.inputs_spec().len() as usize, inputs@.len() as usize),
            )),
            r is Ok <==> (inputs@.len() == circ.inputs_spec().len() && forall|i: int|
                0 <= i < inputs@.len() ==> (#[trigger] inputs@[i]).ty() == circ.inputs_spec()[i].ty()
                    && inputs@[i].label_seq().len() == circ.inputs_spec()[i].value_ids().len()),
            r matches Ok(b) ==> ({
                let c = b.evaluator();
                &&& c.wf()
                &&& c.circuit() == circ
                &&& c.pos() == 0
                &&& c.log().len() == 0
                &&& c.tables().len() == 0
                &&& c.hash_from() is None
                &&& start_labels_ok(c.start(), circ.inputs_spec(), inputs@.map_values(|e: EncodedValue| e.label_seq()))
            }),
    {
        match self.evaluate(circ, inputs) {
            Ok(inner) => Ok(EncryptedGateBatchConsumer { inner }),
            Err(e) => Err(e),
        }
    }
}

impl<'a, const N: usize> EncryptedGateBatchConsumer<'a, N> {
    /// The evaluation underway.
    pub closed spec fn evaluator(&self) -> EncryptedGateConsumer<'a> {
        self.inner
    }

    /// Hashes the encrypted gates from here on.
    pub fn enable_hasher(&mut self)
        requires
            old(self).evaluator().wf(),
        ensures
            final(self).evaluator().wf(),
            final(self).evaluator().circuit() == old(self).evaluator().circuit(),
            final(self).evaluator().start() == old(self).evaluator().start(),
            final(self).evaluator().log() == old(self).evaluator().log(),
            final(self).evaluator().tables() == old(self).evaluator().tables(),
            final(self).evaluator().hash_from() == Some(old(self).evaluator().tables().len()),
    {
        self.inner.enable_hasher()
    }

    /// Returns `true` if the evaluator wants more encrypted gates.
    pub fn wants_gates(&self) -> (r: bool)
        requires
            self.evaluator().wf(),
        ensures
            r == (self.evaluator().tables().len() < count_gates(self.evaluator().circuit().gates_spec(), true)),
    {
        self.inner.wants_gates()
    }

    /// Evaluates the AND gates of a batch, with the free gates before them,
    /// as long as the evaluator wants gates; the rest of the batch is
    /// padding.
    pub fn next<H>(&mut self, batch: EncryptedGateBatch<N>, hash: &H)
        where
            H: Fn(u128, u128) -> u128,
        requires
            old(self).evaluator().wf(),
            forall|t: u128, b: u128| call_requires(*hash, (t, b)),
        ensures
            final(self).evaluator().wf(),
            final(self).evaluator().circuit() == old(self).evaluator().circuit(),
            final(self).evaluator().start() == old(self).evaluator().start(),
            final(self).evaluator().hash_from() == old(self).evaluator().hash_from(),
            old(self).evaluator().log().len() <= final(self).evaluator().log().len(),
            final(self).evaluator().log().subrange(0, old(self).evaluator().log().len() as int)
                == old(self).evaluator().log(),
            hashed_by(*hash, final(self).evaluator().log(), old(self).evaluator().log().len() as int),
            ({
                let count = count_gates(old(self).evaluator().circuit().gates_spec(), true);
                let have = old(self).evaluator().tables().len();
                let m = if have < count { batch_len(N as nat, (count - have) as nat) } else { 0 };
                final(self).evaluator().tables() == old(self).evaluator().tables() + batch_rows(
                    batch.gates_spec(),
                    m,
                )
            }),
    {
        let gates = batch.into_array();
        let ghost count = count_gates(self.inner.circuit().gates_spec(), true);
        let ghost old_tables = self.inner.tables();
        let ghost old_log = self.inner.log();
        let mut i: usize = 0;
        let mut done = false;
        while i < N && !done
            invariant
                i <= N,
                gates@ == batch.gates_spec(),
                self.inner.wf(),
                self.inner.circuit() == old(self).inner.circuit(),
                self.inner.start() == old(self).inner.start(),
                self.inner.hash_from() == old(self).inner.hash_from(),
                count == count_gates(self.inner.circuit().gates_spec(), true),
                old_tables == old(self).inner.tables(),
                old_log == old(self).inner.log(),
                old_log.len() <= self.inner.log().len(),
                self.inner.log().subrange(0, old_log.len() as int) == old_log,
                hashed_by(*hash, self.inner.log(), old_log.len() as int),
                forall|t: u128, b: u128| call_requires(*hash, (t, b)),
                self.inner.tables() == old_tables + batch_rows(gates@, i as nat),
                old_tables.len() < count ==> self.inner.tables().len() <= count,
                old_tables.len() >= count ==> i == 0,
                done ==> old_tables.len() >= count || self.inner.tables().len() == count,
            decreases N - i + if done { 0int } else { 1int },
        {
            if !self.inner.wants_gates() {
                done = true;
            } else {
                match self.inner.advance() {
                    Some(blocks) => {
                        let (j, k) = self.inner.pending_tweaks();
                        let h0 = hash(j, blocks[0]);
                        let h1 = hash(k, blocks[1]);
                        let ghost prev_log = self.inner.log();
                        self.inner.evaluate_and(gates[i], [h0, h1]);
                        proof {
                            let log = self.inner.log();
                            let n = prev_log.len() as int;
                            assert(log.subrange(0, n) =~= prev_log);
                            assert(log.subrange(0, old_log.len() as int) =~= prev_log.subrange(0, old_log.len() as int));
                            assert(log[n] == (j, blocks[0], h0));
                            assert(log[n + 1] == (k, blocks[1], h1));
                            assert forall|q: int| old_log.len() <= q < log.len() implies call_ensures(
                                *hash,
                                (#[trigger] log[q].0, log[q].1),
                                log[q].2,
                            ) by {
                                if q < n {
                                    assert(log[q] == prev_log[q]);
                                }
                            }
                            assert(self.inner.tables() =~= old_tables + batch_rows(gates@, (i + 1) as nat));
                        }
                        i = i + 1;
                    },
                    None => {
                        done = true;
                    },
                }
            }
        }
        proof {
            assert(old_tables + batch_rows(gates@, 0) =~= old_tables);
        }
    }

    /// Evaluates the remaining free gates and returns the active encodings of
    /// the outputs, as `EncryptedGateConsumer::finish` does.
    pub fn finish(self) -> (r: Result<EvaluatorOutput, EvaluatorError>)
        requires
            self.evaluator().wf(),
        ensures
            r is Err <==> self.evaluator().tables().len() < count_gates(self.evaluator().circuit().gates_spec(), true),
            r matches Err(e) ==> e == EvaluatorError::NotFinished,
            r matches Ok(out) ==> {
                let outs = out.outputs;
                &&& out.hash is Some <==> self.evaluator().hash_from() is Some
                &&& out.hash matches Some(h) ==> gates_digest(self.evaluator().tables(), self.evaluator().hash_from()) == Some(h@)
                &&& outs@.len() == self.evaluator().circuit().outputs_spec().len()
                &&& forall|i: int| 0 <= i < outs@.len() ==> (#[trigger] outs@[i]).ty() == self.evaluator().circuit().outputs_spec()[i].ty()
                &&& forall|h: spec_fn(u128, u128) -> u128|
                    #[trigger] agrees(h, self.evaluator().log()) ==> forall|i: int|
                        0 <= i < outs@.len() ==> (#[trigger] outs@[i]).label_seq() == output_labels(
                            eval_run(self.evaluator().start(), self.evaluator().circuit().gates_spec(), self.evaluator().tables(), h).0,
                            self.evaluator().circuit().outputs_spec()[i],
                        )
            },
    {
        self.inner.finish()
    }
}

} // verus!
