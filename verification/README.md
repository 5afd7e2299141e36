# mpz

Building blocks for two-party computation with garbled circuits, written in
Verus. Every function under `src/` is verified; the few that call into outside
crates (`itybity`, `rand`, `blake3`, std's formatting) are small trusted
functions whose contracts are stated, not proved, and which are gathered in
`bits`, `random`, `text` and `garble::hash`.

- `binary_types`, `dynamic_types`: binary values and their types, and their
  bit decompositions.
- `memory`: representations of values as ids in a memory of bits; reading a
  value back gives what was written.
- `circuits`, `circuits_generic`: boolean circuits, their construction and
  their evaluation, specified gate by gate.
- `garble`: labels, half-gate garbling and evaluation of whole circuits, with
  the proof that the evaluator ends with the labels of the plain evaluation.
  The caller supplies the hash of each gate, or the hash function itself
  when the encrypted gates go out and come in batches.
- `common`: logical thread identifiers, executors' bookkeeping, the
  round-robin task queue, which hands results back in the order of the tasks,
  the tickets by which a follower runs synchronized work in the leader's
  order, and the calls of an ideal functionality's parties that wait for each
  other, keyed by thread ID.
- `lpn`: the integer part of the cost estimate of the algebraic attack on
  binary LPN, the degree at which the attack's system becomes solvable.

`app/` holds what runs outside the verified core: the async thread contexts
over the executors (channels opened by `uid-mux`, messages by `serio`), CPU
backends that move work to other threads, the async drivers of the task
queues, the synchronized mutex and syncer over the ticket queue, the ideal
functionalities over the waiting calls, the `join!`,
`try_join!` and `scoped!` macros, and error types with `Display`.

Not part of this crate: the protocols that need oblivious transfer and
commitments (DEAP, the async garbler and evaluator), and the floating-point
parts of the LPN estimates.
