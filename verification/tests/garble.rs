use mpz::binary_types::{PrimitiveType, Value, ValueType};
use mpz::circuits::{Circuit, Feed, Gate, Node, Sink};
use mpz::garble::config::{GeneratorConfig, Role, Visibility};
use mpz::garble::encoding::{Delta, Label};
use mpz::garble::garbler::{
    decode_bits, decoding, EncodedValue, Evaluator, EvaluatorError, EvaluatorOutput, Generator, GeneratorError,
    GeneratorOutput,
};
use mpz::garble::half_gate::{
    evaluate_and_gate, evaluate_hash_inputs, garble_and_gate, garble_hash_inputs, gate_tweaks, EncryptedGate,
    EncryptedGateBatch,
};
use mpz::memory::repr::binary::ValueRepr;
use rand::rngs::StdRng;
use rand::SeedableRng;

/// A stand-in for the tweakable hash: any fixed function of tweak and block.
fn hash(tweak: u128, block: u128) -> u128 {
    let x = block ^ tweak.wrapping_mul(0x9e37_79b9_7f4a_7c15_f39c_c060_5ced_c834);
    let x = x.wrapping_mul(0xff51_afd7_ed55_8ccd_c4ce_b9fe_1a85_ec53);
    x ^ (x >> 67) ^ (x << 13)
}

#[test]
fn test_and_gate() {
    let mut rng = StdRng::seed_from_u64(0);

    let delta = Delta::random(&mut rng);
    let x_0 = Label::random(&mut rng);
    let x_1 = x_0.xor_delta(&delta);
    let y_0 = Label::random(&mut rng);
    let y_1 = y_0.xor_delta(&delta);
    let gid: usize = 1;
    let (j, k) = gate_tweaks(gid);

    let blocks = garble_hash_inputs(&x_0, &y_0, &delta);
    let hashes = [hash(j, blocks[0]), hash(k, blocks[1]), hash(j, blocks[2]), hash(k, blocks[3])];
    let (z_0, encrypted_gate) = garble_and_gate(&x_0, &y_0, &delta, hashes);
    let z_1 = z_0.xor_delta(&delta);

    let ev = |x: &Label, y: &Label| {
        let b = evaluate_hash_inputs(x, y);
        evaluate_and_gate(x, y, &encrypted_gate, [hash(j, b[0]), hash(k, b[1])])
    };

    assert_eq!(ev(&x_0, &y_0), z_0);
    assert_eq!(ev(&x_0, &y_1), z_0);
    assert_eq!(ev(&x_1, &y_0), z_0);
    assert_eq!(ev(&x_1, &y_1), z_1);
}

#[test]
fn delta_has_pointer_bit_set() {
    let mut rng = StdRng::seed_from_u64(7);
    for _ in 0..16 {
        let delta = Delta::random(&mut rng);
        assert_eq!(delta.into_inner() & 1, 1);
        let l = Label::random(&mut rng);
        assert_ne!(l.pointer_bit(), l.xor_delta(&delta).pointer_bit());
    }
    assert_eq!(Delta::from_block(6).into_inner(), 7);
}

fn feed(id: usize) -> Node<Feed> {
    Node::new(id)
}

fn sink(id: usize) -> Node<Sink> {
    Node::new(id)
}

fn build_adder() -> Circuit {
    let a = ValueRepr::try_from_ids(ValueType::Primitive(PrimitiveType::U8), (0..8).map(feed).collect()).unwrap();
    let b = ValueRepr::try_from_ids(ValueType::Primitive(PrimitiveType::U8), (8..16).map(feed).collect()).unwrap();
    let mut gates = Vec::new();
    let mut next = 16;
    let mut sum = Vec::new();
    let mut carry = None;
    for i in 0..8 {
        let p = next;
        next += 1;
        gates.push(Gate::Xor { x: sink(i), y: sink(8 + i), z: feed(p) });
        let g = next;
        next += 1;
        gates.push(Gate::And { x: sink(i), y: sink(8 + i), z: feed(g) });
        match carry {
            None => {
                sum.push(p);
                carry = Some(g);
            }
            Some(c) => {
                let s = next;
                next += 1;
                gates.push(Gate::Xor { x: sink(p), y: sink(c), z: feed(s) });
                let t = next;
                next += 1;
                gates.push(Gate::And { x: sink(c), y: sink(p), z: feed(t) });
                let c2 = next;
                next += 1;
                gates.push(Gate::Xor { x: sink(g), y: sink(t), z: feed(c2) });
                sum.push(s);
                carry = Some(c2);
            }
        }
    }
    let out = ValueRepr::try_from_ids(ValueType::Primitive(PrimitiveType::U8), sum.into_iter().map(feed).collect()).unwrap();
    Circuit::new(vec![a, b], vec![out], gates, next).unwrap()
}

fn bits_of(v: u8) -> Vec<bool> {
    (0..8).map(|i| (v >> i) & 1 == 1).collect()
}

fn garble_and_evaluate(circ: &Circuit, a: u8, b: u8, seed: u64) -> u8 {
    garble_and_evaluate_hashed(circ, a, b, seed, false).0
}

/// Garbles and evaluates `a + b`, hashing the encrypted gates on both sides
/// where `hashed`; returns the sum, both digests and the encrypted gates.
fn garble_and_evaluate_hashed(
    circ: &Circuit,
    a: u8,
    b: u8,
    seed: u64,
    hashed: bool,
) -> (u8, Option<[u8; 32]>, Option<[u8; 32]>, Vec<EncryptedGate>) {
    let mut rng = StdRng::seed_from_u64(seed);
    let delta = Delta::random(&mut rng);
    let d = delta.into_inner();
    let ty = ValueType::Primitive(PrimitiveType::U8);
    let zeros_a: Vec<u128> = (0..8).map(|_| Label::random(&mut rng).to_inner()).collect();
    let zeros_b: Vec<u128> = (0..8).map(|_| Label::random(&mut rng).to_inner()).collect();
    let active = |zeros: &Vec<u128>, v: u8| -> Vec<u128> {
        zeros.iter().zip(bits_of(v)).map(|(z, bit)| if bit { z ^ d } else { *z }).collect()
    };
    let act_a = active(&zeros_a, a);
    let act_b = active(&zeros_b, b);

    let mut gen = Generator::default();
    let mut it = gen
        .generate(circ, delta, vec![EncodedValue::new(ty, zeros_a), EncodedValue::new(ty, zeros_b)])
        .unwrap();
    if hashed {
        it.enable_hasher();
    }
    let mut tables: Vec<EncryptedGate> = Vec::new();
    while let Some(blocks) = it.advance() {
        let (j, k) = it.pending_tweaks();
        let hashes = [hash(j, blocks[0]), hash(k, blocks[1]), hash(j, blocks[2]), hash(k, blocks[3])];
        tables.push(it.garble_and(hashes));
    }
    assert!(!it.has_gates());
    assert_eq!(tables.len(), circ.and_count());
    let GeneratorOutput { outputs: full, hash: gen_hash } = it.finish().unwrap();
    let sent = tables.clone();

    let mut ev = Evaluator::default();
    let mut c = ev
        .evaluate(circ, vec![EncodedValue::new(ty, act_a), EncodedValue::new(ty, act_b)])
        .unwrap();
    if hashed {
        c.enable_hasher();
    }
    let mut gates = tables.into_iter();
    while let Some(blocks) = c.advance() {
        let (j, k) = c.pending_tweaks();
        c.evaluate_and(gates.next().unwrap(), [hash(j, blocks[0]), hash(k, blocks[1])]);
    }
    assert!(!c.wants_gates());
    let EvaluatorOutput { outputs: out, hash: ev_hash } = c.finish().unwrap();

    let bits = decode_bits(&out[0], &decoding(&full[0])).unwrap();
    let sum = bits.iter().enumerate().fold(0u8, |acc, (i, b)| acc | ((*b as u8) << i));
    (sum, gen_hash, ev_hash, sent)
}

#[test]
fn test_garble() {
    let circ = build_adder();
    for (a, b, seed) in [(69u8, 42u8, 0u64), (255, 1, 1), (0, 0, 2), (16, 32, 3)] {
        assert_eq!(garble_and_evaluate(&circ, a, b, seed), a.wrapping_add(b));
        let plain = circ.evaluate(&[Value::from(a), Value::from(b)]).unwrap();
        assert_eq!(plain, vec![Value::from(a.wrapping_add(b))]);
    }
}

#[test]
fn generate_checks_inputs() {
    let circ = build_adder();
    let mut gen = Generator::default();
    let ty = ValueType::Primitive(PrimitiveType::U8);
    let mut rng = StdRng::seed_from_u64(3);
    let delta = Delta::random(&mut rng);
    assert!(matches!(
        gen.generate(&circ, delta, vec![EncodedValue::new(ty, vec![0; 8])]),
        Err(GeneratorError::CircuitError(_))
    ));
    let wrong = ValueType::Primitive(PrimitiveType::U16);
    assert!(matches!(
        gen.generate(&circ, delta, vec![EncodedValue::new(ty, vec![0; 8]), EncodedValue::new(wrong, vec![0; 16])]),
        Err(GeneratorError::TypeError { .. })
    ));
    let it = gen
        .generate(&circ, delta, vec![EncodedValue::new(ty, vec![0; 8]), EncodedValue::new(ty, vec![0; 8])])
        .unwrap();
    assert!(it.has_gates());
    assert!(matches!(it.finish(), Err(GeneratorError::NotFinished)));
}

#[test]
fn encrypted_gate_batch() {
    let g = EncryptedGate::new([1, 2]);
    assert_eq!((g.get(0), g.get(1)), (1, 2));
    let batch = EncryptedGateBatch::new([g, EncryptedGate::default(), g]);
    assert_eq!(batch.len(), 3);
    let arr = batch.into_array();
    assert_eq!(arr[1], EncryptedGate::default());
}

#[test]
fn config_builder() {
    let config = GeneratorConfig::builder().encoding_commitments().build().unwrap();
    assert!(config.encoding_commitments());
    let config = GeneratorConfig::builder().build().unwrap();
    assert!(!config.encoding_commitments());
    assert!(!GeneratorConfig::default().encoding_commitments());
    assert_eq!(Role::Leader.name(), "Leader");
    assert_eq!(Role::Follower.name(), "Follower");
    assert_ne!(Visibility::Public, Visibility::Blind);
}

#[test]
fn gate_hashes_agree() {
    let circ = build_adder();
    let (sum, gen_hash, ev_hash, sent) = garble_and_evaluate_hashed(&circ, 69, 42, 5, true);
    assert_eq!(sum, 111);
    assert!(gen_hash.is_some());
    assert_eq!(gen_hash, ev_hash);
    let mut bytes = Vec::new();
    for g in &sent {
        bytes.extend_from_slice(&g.get(0).to_le_bytes());
        bytes.extend_from_slice(&g.get(1).to_le_bytes());
    }
    assert_eq!(bytes.len(), 32 * circ.and_count());
    let expected: [u8; 32] = blake3::hash(&bytes).into();
    assert_eq!(gen_hash, Some(expected));
}

#[test]
fn gate_hashes_absent_unless_enabled() {
    let circ = build_adder();
    let (sum, gen_hash, ev_hash, _) = garble_and_evaluate_hashed(&circ, 1, 2, 6, false);
    assert_eq!(sum, 3);
    assert_eq!(gen_hash, None);
    assert_eq!(ev_hash, None);
}

#[test]
fn evaluator_checks_inputs() {
    let circ = build_adder();
    let mut ev = Evaluator::default();
    let ty = ValueType::Primitive(PrimitiveType::U8);
    assert!(matches!(
        ev.evaluate(&circ, vec![EncodedValue::new(ty, vec![0; 8])]),
        Err(EvaluatorError::CircuitError(_))
    ));
    assert!(matches!(
        ev.evaluate(&circ, vec![EncodedValue::new(ty, vec![0; 8]), EncodedValue::new(ty, vec![0; 7])]),
        Err(EvaluatorError::TypeError { .. })
    ));
    let c = ev
        .evaluate(&circ, vec![EncodedValue::new(ty, vec![0; 8]), EncodedValue::new(ty, vec![0; 8])])
        .unwrap();
    assert!(c.wants_gates());
    assert!(matches!(c.finish(), Err(EvaluatorError::NotFinished)));
}

/// `a ^ b` over two bytes: eight XOR gates and no AND gate.
fn build_xor() -> Circuit {
    let a = ValueRepr::try_from_ids(ValueType::Primitive(PrimitiveType::U8), (0..8).map(feed).collect()).unwrap();
    let b = ValueRepr::try_from_ids(ValueType::Primitive(PrimitiveType::U8), (8..16).map(feed).collect()).unwrap();
    let gates = (0..8).map(|i| Gate::Xor { x: sink(i), y: sink(8 + i), z: feed(16 + i) }).collect();
    let c = ValueRepr::try_from_ids(ValueType::Primitive(PrimitiveType::U8), (16..24).map(feed).collect()).unwrap();
    Circuit::new(vec![a, b], vec![c], gates, 24).unwrap()
}

#[test]
fn test_generator() {
    let circ = build_adder();
    let mut rng = StdRng::seed_from_u64(0);
    let delta = Delta::random(&mut rng);
    let ty = ValueType::Primitive(PrimitiveType::U8);
    let inputs = (0..2)
        .map(|_| EncodedValue::new(ty, (0..8).map(|_| Label::random(&mut rng).to_inner()).collect()))
        .collect();

    let mut gen = Generator::default();
    let mut gate_iter = gen.generate(&circ, delta, inputs).unwrap();

    let mut enc_gates: Vec<EncryptedGate> = Vec::new();
    while let Some(blocks) = gate_iter.advance() {
        let (j, k) = gate_iter.pending_tweaks();
        enc_gates.push(gate_iter.garble_and([hash(j, blocks[0]), hash(k, blocks[1]), hash(j, blocks[2]), hash(k, blocks[3])]));
    }

    assert!(!gate_iter.has_gates());
    assert_eq!(enc_gates.len(), circ.and_count());

    _ = gate_iter.finish().unwrap();
}

#[test]
fn test_generator_no_and() {
    let circ = build_xor();
    assert_eq!(circ.and_count(), 0);
    let mut rng = StdRng::seed_from_u64(1);
    let delta = Delta::random(&mut rng);
    let ty = ValueType::Primitive(PrimitiveType::U8);
    let inputs = (0..2)
        .map(|_| EncodedValue::new(ty, (0..8).map(|_| Label::random(&mut rng).to_inner()).collect()))
        .collect();

    let mut gen = Generator::default();
    let mut gate_iter = gen.generate(&circ, delta, inputs).unwrap();

    assert!(gate_iter.advance().is_none());
    assert!(!gate_iter.has_gates());
    assert!(gate_iter.finish().is_ok());
}

#[test]
fn test_garble_no_and() {
    let circ = build_xor();
    assert_eq!(circ.and_count(), 0);
    let (a, b) = (1u8, 2u8);

    let mut rng = StdRng::seed_from_u64(2);
    let delta = Delta::random(&mut rng);
    let d = delta.into_inner();
    let ty = ValueType::Primitive(PrimitiveType::U8);
    let zeros_a: Vec<u128> = (0..8).map(|_| Label::random(&mut rng).to_inner()).collect();
    let zeros_b: Vec<u128> = (0..8).map(|_| Label::random(&mut rng).to_inner()).collect();
    let active = |zeros: &Vec<u128>, v: u8| -> Vec<u128> {
        zeros.iter().zip(bits_of(v)).map(|(z, bit)| if bit { z ^ d } else { *z }).collect()
    };
    let act_a = active(&zeros_a, a);
    let act_b = active(&zeros_b, b);

    let mut gen = Generator::default();
    let mut gen_iter = gen
        .generate(&circ, delta, vec![EncodedValue::new(ty, zeros_a), EncodedValue::new(ty, zeros_b)])
        .unwrap();
    let mut ev = Evaluator::default();
    let mut ev_consumer = ev
        .evaluate(&circ, vec![EncodedValue::new(ty, act_a), EncodedValue::new(ty, act_b)])
        .unwrap();

    gen_iter.enable_hasher();
    ev_consumer.enable_hasher();

    assert!(gen_iter.advance().is_none());
    assert!(ev_consumer.advance().is_none());

    let GeneratorOutput { outputs: full_outputs, hash: gen_hash } = gen_iter.finish().unwrap();
    let EvaluatorOutput { outputs: active_outputs, hash: ev_hash } = ev_consumer.finish().unwrap();

    let bits = decode_bits(&active_outputs[0], &decoding(&full_outputs[0])).unwrap();
    let actual = bits.iter().enumerate().fold(0u8, |acc, (i, b)| acc | ((*b as u8) << i));

    assert_eq!(actual, a ^ b);
    assert_eq!(gen_hash, ev_hash);
}

/// Garbles and evaluates `a + b` with the encrypted gates sent in batches of
/// three; returns the sum, the number of batches and the gates sent, padding
/// dropped.
fn garble_and_evaluate_batched(circ: &Circuit, a: u8, b: u8, seed: u64) -> (u8, usize, Vec<EncryptedGate>) {
    let mut rng = StdRng::seed_from_u64(seed);
    let delta = Delta::random(&mut rng);
    let d = delta.into_inner();
    let ty = ValueType::Primitive(PrimitiveType::U8);
    let zeros_a: Vec<u128> = (0..8).map(|_| Label::random(&mut rng).to_inner()).collect();
    let zeros_b: Vec<u128> = (0..8).map(|_| Label::random(&mut rng).to_inner()).collect();
    let active = |zeros: &Vec<u128>, v: u8| -> Vec<u128> {
        zeros.iter().zip(bits_of(v)).map(|(z, bit)| if bit { z ^ d } else { *z }).collect()
    };
    let act_a = active(&zeros_a, a);
    let act_b = active(&zeros_b, b);

    let mut gen = Generator::default();
    let mut it = gen
        .generate_batched::<3>(circ, delta, vec![EncodedValue::new(ty, zeros_a), EncodedValue::new(ty, zeros_b)])
        .unwrap();
    let mut batches: Vec<EncryptedGateBatch<3>> = Vec::new();
    while let Some(batch) = it.next_batch(&hash) {
        batches.push(batch);
    }
    assert!(!it.has_gates());
    let GeneratorOutput { outputs: full, .. } = it.finish().unwrap();

    let n_batches = batches.len();
    let mut ev = Evaluator::default();
    let mut c = ev
        .evaluate_batched::<3>(circ, vec![EncodedValue::new(ty, act_a), EncodedValue::new(ty, act_b)])
        .unwrap();
    let mut sent: Vec<EncryptedGate> = Vec::new();
    for batch in batches {
        for g in batch.into_array() {
            sent.push(g);
        }
    }
    let mut rest = sent.clone().into_iter();
    while c.wants_gates() {
        let chunk: Vec<EncryptedGate> = (0..3).map(|_| rest.next().unwrap()).collect();
        c.next(EncryptedGateBatch::new([chunk[0], chunk[1], chunk[2]]), &hash);
    }
    let EvaluatorOutput { outputs: out, .. } = c.finish().unwrap();

    let bits = decode_bits(&out[0], &decoding(&full[0])).unwrap();
    let sum = bits.iter().enumerate().fold(0u8, |acc, (i, b)| acc | ((*b as u8) << i));
    sent.truncate(circ.and_count());
    (sum, n_batches, sent)
}

#[test]
fn garble_in_batches() {
    let circ = build_adder();
    let and_count = circ.and_count();
    for (a, b, seed) in [(69u8, 42u8, 0u64), (255, 1, 1), (0, 0, 2), (16, 32, 3)] {
        let (sum, n_batches, sent) = garble_and_evaluate_batched(&circ, a, b, seed);
        assert_eq!(sum, a.wrapping_add(b));
        assert_eq!(n_batches, (and_count + 2) / 3);
        // The batches carry the same gates, in the same order, as garbling
        // one gate at a time.
        let (_, _, _, one_by_one) = garble_and_evaluate_hashed(&circ, a, b, seed, false);
        assert_eq!(sent, one_by_one);
    }
}

#[test]
fn last_batch_is_padded() {
    let circ = build_adder();
    let and_count = circ.and_count();
    let mut rng = StdRng::seed_from_u64(9);
    let delta = Delta::random(&mut rng);
    let ty = ValueType::Primitive(PrimitiveType::U8);
    let zeros: Vec<u128> = (0..8).map(|_| Label::random(&mut rng).to_inner()).collect();
    let mut gen = Generator::default();
    let mut it = gen
        .generate_batched::<4>(&circ, delta, vec![EncodedValue::new(ty, zeros.clone()), EncodedValue::new(ty, zeros)])
        .unwrap();
    let mut last = None;
    while let Some(batch) = it.next_batch(&hash) {
        last = Some(batch);
    }
    let last = last.unwrap().into_array();
    let filled = and_count % 4;
    if filled != 0 {
        for g in &last[filled..] {
            assert_eq!(*g, EncryptedGate::default());
        }
    }
    assert!(it.next_batch(&hash).is_none());
}
