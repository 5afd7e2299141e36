use mpz::binary_types::{PrimitiveType, Value, ValueType};
use mpz::circuits::{Circuit, CircuitError, Feed, Gate, GateType, Node, Sink};
use mpz::memory::repr::binary::ValueRepr;

fn feed(id: usize) -> Node<Feed> {
    Node::new(id)
}

fn sink(id: usize) -> Node<Sink> {
    Node::new(id)
}

/// An 8-bit ripple-carry adder: inputs on feeds 0..8 and 8..16, least
/// significant bit first.
fn build_adder() -> Circuit {
    let a = ValueRepr::try_from_ids(ValueType::Primitive(PrimitiveType::U8), (0..8).map(feed).collect()).unwrap();
    let b = ValueRepr::try_from_ids(ValueType::Primitive(PrimitiveType::U8), (8..16).map(feed).collect()).unwrap();
    let mut gates = Vec::new();
    let mut next = 16;
    let mut sum = Vec::new();
    let mut carry = None;
    for i in 0..8 {
        let p = next;
        next += 1;
        gates.push(Gate::Xor { x: sink(i), y: sink(8 + i), z: feed(p) });
        let g = next;
        next += 1;
        gates.push(Gate::And { x: sink(i), y: sink(8 + i), z: feed(g) });
        match carry {
            None => {
                sum.push(p);
                carry = Some(g);
            }
            Some(c) => {
                let s = next;
                next += 1;
                gates.push(Gate::Xor { x: sink(p), y: sink(c), z: feed(s) });
                let t = next;
                next += 1;
                gates.push(Gate::And { x: sink(c), y: sink(p), z: feed(t) });
                let c2 = next;
                next += 1;
                gates.push(Gate::Xor { x: sink(g), y: sink(t), z: feed(c2) });
                sum.push(s);
                carry = Some(c2);
            }
        }
    }
    let out = ValueRepr::try_from_ids(ValueType::Primitive(PrimitiveType::U8), sum.into_iter().map(feed).collect()).unwrap();
    Circuit::new(vec![a, b], vec![out], gates, next).unwrap()
}

#[test]
fn test_evaluate() {
    let circ = build_adder();

    let out = circ.evaluate(&[Value::from(1u8), Value::from(2u8)]).unwrap();

    assert_eq!(out, vec![Value::from(3u8)]);
}

#[test]
fn adder_wraps_around() {
    let circ = build_adder();
    for (a, b) in [(200u8, 100u8), (255, 1), (0, 0), (17, 42)] {
        let out = circ.evaluate(&[Value::from(a), Value::from(b)]).unwrap();
        assert_eq!(out, vec![Value::from(a.wrapping_add(b))]);
    }
    assert_eq!(circ.and_count(), 15);
    assert_eq!(circ.xor_count(), 22);
    assert_eq!(circ.inputs().len(), 2);
    assert_eq!(circ.outputs().len(), 1);
}

#[test]
fn evaluate_checks_inputs() {
    let circ = build_adder();
    assert_eq!(
        circ.evaluate(&[Value::from(1u8)]),
        Err(CircuitError::InvalidInputCount(2, 1))
    );
    assert_eq!(
        circ.evaluate(&[Value::from(1u8), Value::from(1u16)]),
        Err(CircuitError::InvalidInputType {
            id: 1,
            expected: ValueType::Primitive(PrimitiveType::U8),
            actual: ValueType::Primitive(PrimitiveType::U16),
        })
    );
}

#[test]
fn inverter_and_array_output() {
    // not(x) and x & y over single bits, output as an array of two bits.
    let x = ValueRepr::try_from_ids(ValueType::Primitive(PrimitiveType::Bit), vec![feed(0)]).unwrap();
    let y = ValueRepr::try_from_ids(ValueType::Primitive(PrimitiveType::Bit), vec![feed(1)]).unwrap();
    let gates = vec![
        Gate::Inv { x: sink(0), z: feed(2) },
        Gate::And { x: sink(0), y: sink(1), z: feed(3) },
    ];
    let out = ValueRepr::try_from_ids(ValueType::Array { ty: PrimitiveType::Bit, len: 2 }, vec![feed(2), feed(3)]).unwrap();
    let circ = Circuit::new(vec![x, y], vec![out], gates, 4).unwrap();
    let res = circ.evaluate(&[Value::from(true), Value::from(true)]).unwrap();
    assert_eq!(res, vec![Value::from([false, true])]);
    let res = circ.evaluate(&[Value::from(false), Value::from(true)]).unwrap();
    assert_eq!(res, vec![Value::from([true, false])]);
}

#[test]
fn new_refuses_ill_formed_circuits() {
    let x = || ValueRepr::try_from_ids(ValueType::Primitive(PrimitiveType::Bit), vec![feed(0)]).unwrap();
    // A node beyond the feeds.
    assert!(Circuit::new(vec![x()], vec![], vec![Gate::Inv { x: sink(0), z: feed(5) }], 2).is_none());
    // Two inputs on one node.
    assert!(Circuit::new(vec![x(), x()], vec![], vec![], 2).is_none());
    // An input that repeats a node.
    let twice = ValueRepr::try_from_ids(ValueType::Array { ty: PrimitiveType::Bit, len: 2 }, vec![feed(1), feed(1)]).unwrap();
    assert!(Circuit::new(vec![twice], vec![], vec![], 2).is_none());
    assert!(Circuit::new(vec![x()], vec![x()], vec![], 1).is_some());
}

#[test]
fn gate_accessors_and_shift() {
    let mut g = Gate::And { x: sink(5), y: sink(6), z: feed(7) };
    assert_eq!(g.gate_type(), GateType::And);
    assert_eq!(g.x().id(), 5);
    assert_eq!(g.y().map(|y| y.id()), Some(6));
    assert_eq!(g.z().id(), 7);
    g.shift_left(5);
    assert_eq!((g.x().id(), g.y().unwrap().id(), g.z().id()), (0, 1, 2));
    let inv = Gate::Inv { x: sink(1), z: feed(2) };
    assert_eq!(inv.gate_type(), GateType::Inv);
    assert!(inv.y().is_none());
    let n: Node<Sink> = Node::<Feed>::new(3).into();
    assert_eq!(n.id(), 3);
}

/// Passes an array of two bits and a bit straight through to the outputs.
fn build_passthrough() -> Circuit {
    let arr = ValueRepr::try_from_ids(ValueType::Array { ty: PrimitiveType::Bit, len: 2 }, vec![feed(0), feed(1)]).unwrap();
    let bit = ValueRepr::try_from_ids(ValueType::Primitive(PrimitiveType::Bit), vec![feed(2)]).unwrap();
    let out_arr = ValueRepr::try_from_ids(ValueType::Array { ty: PrimitiveType::Bit, len: 2 }, vec![feed(0), feed(1)]).unwrap();
    let out_bit = ValueRepr::try_from_ids(ValueType::Primitive(PrimitiveType::Bit), vec![feed(2)]).unwrap();
    Circuit::new(vec![arr, bit], vec![out_arr, out_bit], vec![], 3).unwrap()
}

#[test]
fn reverse_input_reverses_array_elements() {
    let circ = build_passthrough().reverse_input(0);
    assert_eq!(circ.inputs()[0].ids_vec(), vec![feed(1), feed(0)]);
    assert_eq!(circ.inputs()[1].ids_vec(), vec![feed(2)]);
    let out = circ.evaluate(&[Value::from([true, false]), Value::from(true)]).unwrap();
    assert_eq!(out, vec![Value::from([false, true]), Value::from(true)]);
    // A primitive input and an index past the end are left as they are.
    let circ = circ.reverse_input(1).reverse_input(7);
    assert_eq!(circ.inputs()[1].ids_vec(), vec![feed(2)]);
    assert_eq!(circ.inputs()[0].ids_vec(), vec![feed(1), feed(0)]);
}

#[test]
fn reverse_output_reverses_array_elements() {
    let circ = build_passthrough().reverse_output(0);
    assert_eq!(circ.outputs()[0].ids_vec(), vec![feed(1), feed(0)]);
    let out = circ.evaluate(&[Value::from([true, false]), Value::from(false)]).unwrap();
    assert_eq!(out, vec![Value::from([false, true]), Value::from(false)]);
}

#[test]
fn reverse_inputs_and_outputs_order() {
    let circ = build_passthrough().reverse_inputs();
    assert_eq!(circ.inputs()[0].value_type(), ValueType::Primitive(PrimitiveType::Bit));
    assert_eq!(circ.inputs()[1].value_type(), ValueType::Array { ty: PrimitiveType::Bit, len: 2 });
    let circ = circ.reverse_outputs();
    let out = circ.evaluate(&[Value::from(true), Value::from([false, true])]).unwrap();
    assert_eq!(out, vec![Value::from(true), Value::from([false, true])]);
    // Reversing twice gives the circuit back.
    let circ = circ.reverse_inputs().reverse_outputs();
    assert_eq!(circ.inputs()[0].value_type(), ValueType::Array { ty: PrimitiveType::Bit, len: 2 });
    assert_eq!(circ.outputs()[1].value_type(), ValueType::Primitive(PrimitiveType::Bit));
}

#[test]
fn node_text() {
    assert_eq!(feed(3).to_string(), "Feed(3)");
    assert_eq!(sink(120).to_string(), "Sink(120)");
}
