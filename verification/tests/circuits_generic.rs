use mpz::circuits_generic::{CircuitBuilder, CircuitBuilderError, Component, Next, Node};

#[derive(Debug)]
struct Gate {
    inputs: Vec<Node>,
    output: Vec<Node>,
}

impl Component for Gate {
    fn get_inputs(&self) -> &[Node] {
        &self.inputs
    }

    fn get_outputs(&self) -> &[Node] {
        &self.output
    }
}

fn gate(inputs: Vec<Node>, next: &mut Next) -> Gate {
    Gate { inputs, output: vec![next.next()] }
}

#[test]
fn test_circuit_builder() {
    let mut builder = CircuitBuilder::<Gate>::new();

    let (in_0, in_1) = (builder.add_input(), builder.add_input());

    let output = builder.add_gate(|next| gate(vec![in_0, in_1], next)).unwrap().output[0];
    let output = builder.add_gate(|next| gate(vec![in_0, output], next)).unwrap().output[0];
    let output = builder.add_gate(|next| gate(vec![output, in_1], next)).unwrap().output[0];

    builder.add_output(output);

    let circuit = builder.build();
    assert!(circuit.is_ok(), "Failed to build circuit: {:?}", circuit.err());
    let circuit = circuit.unwrap();
    let gates = circuit.gates();

    assert_eq!(gates[0].get_outputs().iter().collect::<Vec<_>>(), vec![&Node::new(2)], "First gate outputs mismatch");
    assert_eq!(gates[1].get_outputs().iter().collect::<Vec<_>>(), vec![&Node::new(3)], "Second gate outputs mismatch");
    assert_eq!(gates[2].get_outputs().iter().collect::<Vec<_>>(), vec![&Node::new(4)], "Third gate outputs mismatch");
}

#[test]
fn test_builder_add_gate() {
    let mut builder = CircuitBuilder::<Gate>::new();

    let (in_0, in_1) = (builder.add_input(), builder.add_input());

    builder.add_gate(|next| gate(vec![in_0, in_1], next)).unwrap();

    let gate_result = builder.add_gate(|next| gate(Vec::new(), next));

    assert!(gate_result.is_err(), "Expected disconnected gate error");
    assert_eq!(gate_result.unwrap_err(), CircuitBuilderError::DisconnectedGate, "Unexpected error type");
}

#[test]
fn test_empty_circuit() {
    let builder = CircuitBuilder::<Gate>::new();

    let circuit = builder.build();

    assert!(circuit.is_err(), "Expected empty circuit error");
    assert_eq!(circuit.unwrap_err(), CircuitBuilderError::EmptyCircuit, "Unexpected error type");
}

#[test]
fn test_node_out_of_index() {
    let mut builder = CircuitBuilder::<Gate>::new();

    let input = builder.add_input();

    builder.add_gate(|next| gate(vec![input, Node::new(100)], next)).unwrap();

    let circuit = builder.build();

    assert!(circuit.is_err(), "Expected node out of index error");
    assert_eq!(circuit.unwrap_err(), CircuitBuilderError::NodeOutOfIndex, "Unexpected error type");
}

#[test]
fn test_output_validation() {
    let mut builder = CircuitBuilder::<Gate>::new();

    let in_0 = builder.add_input();
    let in_1 = builder.add_input();

    let output = builder.add_gate(|next| gate(vec![in_0, in_1], next)).unwrap().output[0];

    builder.add_output(output);

    let new_output = builder.add_gate(|next| gate(vec![output, in_0], next)).unwrap().output[0];

    builder.add_output(new_output);

    let circuit = builder.build();

    assert!(circuit.is_err(), "Expected output validation error");
    assert_eq!(circuit.unwrap_err(), CircuitBuilderError::OutputValidationFailed, "Unexpected error type");
}

#[test]
fn build_refuses_gate_reading_a_later_node() {
    let mut builder = CircuitBuilder::<Gate>::new();
    let (in_0, in_1) = (builder.add_input(), builder.add_input());
    // The first gate reads node 3, which the second gate outputs.
    let first = builder.add_gate(|next| gate(vec![in_0, Node::new(3)], next)).unwrap().output[0];
    assert_eq!(first, Node::new(2));
    let second = builder.add_gate(|next| gate(vec![in_1, in_0], next)).unwrap().output[0];
    assert_eq!(second, Node::new(3));
    builder.add_output(first);
    assert_eq!(builder.build().unwrap_err(), CircuitBuilderError::NodeOutOfIndex);
}

#[test]
fn builder_default_is_new() {
    let mut builder = CircuitBuilder::<Gate>::default();
    assert_eq!(builder.add_input(), Node::new(0));
    assert_eq!(builder.build().unwrap_err(), CircuitBuilderError::EmptyCircuit);
}
