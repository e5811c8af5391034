use node_graph::error::GraphError;
use node_graph::identity::{Encoding, Payload, TypeIdentity};
use node_graph::node::{Connection, Node, NodeGraph, NodeSocket};
use node_graph::nodes::{OutputNode, ValueNode};
use std::cell::Cell;
use std::rc::Rc;

#[derive(Debug, Clone, PartialEq)]
struct Text(String);

impl Payload for Text {
    fn identity() -> TypeIdentity {
        Self::type_identity()
    }

    fn encoding(&self) -> Encoding {
        unreachable!()
    }

    fn decoded(_: Encoding) -> Self {
        unreachable!()
    }

    fn type_identity() -> TypeIdentity {
        TypeIdentity::new(100)
    }

    fn duplicate(&self) -> Self {
        self.clone()
    }
}

struct Sum;

impl Node<(i64, i64), (i64,)> for Sum {
    fn fallback_name() -> String {
        "scenarios::Sum".to_string()
    }

    fn operation_spec(&self, input: (i64, i64)) -> (i64,) {
        self.operation(input)
    }

    fn operation(&self, input: (i64, i64)) -> (i64,) {
        (input.0 + input.1,)
    }

    fn name() -> String {
        "Sum".to_string()
    }

    fn description() -> String {
        "Adds two integers".to_string()
    }
}

struct Difference;

impl Node<(i64, i64), (i64,)> for Difference {
    fn fallback_name() -> String {
        "scenarios::Difference".to_string()
    }

    fn operation_spec(&self, input: (i64, i64)) -> (i64,) {
        self.operation(input)
    }

    fn operation(&self, input: (i64, i64)) -> (i64,) {
        (input.0 - input.1,)
    }
}

struct Shout;

impl Node<(Text,), (Text,)> for Shout {
    fn fallback_name() -> String {
        "scenarios::Shout".to_string()
    }

    fn operation_spec(&self, input: (Text,)) -> (Text,) {
        self.operation(input)
    }

    fn operation(&self, input: (Text,)) -> (Text,) {
        (Text(input.0 .0.to_uppercase()),)
    }
}

struct Counting {
    calls: Rc<Cell<u32>>,
}

impl Node<((),), (i64,)> for Counting {
    fn fallback_name() -> String {
        "scenarios::Counting".to_string()
    }

    fn operation_spec(&self, input: ((),)) -> (i64,) {
        self.operation(input)
    }

    fn operation(&self, _: ((),)) -> (i64,) {
        self.calls.set(self.calls.get() + 1);
        (7,)
    }
}

struct Pass;

impl Node<(i64,), (i64,)> for Pass {
    fn fallback_name() -> String {
        "scenarios::Pass".to_string()
    }

    fn operation_spec(&self, input: (i64,)) -> (i64,) {
        self.operation(input)
    }

    fn operation(&self, input: (i64,)) -> (i64,) {
        input
    }
}

struct Split;

impl Node<(i64,), (i64, bool)> for Split {
    fn fallback_name() -> String {
        "scenarios::Split".to_string()
    }

    fn operation_spec(&self, input: (i64,)) -> (i64, bool) {
        self.operation(input)
    }

    fn operation(&self, input: (i64,)) -> (i64, bool) {
        (input.0 * 2, input.0 > 0)
    }
}

struct Choose;

impl Node<(bool, i64, i64), (i64,)> for Choose {
    fn fallback_name() -> String {
        "scenarios::Choose".to_string()
    }

    fn operation_spec(&self, input: (bool, i64, i64)) -> (i64,) {
        self.operation(input)
    }

    fn operation(&self, input: (bool, i64, i64)) -> (i64,) {
        (if input.0 { input.1 } else { input.2 },)
    }
}

fn socket(node: usize, socket: usize) -> NodeSocket {
    NodeSocket::new(node, socket)
}

#[test]
fn single_source_feeds_output() {
    let mut graph = NodeGraph::new();
    let source = graph.add_node(ValueNode::new(5i64));
    let output = graph.add_node(OutputNode::<i64>::new());
    graph.connect(socket(source, 0), socket(output, 0));
    assert_eq!(graph.get_output::<i64>(), Ok(5));
}

#[test]
fn one_source_feeds_both_inputs_of_sum() {
    let mut graph = NodeGraph::new();
    let a = graph.add_node(ValueNode::new(3i64));
    let b = graph.add_node(Sum);
    let output = graph.add_node(OutputNode::<i64>::new());
    graph.connect(socket(a, 0), socket(b, 0));
    graph.connect(socket(a, 0), socket(b, 1));
    graph.connect(socket(b, 0), socket(output, 0));
    assert_eq!(graph.get_output::<i64>(), Ok(6));
}

#[test]
fn integer_into_text_is_a_type_mismatch() {
    let mut graph = NodeGraph::new();
    let c = graph.add_node(ValueNode::new(1i64));
    let d = graph.add_node(Shout);
    let output = graph.add_node(OutputNode::<Text>::new());
    graph.connect(socket(c, 0), socket(d, 0));
    graph.connect(socket(d, 0), socket(output, 0));
    assert_eq!(
        graph.get_output::<Text>(),
        Err(GraphError::TypeMismatch {
            from_node: c,
            from_socket: 0,
            to_node: d,
            to_socket: 0,
            expected: Text::type_identity(),
            actual: <i64 as Payload>::type_identity(),
        })
    );
}

#[test]
fn graph_without_output_node_fails() {
    let mut graph = NodeGraph::new();
    graph.add_node(ValueNode::new(5i64));
    assert_eq!(graph.get_output::<i64>(), Err(GraphError::MissingOutputNode));
    assert_eq!(NodeGraph::new().get_output::<i64>(), Err(GraphError::MissingOutputNode));
}

#[test]
fn one_connection_for_two_inputs_is_insufficient() {
    let mut graph = NodeGraph::new();
    let a = graph.add_node(ValueNode::new(3i64));
    let e = graph.add_node(Sum);
    graph.connect(socket(a, 0), socket(e, 0));
    let resolved = graph.get_output_of_node(e);
    assert_eq!(resolved.err(), Some(GraphError::InsufficientInputs { node: e }));
}

#[test]
fn node_with_inputs_and_no_connection_is_insufficient() {
    let mut graph = NodeGraph::new();
    let e = graph.add_node(Sum);
    let output = graph.add_node(OutputNode::<i64>::new());
    graph.connect(socket(e, 0), socket(output, 0));
    assert_eq!(graph.get_output::<i64>(), Err(GraphError::InsufficientInputs { node: e }));
}

#[test]
fn three_connections_for_two_inputs_are_refused() {
    let mut graph = NodeGraph::new();
    let a = graph.add_node(ValueNode::new(3i64));
    let e = graph.add_node(Sum);
    graph.connect(socket(a, 0), socket(e, 0));
    graph.connect(socket(a, 0), socket(e, 1));
    graph.connect(socket(a, 0), socket(e, 1));
    let resolved = graph.get_output_of_node(e);
    assert_eq!(resolved.err(), Some(GraphError::InsufficientInputs { node: e }));
}

#[test]
fn diamond_evaluates_shared_source_twice() {
    let calls = Rc::new(Cell::new(0));
    let mut graph = NodeGraph::new();
    let f = graph.add_node(Counting { calls: calls.clone() });
    let g = graph.add_node(Pass);
    let h = graph.add_node(Pass);
    let i = graph.add_node(Sum);
    let output = graph.add_node(OutputNode::<i64>::new());
    graph.connect(socket(f, 0), socket(g, 0));
    graph.connect(socket(f, 0), socket(h, 0));
    graph.connect(socket(g, 0), socket(i, 0));
    graph.connect(socket(h, 0), socket(i, 1));
    graph.connect(socket(i, 0), socket(output, 0));
    assert_eq!(graph.get_output::<i64>(), Ok(14));
    assert_eq!(calls.get(), 2);
}

#[test]
fn evaluating_twice_gives_the_same() {
    let mut graph = NodeGraph::new();
    let a = graph.add_node(ValueNode::new(40i64));
    let b = graph.add_node(ValueNode::new(2i64));
    let sum = graph.add_node(Sum);
    let output = graph.add_node(OutputNode::<i64>::new());
    graph.connect(socket(a, 0), socket(sum, 0));
    graph.connect(socket(b, 0), socket(sum, 1));
    graph.connect(socket(sum, 0), socket(output, 0));
    let first = graph.get_output::<i64>();
    let second = graph.get_output::<i64>();
    assert_eq!(first, Ok(42));
    assert_eq!(first, second);
}

#[test]
fn inputs_follow_sockets_not_the_order_of_connecting() {
    let mut forward = NodeGraph::new();
    let a = forward.add_node(ValueNode::new(10i64));
    let b = forward.add_node(ValueNode::new(3i64));
    let difference = forward.add_node(Difference);
    forward.connect(socket(a, 0), socket(difference, 0));
    forward.connect(socket(b, 0), socket(difference, 1));

    let mut backward = NodeGraph::new();
    let a = backward.add_node(ValueNode::new(10i64));
    let b = backward.add_node(ValueNode::new(3i64));
    let difference = backward.add_node(Difference);
    backward.connect(socket(b, 0), socket(difference, 1));
    backward.connect(socket(a, 0), socket(difference, 0));

    let one = forward.get_output_of_node(difference).unwrap();
    let other = backward.get_output_of_node(difference).unwrap();
    assert_eq!(one.len(), 1);
    assert_eq!(one[0].extract::<i64>(), Ok(7));
    assert_eq!(other[0].extract::<i64>(), Ok(7));
}

#[test]
fn three_inputs_connected_out_of_order() {
    let mut graph = NodeGraph::new();
    let yes = graph.add_node(ValueNode::new(true));
    let one = graph.add_node(ValueNode::new(1i64));
    let two = graph.add_node(ValueNode::new(2i64));
    let choose = graph.add_node(Choose);
    let output = graph.add_node(OutputNode::<i64>::new());
    graph.connect(socket(two, 0), socket(choose, 2));
    graph.connect(socket(yes, 0), socket(choose, 0));
    graph.connect(socket(one, 0), socket(choose, 1));
    graph.connect(socket(choose, 0), socket(output, 0));
    assert_eq!(graph.get_output::<i64>(), Ok(1));
}

#[test]
fn two_connections_into_one_socket_keep_their_order() {
    let mut graph = NodeGraph::new();
    let a = graph.add_node(ValueNode::new(10i64));
    let b = graph.add_node(ValueNode::new(3i64));
    let difference = graph.add_node(Difference);
    graph.connect(socket(a, 0), socket(difference, 0));
    graph.connect(socket(b, 0), socket(difference, 0));
    let cells = graph.get_output_of_node(difference).unwrap();
    assert_eq!(cells[0].extract::<i64>(), Ok(7));
}

#[test]
fn source_needs_no_connection_and_ignores_one() {
    let mut graph = NodeGraph::new();
    let a = graph.add_node(ValueNode::new(1i64));
    let b = graph.add_node(ValueNode::new(2i64));
    let output = graph.add_node(OutputNode::<i64>::new());
    graph.connect(socket(a, 0), socket(b, 0));
    graph.connect(socket(b, 0), socket(output, 0));
    assert_eq!(graph.get_output::<i64>(), Ok(2));
    let alone = graph.get_output_of_node(a).unwrap();
    assert_eq!(alone[0].extract::<i64>(), Ok(1));
}

#[test]
fn second_output_of_a_node_is_reached_by_its_socket() {
    let mut graph = NodeGraph::new();
    let a = graph.add_node(ValueNode::new(21i64));
    let split = graph.add_node(Split);
    let output = graph.add_node(OutputNode::<bool>::new());
    graph.connect(socket(a, 0), socket(split, 0));
    graph.connect(socket(split, 1), socket(output, 0));
    assert_eq!(graph.get_output::<bool>(), Ok(true));
    let both = graph.get_output_of_node(split).unwrap();
    assert_eq!(both.len(), 2);
    assert_eq!(both[0].extract::<i64>(), Ok(42));
    assert_eq!(both[1].extract::<bool>(), Ok(true));
}

#[test]
fn input_socket_out_of_range_is_reported() {
    let mut graph = NodeGraph::new();
    let a = graph.add_node(ValueNode::new(1i64));
    let sum = graph.add_node(Sum);
    graph.connect(socket(a, 0), socket(sum, 2));
    assert_eq!(
        graph.get_output_of_node(sum).err(),
        Some(GraphError::IndexOutOfRange { node: sum, socket: 2 })
    );
}

#[test]
fn output_socket_out_of_range_is_reported() {
    let mut graph = NodeGraph::new();
    let a = graph.add_node(ValueNode::new(1i64));
    let pass = graph.add_node(Pass);
    graph.connect(socket(a, 1), socket(pass, 0));
    assert_eq!(
        graph.get_output_of_node(pass).err(),
        Some(GraphError::IndexOutOfRange { node: a, socket: 1 })
    );
}

#[test]
fn first_fault_in_connection_order_decides() {
    let mut graph = NodeGraph::new();
    let number = graph.add_node(ValueNode::new(1i64));
    let text = graph.add_node(ValueNode::new(Text("a".to_string())));
    let sum = graph.add_node(Sum);
    graph.connect(socket(number, 3), socket(sum, 0));
    graph.connect(socket(text, 0), socket(sum, 1));
    assert_eq!(
        graph.get_output_of_node(sum).err(),
        Some(GraphError::IndexOutOfRange { node: number, socket: 3 })
    );
}

#[test]
fn fault_upstream_stops_the_evaluation() {
    let mut graph = NodeGraph::new();
    let text = graph.add_node(ValueNode::new(Text("a".to_string())));
    let pass = graph.add_node(Pass);
    let next = graph.add_node(Pass);
    let output = graph.add_node(OutputNode::<i64>::new());
    graph.connect(socket(text, 0), socket(pass, 0));
    graph.connect(socket(pass, 0), socket(next, 0));
    graph.connect(socket(next, 0), socket(output, 0));
    assert_eq!(
        graph.get_output::<i64>(),
        Err(GraphError::TypeMismatch {
            from_node: text,
            from_socket: 0,
            to_node: pass,
            to_socket: 0,
            expected: <i64 as Payload>::type_identity(),
            actual: Text::type_identity(),
        })
    );
}

#[test]
fn asking_the_output_for_another_type_is_unknown() {
    let mut graph = NodeGraph::new();
    let source = graph.add_node(ValueNode::new(5i64));
    let output = graph.add_node(OutputNode::<i64>::new());
    graph.connect(socket(source, 0), socket(output, 0));
    assert_eq!(
        graph.get_output::<Text>(),
        Err(GraphError::UnknownType {
            expected: Text::type_identity(),
            actual: <i64 as Payload>::type_identity(),
        })
    );
}

#[test]
fn last_output_node_added_wins() {
    let mut graph = NodeGraph::new();
    let one = graph.add_node(ValueNode::new(1i64));
    let two = graph.add_node(ValueNode::new(2i64));
    let first = graph.add_node(OutputNode::<i64>::new());
    let second = graph.add_node(OutputNode::<i64>::new());
    graph.connect(socket(one, 0), socket(first, 0));
    graph.connect(socket(two, 0), socket(second, 0));
    assert_eq!(graph.get_output::<i64>(), Ok(2));
}

#[test]
fn building_on_changes_no_earlier_result() {
    let mut graph = NodeGraph::new();
    let a = graph.add_node(ValueNode::new(3i64));
    let output = graph.add_node(OutputNode::<i64>::new());
    graph.connect(socket(a, 0), socket(output, 0));
    let before = graph.get_output::<i64>();
    assert_eq!(before, Ok(3));

    let b = graph.add_node(ValueNode::new(4i64));
    let sum = graph.add_node(Sum);
    assert_eq!(graph.get_output::<i64>(), Ok(3));
    graph.connect(socket(a, 0), socket(sum, 0));
    graph.connect(socket(b, 0), socket(sum, 1));
    let later = graph.add_node(OutputNode::<i64>::new());
    graph.connect(socket(sum, 0), socket(later, 0));
    assert_eq!(before, Ok(3));
    assert_eq!(graph.get_output::<i64>(), Ok(7));
    let still = graph.get_output_of_node(output).unwrap();
    assert_eq!(still[0].extract::<i64>(), Ok(3));
}

#[test]
fn text_flows_through_a_typed_node() {
    let mut graph = NodeGraph::new();
    let text = graph.add_node(ValueNode::new(Text("quiet".to_string())));
    let shout = graph.add_node(Shout);
    let output = graph.add_node(OutputNode::<Text>::new());
    graph.connect(socket(text, 0), socket(shout, 0));
    graph.connect(socket(shout, 0), socket(output, 0));
    assert_eq!(graph.get_output::<Text>(), Ok(Text("QUIET".to_string())));
}

#[test]
fn nodes_show_their_names_and_signatures() {
    let mut graph = NodeGraph::new();
    let a = graph.add_node(ValueNode::new(3i64));
    let sum = graph.add_node(Sum);
    let output = graph.add_node(OutputNode::<i64>::new());
    assert_eq!(graph.len(), 3);
    assert_eq!(graph.get_nodes().len(), 3);
    assert_eq!(graph.get_node(sum).name(), "Sum");
    assert_eq!(graph.get_node(sum).description(), "Adds two integers");
    assert_eq!(graph.get_node(a).name(), "node_graph::nodes::ValueNode");
    assert_eq!(graph.get_node(a).description(), "");
    assert_eq!(graph.get_node(output).name(), "node_graph::nodes::OutputNode");
    let unnamed = graph.add_node(Pass);
    assert_eq!(graph.get_node(unnamed).name(), "scenarios::Pass");
    assert!(!graph.get_node(unnamed).name().is_empty());
    assert_eq!(graph.get_nodes()[1].name(), "Sum");
    let integer = <i64 as Payload>::type_identity();
    assert_eq!(graph.get_node(sum).needed_types_input(), vec![integer, integer]);
    assert_eq!(graph.get_node(sum).needed_types_output(), vec![integer]);
    assert_eq!(graph.get_node(a).needed_types_input(), vec![]);
}

#[test]
fn connections_are_listed_by_the_node_they_end_at() {
    let mut graph = NodeGraph::new();
    let a = graph.add_node(ValueNode::new(3i64));
    let sum = graph.add_node(Sum);
    let output = graph.add_node(OutputNode::<i64>::new());
    assert_eq!(graph.get_connections(), vec![]);
    graph.connect(socket(sum, 0), socket(output, 0));
    graph.connect(socket(a, 0), socket(sum, 1));
    graph.connect(socket(a, 0), socket(sum, 0));
    let connections = graph.get_connections();
    assert_eq!(
        connections,
        vec![
            Connection::new(socket(a, 0), socket(sum, 1)),
            Connection::new(socket(a, 0), socket(sum, 0)),
            Connection::new(socket(sum, 0), socket(output, 0)),
        ]
    );
    assert_eq!(connections[0].from().node(), a);
    assert_eq!(connections[0].to().socket(), 1);
}

#[test]
fn long_chain_is_followed_to_its_source() {
    let mut graph = NodeGraph::new();
    let mut last = graph.add_node(ValueNode::new(9i64));
    for _ in 0..50 {
        let next = graph.add_node(Pass);
        graph.connect(socket(last, 0), socket(next, 0));
        last = next;
    }
    let output = graph.add_node(OutputNode::<i64>::new());
    graph.connect(socket(last, 0), socket(output, 0));
    assert_eq!(graph.get_output::<i64>(), Ok(9));
}

#[test]
fn graph_built_forwards_has_no_cycle_below_any_node() {
    let mut graph = NodeGraph::new();
    let a = graph.add_node(ValueNode::new(3i64));
    let sum = graph.add_node(Sum);
    let output = graph.add_node(OutputNode::<i64>::new());
    graph.connect(socket(sum, 0), socket(output, 0));
    graph.connect(socket(a, 0), socket(sum, 0));
    graph.connect(socket(a, 0), socket(sum, 1));
    assert!(graph.is_acyclic_below(a));
    assert!(graph.is_acyclic_below(sum));
    assert!(graph.is_acyclic_below(output));
    assert_eq!(graph.output_node(), Some(output));
}

#[test]
fn loop_through_two_nodes_is_a_cycle() {
    let mut graph = NodeGraph::new();
    let first = graph.add_node(Pass);
    let second = graph.add_node(Pass);
    let output = graph.add_node(OutputNode::<i64>::new());
    graph.connect(socket(first, 0), socket(second, 0));
    graph.connect(socket(second, 0), socket(output, 0));
    assert!(graph.is_acyclic_below(output));
    graph.connect(socket(second, 0), socket(first, 0));
    assert!(!graph.is_acyclic_below(first));
    assert!(!graph.is_acyclic_below(second));
    assert!(!graph.is_acyclic_below(output));
}

#[test]
fn node_fed_from_itself_is_a_cycle() {
    let mut graph = NodeGraph::new();
    let pass = graph.add_node(Pass);
    graph.connect(socket(pass, 0), socket(pass, 0));
    assert!(!graph.is_acyclic_below(pass));
}

#[test]
fn cycle_that_does_not_feed_the_output_does_no_harm() {
    let mut graph = NodeGraph::new();
    let source = graph.add_node(ValueNode::new(5i64));
    let output = graph.add_node(OutputNode::<i64>::new());
    let alone = graph.add_node(Pass);
    graph.connect(socket(source, 0), socket(output, 0));
    graph.connect(socket(alone, 0), socket(alone, 0));
    assert!(!graph.is_acyclic_below(alone));
    assert!(graph.is_acyclic_below(output));
    assert_eq!(graph.get_output::<i64>(), Ok(5));
}

#[test]
fn node_downstream_of_a_cycle_cannot_be_evaluated() {
    let mut graph = NodeGraph::new();
    let first = graph.add_node(Pass);
    let second = graph.add_node(Pass);
    let after = graph.add_node(Pass);
    let source = graph.add_node(ValueNode::new(1i64));
    graph.connect(socket(first, 0), socket(second, 0));
    graph.connect(socket(second, 0), socket(first, 0));
    graph.connect(socket(second, 0), socket(after, 0));
    assert!(!graph.is_acyclic_below(after));
    assert!(graph.is_acyclic_below(source));
}

#[test]
fn connections_into_sources_make_no_cycle() {
    let mut graph = NodeGraph::new();
    let a = graph.add_node(ValueNode::new(1i64));
    let b = graph.add_node(ValueNode::new(2i64));
    graph.connect(socket(a, 0), socket(b, 0));
    graph.connect(socket(b, 0), socket(a, 0));
    assert!(graph.is_acyclic_below(a));
    assert!(graph.is_acyclic_below(b));
    let cells = graph.get_output_of_node(a).unwrap();
    assert_eq!(cells[0].extract::<i64>(), Ok(1));
    assert_eq!(graph.connections_into(a).len(), 1);
    assert_eq!(graph.connections_from(a).len(), 1);
}

#[derive(Debug, Clone, PartialEq)]
struct Twin(i64);

impl Payload for Twin {
    fn identity() -> TypeIdentity {
        Self::type_identity()
    }

    fn encoding(&self) -> Encoding {
        unreachable!()
    }

    fn decoded(_: Encoding) -> Self {
        unreachable!()
    }

    fn type_identity() -> TypeIdentity {
        <i64 as Payload>::type_identity()
    }

    fn duplicate(&self) -> Self {
        self.clone()
    }
}

struct Untwin;

impl Node<(Twin,), (i64,)> for Untwin {
    fn fallback_name() -> String {
        "scenarios::Untwin".to_string()
    }

    fn operation_spec(&self, input: (Twin,)) -> (i64,) {
        self.operation(input)
    }

    fn operation(&self, input: (Twin,)) -> (i64,) {
        (input.0 .0,)
    }
}

#[test]
fn two_types_with_one_identity_end_in_a_clash() {
    let mut graph = NodeGraph::new();
    let source = graph.add_node(ValueNode::new(7i64));
    let untwin = graph.add_node(Untwin);
    let output = graph.add_node(OutputNode::<i64>::new());
    graph.connect(socket(source, 0), socket(untwin, 0));
    graph.connect(socket(untwin, 0), socket(output, 0));
    let shared = <i64 as Payload>::type_identity();
    let clash = GraphError::UnknownType { expected: shared, actual: shared };
    assert!(clash.is_clash());
    assert_eq!(graph.get_output::<i64>(), Err(clash));
    assert_eq!(graph.get_output_of_node(untwin).err(), Some(clash));
    assert_eq!(graph.get_output::<Twin>(), Err(clash));
    let own = graph.get_output_of_node(source).unwrap();
    assert_eq!(own[0].extract::<i64>(), Ok(7));
    assert_eq!(own[0].extract::<Twin>(), Err(clash));
    assert!(!GraphError::MissingOutputNode.is_clash());
    assert!(!GraphError::UnknownType { expected: shared, actual: Text::type_identity() }.is_clash());
}
