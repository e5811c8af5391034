use node_graph::cell::ValueCell;
use node_graph::error::GraphError;
use node_graph::identity::{Payload, TypeIdentity};
use node_graph::node::{Node, NodeGraph, NodeSocket};
use node_graph::signature::{check_identities, InputOrOutput};

fn id<T: Payload>() -> TypeIdentity {
    T::type_identity()
}

#[test]
fn empty_signature_declares_nothing() {
    assert_eq!(<((),) as InputOrOutput>::needed_types(), vec![]);
    assert_eq!(<((),) as InputOrOutput>::convert(vec![]), Ok(((),)));
    assert_eq!(<((),) as InputOrOutput>::convert_output(&((),)).len(), 0);
}

#[test]
fn signature_lists_identities_in_declared_order() {
    assert_eq!(<(i64,) as InputOrOutput>::needed_types(), vec![id::<i64>()]);
    assert_eq!(
        <(bool, u8, i64) as InputOrOutput>::needed_types(),
        vec![id::<bool>(), id::<u8>(), id::<i64>()]
    );
    assert_eq!(<((), u8) as InputOrOutput>::needed_types(), vec![id::<()>(), id::<u8>()]);
}

#[test]
fn tuple_goes_to_cells_and_back() {
    let cells = <(bool, u8, i64) as InputOrOutput>::convert_output(&(true, 7, -3));
    assert_eq!(cells.len(), 3);
    assert_eq!(cells[0].type_identity(), id::<bool>());
    assert_eq!(cells[1].extract::<u8>(), Ok(7));
    let refs: Vec<&ValueCell> = cells.iter().collect();
    assert_eq!(<(bool, u8, i64) as InputOrOutput>::convert(refs), Ok((true, 7, -3)));
}

#[test]
fn first_cell_of_the_wrong_type_is_named() {
    let cells = vec![ValueCell::new(&true), ValueCell::new(&1i64), ValueCell::new(&'c')];
    let refs: Vec<&ValueCell> = cells.iter().collect();
    assert_eq!(
        <(bool, u8, i64) as InputOrOutput>::convert(refs),
        Err(GraphError::UnknownType { expected: id::<u8>(), actual: id::<i64>() })
    );
}

#[test]
fn identities_are_checked_in_order() {
    let cells = vec![ValueCell::new(&true), ValueCell::new(&1i64)];
    let refs: Vec<&ValueCell> = cells.iter().collect();
    assert_eq!(check_identities(&refs, &vec![id::<bool>(), id::<i64>()]), Ok(()));
    assert_eq!(
        check_identities(&refs, &vec![id::<u8>(), id::<u8>()]),
        Err(GraphError::UnknownType { expected: id::<u8>(), actual: id::<bool>() })
    );
    assert_eq!(check_identities(&vec![], &vec![]), Ok(()));
}

type Twenty = (
    u8, u8, u8, u8, u8, u8, u8, u8, u8, u8,
    u8, u8, u8, u8, u8, u8, u8, u8, u8, u8,
);

struct Spread;

impl Node<(u8,), Twenty> for Spread {
    fn fallback_name() -> String {
        "signature::Spread".to_string()
    }

    fn operation_spec(&self, input: (u8,)) -> Twenty {
        self.operation(input)
    }

    fn operation(&self, input: (u8,)) -> Twenty {
        let b = input.0;
        (
            b, b + 1, b + 2, b + 3, b + 4, b + 5, b + 6, b + 7, b + 8, b + 9,
            b + 10, b + 11, b + 12, b + 13, b + 14, b + 15, b + 16, b + 17, b + 18, b + 19,
        )
    }
}

struct Weigh;

impl Node<Twenty, (u64,)> for Weigh {
    fn fallback_name() -> String {
        "signature::Weigh".to_string()
    }

    fn operation_spec(&self, input: Twenty) -> (u64,) {
        self.operation(input)
    }

    fn operation(&self, t: Twenty) -> (u64,) {
        let all = [
            t.0, t.1, t.2, t.3, t.4, t.5, t.6, t.7, t.8, t.9,
            t.10, t.11, t.12, t.13, t.14, t.15, t.16, t.17, t.18, t.19,
        ];
        let mut weight: u64 = 0;
        for (place, value) in all.iter().enumerate() {
            weight += (place as u64 + 1) * (*value as u64);
        }
        (weight,)
    }
}

struct Start;

impl Node<((),), (u8,)> for Start {
    fn fallback_name() -> String {
        "signature::Start".to_string()
    }

    fn operation_spec(&self, input: ((),)) -> (u8,) {
        self.operation(input)
    }

    fn operation(&self, _: ((),)) -> (u8,) {
        (1,)
    }
}

#[test]
fn twenty_sockets_are_fed_each_from_its_own() {
    let mut graph = NodeGraph::new();
    let start = graph.add_node(Start);
    let spread = graph.add_node(Spread);
    let weigh = graph.add_node(Weigh);
    graph.connect(NodeSocket::new(start, 0), NodeSocket::new(spread, 0));
    for place in (0..20).rev() {
        graph.connect(NodeSocket::new(spread, place), NodeSocket::new(weigh, place));
    }
    assert_eq!(graph.get_node(weigh).needed_types_input().len(), 20);
    let cells = graph.get_output_of_node(weigh).unwrap();
    let expected: u64 = (0..20u64).map(|place| (place + 1) * (place + 1)).sum();
    assert_eq!(cells[0].extract::<u64>(), Ok(expected));
}
