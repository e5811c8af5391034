use node_graph::error::GraphError;
use node_graph::identity::TypeIdentity;
use node_graph::label::{choose_name, decimal};

#[test]
fn decimal_writes_digits_without_leading_zeros() {
    assert_eq!(decimal(0), "0");
    assert_eq!(decimal(7), "7");
    assert_eq!(decimal(10), "10");
    assert_eq!(decimal(909), "909");
    assert_eq!(decimal(1234567890), "1234567890");
    assert_eq!(decimal(u64::MAX), "18446744073709551615");
}

#[test]
fn own_name_is_shown_where_there_is_one() {
    assert_eq!(choose_name("Merge".to_string(), "app::MergeNode".to_string()), "Merge");
    assert_eq!(choose_name(String::new(), "app::MergeNode".to_string()), "app::MergeNode");
}

#[test]
fn each_error_says_what_it_names() {
    assert_eq!(GraphError::MissingOutputNode.message(), "Output node not found");
    assert_eq!(
        GraphError::InsufficientInputs { node: 12 }.message(),
        "Not enough inputs for node 12"
    );
    assert_eq!(
        GraphError::IndexOutOfRange { node: 3, socket: 40 }.message(),
        "No socket 40 at node 3"
    );
    assert_eq!(
        GraphError::UnknownType { expected: TypeIdentity::new(5), actual: TypeIdentity::new(100) }
            .message(),
        "Wrong type, expected 5, got 100"
    );
    assert_eq!(
        GraphError::TypeMismatch {
            from_node: 0,
            from_socket: 1,
            to_node: 2,
            to_socket: 3,
            expected: TypeIdentity::new(10),
            actual: TypeIdentity::new(64),
        }
        .message(),
        "Invalid type for input, expected 10, got 64. From node: 0, socket: 1, to node: 2, socket: 3"
    );
}
