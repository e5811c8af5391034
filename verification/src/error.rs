//! The ways in which an evaluation can fail.
use vstd::prelude::*;
use vstd::string::StringExecFns;
use crate::identity::TypeIdentity;
use crate::label::decimal;
use crate::label::decimal_spec;

verus! {

/// Why an evaluation stopped.
///
/// Each of these is final for the evaluation that met it: nothing is retried,
/// nothing is replaced by a default, and no other branch is tried.
#[derive(Clone, Copy, Debug, PartialEq, Eq, Structural)]
pub enum GraphError {
    /// A connection joins an output socket of one type to an input socket of another.
    TypeMismatch {
        from_node: usize,
        from_socket: usize,
        to_node: usize,
        to_socket: usize,
        /// What the input socket declares.
        expected: TypeIdentity,
        /// What the output socket declares.
        actual: TypeIdentity,
    },
    /// The connections that feed a node are not as many as the inputs it declares.
    InsufficientInputs { node: usize },
    /// The graph has no output node.
    MissingOutputNode,
    /// A cell was asked for a payload of a type that it does not hold.
    UnknownType { expected: TypeIdentity, actual: TypeIdentity },
    /// A connection names a socket that its node does not declare.
    IndexOutOfRange { node: usize, socket: usize },
}

impl GraphError {
    /// Whether the error says that a cell carried the identity that was asked
    /// for and yet held a payload of another type. That happens only where
    /// two payload types share an identity.
    pub open spec fn is_clash_spec(&self) -> bool {
        *self matches GraphError::UnknownType { expected, actual } && expected == actual
    }

    /// Whether the error tells of two payload types that share an identity.
    pub fn is_clash(&self) -> (clash: bool)
        ensures
            clash == self.is_clash_spec(),
    {
        match *self {
            GraphError::UnknownType { expected, actual } => expected == actual,
            _ => false,
        }
    }

    /// What the error says, in words, with the nodes, sockets and identities
    /// that it names written in decimal.
    pub open spec fn message_spec(&self) -> Seq<char> {
        match *self {
            GraphError::TypeMismatch { from_node, from_socket, to_node, to_socket, expected, actual } => {
                "Invalid type for input, expected "@ + decimal_spec(expected.key as nat) + ", got "@
                    + decimal_spec(actual.key as nat) + ". From node: "@ + decimal_spec(
                    from_node as nat,
                ) + ", socket: "@ + decimal_spec(from_socket as nat) + ", to node: "@
                    + decimal_spec(to_node as nat) + ", socket: "@ + decimal_spec(to_socket as nat)
            },
            GraphError::InsufficientInputs { node } => {
                "Not enough inputs for node "@ + decimal_spec(node as nat)
            },
            GraphError::MissingOutputNode => "Output node not found"@,
            GraphError::UnknownType { expected, actual } => {
                "Wrong type, expected "@ + decimal_spec(expected.key as nat) + ", got "@
                    + decimal_spec(actual.key as nat)
            },
            GraphError::IndexOutOfRange { node, socket } => {
                "No socket "@ + decimal_spec(socket as nat) + " at node "@ + decimal_spec(
                    node as nat,
                )
            },
        }
    }

    /// What the error says, in words.
    pub fn message(&self) -> (text: String)
        ensures
            text@ == self.message_spec(),
    {
        match *self {
            GraphError::TypeMismatch { from_node, from_socket, to_node, to_socket, expected, actual } => {
                let mut text = String::from_str("Invalid type for input, expected ");
                text.append(decimal(expected.key()).as_str());
                text.append(", got ");
                text.append(decimal(actual.key()).as_str());
                text.append(". From node: ");
                text.append(decimal(from_node as u64).as_str());
                text.append(", socket: ");
                text.append(decimal(from_socket as u64).as_str());
                text.append(", to node: ");
                text.append(decimal(to_node as u64).as_str());
                text.append(", socket: ");
                text.append(decimal(to_socket as u64).as_str());
                text
            },
            GraphError::InsufficientInputs { node } => {
                let mut text = String::from_str("Not enough inputs for node ");
                text.append(decimal(node as u64).as_str());
                text
            },
            GraphError::MissingOutputNode => String::from_str("Output node not found"),
            GraphError::UnknownType { expected, actual } => {
                let mut text = String::from_str("Wrong type, expected ");
                text.append(decimal(expected.key()).as_str());
                text.append(", got ");
                text.append(decimal(actual.key()).as_str());
                text
            },
            GraphError::IndexOutOfRange { node, socket } => {
                let mut text = String::from_str("No socket ");
                text.append(decimal(socket as u64).as_str());
                text.append(" at node ");
                text.append(decimal(node as u64).as_str());
                text
            },
        }
    }
}

/// Whether `given` is what was `meant`, or else tells of a clash of
/// identities. Opening a cell is left to the standard library, which goes by
/// the type of the payload and not by its identity: where the two part, an
/// evaluation ends with a clash in place of what its meaning says.
pub open spec fn stands<A>(given: Result<A, GraphError>, meant: Result<A, GraphError>) -> bool {
    given == meant || (given matches Err(e) && e.is_clash_spec())
}

} // verus!
