//! The nodes that the engine brings with it.
use vstd::prelude::*;
use vstd::string::StringExecFns;
use std::marker::PhantomData;
use crate::identity::Payload;
use crate::node::Node;

verus! {

/// The sink of a graph. It hands on the payload that it is fed: its use is
/// to mark where the result of the graph is taken.
pub struct OutputNode<T> {
    _payload: PhantomData<T>,
}

impl<T> OutputNode<T> {
    pub fn new() -> (made: Self) {
        OutputNode { _payload: PhantomData }
    }
}

impl<T: Payload> Node<(T,), (T,)> for OutputNode<T> {
    open spec fn operation_spec(&self, input: (T,)) -> (T,) {
        input
    }

    fn operation(&self, input: (T,)) -> (output: (T,)) {
        input
    }

    fn fallback_name() -> (name: String)
        ensures
            name@ == "node_graph::nodes::OutputNode"@,
    {
        String::from_str("node_graph::nodes::OutputNode")
    }

    fn is_output() -> (marker: bool)
        ensures
            marker,
    {
        true
    }
}

/// A source that gives the same payload each time.
pub struct ValueNode<T> {
    value: T,
}

impl<T> ValueNode<T> {
    /// The payload that the node gives.
    pub closed spec fn value_spec(&self) -> T {
        self.value
    }

    pub fn new(value: T) -> (made: Self)
        ensures
            made.value_spec() == value,
    {
        Self { value }
    }
}

impl<T: Payload> Node<((),), (T,)> for ValueNode<T> {
    open spec fn operation_spec(&self, input: ((),)) -> (T,) {
        (self.value_spec(),)
    }

    fn operation(&self, input: ((),)) -> (output: (T,)) {
        (self.value.duplicate(),)
    }

    fn fallback_name() -> (name: String)
        ensures
            name@ == "node_graph::nodes::ValueNode"@,
    {
        String::from_str("node_graph::nodes::ValueNode")
    }
}

} // verus!
