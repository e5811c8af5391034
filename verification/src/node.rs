//! Nodes, sockets, connections and the graph that holds them.
use vstd::prelude::*;
use std::marker::PhantomData;
use crate::cell::views_of;
use crate::cell::views_of_refs;
use crate::cell::CellView;
use crate::cell::ValueCell;
use crate::error::stands;
use crate::error::GraphError;
use crate::identity::Payload;
use crate::identity::TypeIdentity;
use crate::label::choose_name;
use crate::label::shown_name;
use crate::ordering::fed_views;
use crate::ordering::lemma_ordered_len;
use crate::ordering::order_by_socket;
use crate::signature::identities_of;
use crate::signature::InputOrOutput;

verus! {

/// One socket of one node: the node's index in the graph, and the place of
/// the socket among the node's inputs or among its outputs.
#[derive(Clone, Copy, Debug, PartialEq, Eq, Structural)]
pub struct NodeSocket {
    pub node: usize,
    pub socket: usize,
}

impl NodeSocket {
    pub fn new(node: usize, socket: usize) -> (made: Self)
        ensures
            made.node == node,
            made.socket == socket,
    {
        Self { node, socket }
    }

    pub fn node(&self) -> (node: usize)
        ensures
            node == self.node,
    {
        self.node
    }

    pub fn socket(&self) -> (socket: usize)
        ensures
            socket == self.socket,
    {
        self.socket
    }
}

/// A directed edge, from an output socket to an input socket.
#[derive(Clone, Copy, Debug, PartialEq, Eq, Structural)]
pub struct Connection {
    pub from: NodeSocket,
    pub to: NodeSocket,
}

impl Connection {
    pub fn new(from: NodeSocket, to: NodeSocket) -> (made: Self)
        ensures
            made.from == from,
            made.to == to,
    {
        Self { from, to }
    }

    pub fn from(&self) -> (from: NodeSocket)
        ensures
            from == self.from,
    {
        self.from
    }

    pub fn to(&self) -> (to: NodeSocket)
        ensures
            to == self.to,
    {
        self.to
    }
}

/// Whether what an operation gave is what its meaning says: the same cells,
/// seen through their views, or the same error.
pub open spec fn outcome_matches(
    output: Result<Vec<ValueCell>, GraphError>,
    meaning: Result<Seq<CellView>, GraphError>,
) -> bool {
    match (output, meaning) {
        (Ok(cells), Ok(views)) => views_of(cells@) == views,
        (Err(e), Err(f)) => e == f,
        _ => false,
    }
}

/// Whether what an operation gave is what its meaning says, or else tells of
/// a clash of identities.
pub open spec fn outcome_stands(
    output: Result<Vec<ValueCell>, GraphError>,
    meaning: Result<Seq<CellView>, GraphError>,
) -> bool {
    outcome_matches(output, meaning) || (output matches Err(e) && e.is_clash_spec())
}

/// An operation with a typed signature: from a tuple of inputs to a tuple of
/// outputs.
///
/// `operation_spec` is what the operation means. An operation may do other
/// things besides (write a log, count its calls), but what it returns is what
/// `operation_spec` says, each time.
pub trait Node<I, O> where
    I: InputOrOutput<T = I> + 'static + Sized,
    O: InputOrOutput<T = O> + 'static + Sized,
 {
    /// What the operation gives for `input`. Contracts speak of it; it is
    /// never called when the program runs.
    spec fn operation_spec(&self, input: I) -> O;

    /// Runs the operation.
    fn operation(&self, input: I) -> (output: O)
        ensures
            output == self.operation_spec(input),
    ;

    /// The name to show. Empty by default: the node is then shown under
    /// its fallback name.
    fn name() -> (name: String)
        default_ensures
            name@ == Seq::<char>::empty(),
    {
        String::new()
    }

    /// The name to show where the node has none of its own: the name of the
    /// type of the node.
    fn fallback_name() -> (name: String)
    ;

    /// The description to show. Empty by default.
    fn description() -> (description: String)
        default_ensures
            description@ == Seq::<char>::empty(),
    {
        String::new()
    }

    /// Whether this kind of node marks the output of a graph.
    fn is_output() -> (marker: bool)
        default_ensures
            !marker,
    {
        false
    }
}

/// A node as the graph sees it: an operation on cells, with the identities
/// that it declares for its sockets.
pub trait NodeAny {
    /// The identities of the input sockets, in order.
    spec fn input_types(&self) -> Seq<TypeIdentity>;

    /// The identities of the output sockets, in order.
    spec fn output_types(&self) -> Seq<TypeIdentity>;

    /// What the operation makes of a list of cells.
    spec fn apply(&self, input: Seq<CellView>) -> Result<Seq<CellView>, GraphError>;

    /// The name that the node is shown under.
    spec fn name_spec(&self) -> Seq<char>;

    /// The description that the node is shown with.
    spec fn description_spec(&self) -> Seq<char>;

    /// Runs the operation. It is handed one cell for each input socket, and
    /// what it gives carries the identities of the output sockets.
    fn operation(&self, input: Vec<&ValueCell>) -> (output: Result<Vec<ValueCell>, GraphError>)
        requires
            input@.len() == self.input_types().len(),
        ensures
            outcome_stands(output, self.apply(views_of_refs(input@))),
            self.apply(views_of_refs(input@)) is Err ==> outcome_matches(
                output,
                self.apply(views_of_refs(input@)),
            ),
            output matches Ok(cells) ==> identities_of(views_of(cells@)) == self.output_types(),
    ;

    /// The identities of the input sockets, in order.
    fn needed_types_input(&self) -> (types: Vec<TypeIdentity>)
        ensures
            types@ == self.input_types(),
    ;

    /// The identities of the output sockets, in order.
    fn needed_types_output(&self) -> (types: Vec<TypeIdentity>)
        ensures
            types@ == self.output_types(),
    ;

    /// The name that the node is shown under.
    fn name(&self) -> (name: &str)
        ensures
            name@ == self.name_spec(),
    ;

    /// The description that the node is shown with.
    fn description(&self) -> (description: &str)
        ensures
            description@ == self.description_spec(),
    ;
}

/// What a typed operation makes of a list of cells: the inputs are assembled,
/// the operation is applied, and its outputs are taken apart.
pub open spec fn erased_apply<N, I, O>(node: N, input: Seq<CellView>) -> Result<
    Seq<CellView>,
    GraphError,
> where
    N: Node<I, O>,
    I: InputOrOutput<T = I> + 'static,
    O: InputOrOutput<T = O> + 'static,
 {
    match I::assemble(input) {
        Err(e) => Err(e),
        Ok(typed) => Ok(O::disassemble(node.operation_spec(typed))),
    }
}

/// A typed operation behind the type-erased face of `NodeAny`.
#[verifier::reject_recursive_types(N)]
#[verifier::reject_recursive_types(I)]
#[verifier::reject_recursive_types(O)]
pub struct DynNode<N, I, O> where
    N: Node<I, O>,
    I: InputOrOutput<T = I> + 'static,
    O: InputOrOutput<T = O> + 'static,
 {
    node: N,
    _phantom: PhantomData<(I, O)>,
    name: String,
    description: String,
}

impl<N, I, O> DynNode<N, I, O> where
    N: Node<I, O>,
    I: InputOrOutput<T = I> + 'static,
    O: InputOrOutput<T = O> + 'static,
 {
    /// The operation that is wrapped.
    pub closed spec fn inner(&self) -> N {
        self.node
    }

    /// Wraps an operation. The description is the operation's own; the name
    /// is its own too, or its fallback name where it has none.
    pub fn from(node: N) -> (wrapped: Self)
        ensures
            wrapped.inner() == node,
            exists|own: String, fallback: String|
                call_ensures(N::name, (), own) && call_ensures(N::fallback_name, (), fallback)
                    && wrapped.name_spec() == shown_name(own@, fallback@),
            exists|own: String|
                call_ensures(N::description, (), own) && wrapped.description_spec() == own@,
    {
        let own = N::name();
        let fallback = N::fallback_name();
        let ghost own_name = own;
        let ghost fallback_name = fallback;
        let name = choose_name(own, fallback);
        let description = N::description();
        let wrapped = Self { node, _phantom: PhantomData, name, description };
        assert(call_ensures(N::name, (), own_name) && call_ensures(
            N::fallback_name,
            (),
            fallback_name,
        ) && wrapped.name_spec() == shown_name(own_name@, fallback_name@));
        assert(call_ensures(N::description, (), description) && wrapped.description_spec()
            == description@);
        wrapped
    }
}

impl<N, I, O> NodeAny for DynNode<N, I, O> where
    N: Node<I, O>,
    I: InputOrOutput<T = I> + 'static,
    O: InputOrOutput<T = O> + 'static,
 {
    open spec fn input_types(&self) -> Seq<TypeIdentity> {
        I::types()
    }

    open spec fn output_types(&self) -> Seq<TypeIdentity> {
        O::types()
    }

    open spec fn apply(&self, input: Seq<CellView>) -> Result<Seq<CellView>, GraphError> {
        erased_apply::<N, I, O>(self.inner(), input)
    }

    closed spec fn name_spec(&self) -> Seq<char> {
        self.name@
    }

    closed spec fn description_spec(&self) -> Seq<char> {
        self.description@
    }

    fn operation(&self, input: Vec<&ValueCell>) -> (output: Result<Vec<ValueCell>, GraphError>) {
        let typed = I::convert(input)?;
        let result = self.node.operation(typed);
        proof {
            O::lemma_disassemble_types(result);
        }
        Ok(O::convert_output(&result))
    }

    fn needed_types_input(&self) -> (types: Vec<TypeIdentity>) {
        I::needed_types()
    }

    fn needed_types_output(&self) -> (types: Vec<TypeIdentity>) {
        O::needed_types()
    }

    fn name(&self) -> (name: &str) {
        self.name.as_str()
    }

    fn description(&self) -> (description: &str) {
        self.description.as_str()
    }
}

/// A node of the graph, with the connections that end at it and those that
/// start from it. `B` is the way the node is held: the graph holds each node
/// in a box, as a `dyn NodeAny`.
struct NodeGraphElement<B> {
    node: B,
    inputs: Vec<Connection>,
    outputs: Vec<Connection>,
}

impl<B> NodeGraphElement<B> {
    fn new(node: B) -> (element: Self)
        ensures
            element.node == node,
            element.inputs@ == Seq::<Connection>::empty(),
            element.outputs@ == Seq::<Connection>::empty(),
    {
        NodeGraphElement { node, inputs: Vec::new(), outputs: Vec::new() }
    }
}

/// Nodes in the order in which they were added, the connections between
/// their sockets, and the output node, if one was added.
///
/// A node's index is its place in that order. Nodes are never removed, so an
/// index stays good for as long as the graph lives.
pub struct NodeGraph {
    output_node: Option<usize>,
    nodes_elements: Vec<NodeGraphElement<Box<dyn NodeAny>>>,
}

impl NodeGraph {
    /// Whether the operation of the node at `index` keeps to what the node
    /// declares: what it gives carries the identities of the outputs, and it
    /// fails only where it is handed other identities than those of the
    /// inputs, by the error that says so.
    pub open spec fn keeps_types(&self, index: int) -> bool {
        forall|input: Seq<CellView>|
            match #[trigger] self.apply(index, input) {
                Ok(cells) => identities_of(cells) == self.output_types(index),
                Err(fault) => fault is UnknownType && !fault.is_clash_spec() && identities_of(
                    input,
                ) != self.input_types(index),
            }
    }

    /// Whether the graph is well formed: the output node, if there is one,
    /// is a node of the graph that declares one output, every node gives
    /// what it declares, and every connection is kept at the two nodes that
    /// it joins.
    pub open spec fn wf(&self) -> bool {
        &&& self.output_spec() matches Some(output) ==> output < self.node_count()
            && self.output_types(output as int).len() == 1
        &&& forall|index: int| 0 <= index < self.node_count() ==> #[trigger] self.keeps_types(index)
        &&& forall|node: int, at: int|
            0 <= node < self.node_count() && 0 <= at < self.incoming(node).len() ==> {
                &&& (#[trigger] self.incoming(node)[at]).to.node == node
                &&& self.incoming(node)[at].from.node < self.node_count()
            }
        &&& forall|node: int, at: int|
            0 <= node < self.node_count() && 0 <= at < self.outgoing(node).len() ==> {
                &&& (#[trigger] self.outgoing(node)[at]).from.node == node
                &&& self.outgoing(node)[at].to.node < self.node_count()
            }
    }

    /// How many nodes the graph holds.
    pub closed spec fn node_count(&self) -> nat {
        self.nodes_elements@.len()
    }

    /// The identities that the node at `index` declares for its inputs.
    pub closed spec fn input_types(&self, index: int) -> Seq<TypeIdentity> {
        self.nodes_elements@[index].node.input_types()
    }

    /// The identities that the node at `index` declares for its outputs.
    pub closed spec fn output_types(&self, index: int) -> Seq<TypeIdentity> {
        self.nodes_elements@[index].node.output_types()
    }

    /// What the operation of the node at `index` makes of a list of cells.
    pub closed spec fn apply(&self, index: int, input: Seq<CellView>) -> Result<
        Seq<CellView>,
        GraphError,
    > {
        self.nodes_elements@[index].node.apply(input)
    }

    /// The name of the node at `index`.
    pub closed spec fn name_spec(&self, index: int) -> Seq<char> {
        self.nodes_elements@[index].node.name_spec()
    }

    /// The description of the node at `index`.
    pub closed spec fn description_spec(&self, index: int) -> Seq<char> {
        self.nodes_elements@[index].node.description_spec()
    }

    /// The connections that end at the node at `index`, in the order in which
    /// they were made.
    pub closed spec fn incoming(&self, index: int) -> Seq<Connection> {
        self.nodes_elements@[index].inputs@
    }

    /// The connections that start from the node at `index`, in the order in
    /// which they were made.
    pub closed spec fn outgoing(&self, index: int) -> Seq<Connection> {
        self.nodes_elements@[index].outputs@
    }

    /// The index of the output node.
    pub closed spec fn output_spec(&self) -> Option<usize> {
        self.output_node
    }

    /// The connections that end at the first `upto` nodes, node by node.
    pub open spec fn connections_spec(&self, upto: nat) -> Seq<Connection>
        decreases upto,
    {
        if upto == 0 {
            Seq::empty()
        } else {
            self.connections_spec((upto - 1) as nat) + self.incoming(upto - 1)
        }
    }

    /// Whether the node at `index` is the same in `self` and in `other`:
    /// it declares the same, does the same and is shown the same.
    pub open spec fn same_node(&self, other: &NodeGraph, index: int) -> bool {
        &&& self.input_types(index) == other.input_types(index)
        &&& self.output_types(index) == other.output_types(index)
        &&& forall|input: Seq<CellView>| #[trigger]
            self.apply(index, input) == other.apply(index, input)
        &&& self.name_spec(index) == other.name_spec(index)
        &&& self.description_spec(index) == other.description_spec(index)
    }

    /// Whether each of the first `upto` nodes is the same in `self` and in
    /// `other`.
    pub open spec fn same_nodes(&self, other: &NodeGraph, upto: nat) -> bool {
        &&& forall|index: int|
            0 <= index < upto ==> #[trigger] self.input_types(index) == other.input_types(index)
        &&& forall|index: int|
            0 <= index < upto ==> #[trigger] self.output_types(index) == other.output_types(
                index,
            )
        &&& forall|index: int, input: Seq<CellView>|
            0 <= index < upto ==> #[trigger] self.apply(index, input) == other.apply(index, input)
        &&& forall|index: int|
            0 <= index < upto ==> #[trigger] self.name_spec(index) == other.name_spec(index)
        &&& forall|index: int|
            0 <= index < upto ==> #[trigger] self.description_spec(index)
                == other.description_spec(index)
    }

    /// Whether `node` is the node at `index`.
    pub open spec fn shows<B: NodeAny + ?Sized>(&self, index: int, node: &B) -> bool {
        &&& node.input_types() == self.input_types(index)
        &&& node.output_types() == self.output_types(index)
        &&& forall|input: Seq<CellView>| #[trigger]
            node.apply(input) == self.apply(index, input)
        &&& node.name_spec() == self.name_spec(index)
        &&& node.description_spec() == self.description_spec(index)
    }

    /// Whether the node at `index` is the type-erased face of the typed
    /// operation `node`: it declares the identities of `I` and `O`, it
    /// applies `node` between assembling and taking apart, and it is shown
    /// under the name and the description that `N` gives.
    pub open spec fn registers<N, I, O>(&self, index: int, node: N) -> bool where
        N: Node<I, O>,
        I: InputOrOutput<T = I> + 'static,
        O: InputOrOutput<T = O> + 'static,
     {
        &&& self.input_types(index) == I::types()
        &&& self.output_types(index) == O::types()
        &&& forall|input: Seq<CellView>| #[trigger]
            self.apply(index, input) == erased_apply::<N, I, O>(node, input)
        &&& exists|own: String, fallback: String|
            call_ensures(N::name, (), own) && call_ensures(N::fallback_name, (), fallback)
                && self.name_spec(index) == shown_name(own@, fallback@)
        &&& exists|own: String|
            call_ensures(N::description, (), own) && self.description_spec(index) == own@
    }

    /// Whether `self` holds the nodes of `before`, unchanged and in their
    /// places, with their connections.
    pub open spec fn extends(&self, before: &NodeGraph) -> bool {
        &&& before.node_count() <= self.node_count()
        &&& self.same_nodes(before, before.node_count())
        &&& forall|index: int|
            0 <= index < before.node_count() ==> #[trigger] self.incoming(index)
                == before.incoming(index)
        &&& forall|index: int|
            0 <= index < before.node_count() ==> #[trigger] self.outgoing(index)
                == before.outgoing(index)
    }

    /// A graph without nodes.
    pub fn new() -> (graph: Self)
        ensures
            graph.wf(),
            graph.node_count() == 0,
            graph.output_spec() is None,
    {
        Self { nodes_elements: Vec::new(), output_node: None }
    }

    /// Adds a node and gives its index.
    ///
    /// Where the node's kind marks the output and its two signatures have one
    /// slot each, the node becomes the output node of the graph, in place of
    /// any earlier one.
    pub fn add_node<N, I, O>(&mut self, node: N) -> (index: usize) where
        I: InputOrOutput<T = I> + 'static,
        O: InputOrOutput<T = O> + 'static,
        N: Node<I, O> + 'static,

        requires
            old(self).wf(),
        ensures
            final(self).wf(),
            index == old(self).node_count(),
            final(self).node_count() == old(self).node_count() + 1,
            final(self).extends(old(self)),
            forall|earlier: int|
                0 <= earlier < old(self).node_count() && old(self).acyclic_below(earlier)
                    ==> #[trigger] final(self).acyclic_below(earlier),
            final(self).acyclic_below(index as int),
            final(self).registers::<N, I, O>(index as int, node),
            final(self).incoming(index as int) == Seq::<Connection>::empty(),
            final(self).outgoing(index as int) == Seq::<Connection>::empty(),
            exists|marker: bool|
                call_ensures(N::is_output, (), marker) && final(self).output_spec() == (if marker
                    && I::types().len() == 1 && O::types().len() == 1 {
                    Some(index)
                } else {
                    old(self).output_spec()
                }),
    {
        let wrapped = DynNode::<N, I, O>::from(node);
        let erased: Box<dyn NodeAny> = Box::new(wrapped);
        let element = NodeGraphElement::new(erased);
        self.nodes_elements.push(element);
        let index: usize = self.nodes_elements.len() - 1;
        let marker = N::is_output();
        if marker && I::needed_types().len() == 1 && O::needed_types().len() == 1 {
            self.output_node = Some(index);
        }
        proof {
            assert forall|at: int| 0 <= at < self.node_count() implies #[trigger] self.keeps_types(
                at,
            ) by {
                if at < old(self).node_count() {
                    assert(self.same_node(old(self), at));
                    assert(old(self).keeps_types(at));
                } else {
                    assert forall|input: Seq<CellView>|
                        match #[trigger] self.apply(at, input) {
                            Ok(cells) => identities_of(cells) == self.output_types(at),
                            Err(fault) => fault is UnknownType && !fault.is_clash_spec()
                                && identities_of(input) != self.input_types(at),
                        } by {
                        I::lemma_assemble_faults(input);
                        if identities_of(input) == I::types() {
                            I::lemma_assemble_fitting(input);
                        }
                        O::lemma_disassemble_types(node.operation_spec(I::assemble(input)->Ok_0));
                    }
                }
            }
            assert forall|to: int, at: int|
                0 <= to < self.node_count() && 0 <= at < self.incoming(to).len() implies (
            #[trigger] self.incoming(to)[at]).to.node == to && self.incoming(to)[at].from.node
                < self.node_count() by {
                assert(old(self).incoming(to)[at].to.node == to);
            }
            assert forall|from: int, at: int|
                0 <= from < self.node_count() && 0 <= at < self.outgoing(from).len() implies (
            #[trigger] self.outgoing(from)[at]).from.node == from && self.outgoing(
                from,
            )[at].to.node < self.node_count() by {
                assert(old(self).outgoing(from)[at].from.node == from);
            }
        }
        proof {
            assert forall|earlier: int|
                0 <= earlier < old(self).node_count() && old(self).acyclic_below(
                    earlier,
                ) implies #[trigger] self.acyclic_below(earlier) by {
                old(self).lemma_extension_keeps_values(&*self, earlier);
            }
            self.lemma_unfed_is_acyclic(index as int);
        }
        index
    }

    /// Connects the output socket `from` to the input socket `to`.
    ///
    /// Nothing is checked here but that the two nodes exist: whether the
    /// sockets exist and whether their types agree is found when the graph is
    /// evaluated.
    pub fn connect(&mut self, from: NodeSocket, to: NodeSocket)
        requires
            old(self).wf(),
            from.node < old(self).node_count(),
            to.node < old(self).node_count(),
        ensures
            final(self).wf(),
            final(self).node_count() == old(self).node_count(),
            final(self).output_spec() == old(self).output_spec(),
            final(self).same_nodes(old(self), old(self).node_count()),
            forall|index: int|
                0 <= index < final(self).node_count() ==> #[trigger] final(self).incoming(index)
                    == (if index == to.node {
                    old(self).incoming(index).push(Connection { from, to })
                } else {
                    old(self).incoming(index)
                }),
            forall|index: int|
                0 <= index < final(self).node_count() ==> #[trigger] final(self).outgoing(index)
                    == (if index == from.node {
                    old(self).outgoing(index).push(Connection { from, to })
                } else {
                    old(self).outgoing(index)
                }),
    {
        self.nodes_elements[to.node].inputs.push(Connection { from, to });
        self.nodes_elements[from.node].outputs.push(Connection { from, to });
        proof {
            assert forall|at: int| 0 <= at < self.node_count() implies #[trigger] self.keeps_types(
                at,
            ) by {
                assert(self.same_node(old(self), at));
                assert(old(self).keeps_types(at));
            }
            assert forall|end: int, at: int|
                0 <= end < self.node_count() && 0 <= at < self.incoming(end).len() implies (
            #[trigger] self.incoming(end)[at]).to.node == end && self.incoming(end)[at].from.node
                < self.node_count() by {
                if at < old(self).incoming(end).len() {
                    assert(old(self).incoming(end)[at].to.node == end);
                }
            }
            assert forall|start: int, at: int|
                0 <= start < self.node_count() && 0 <= at < self.outgoing(start).len() implies (
            #[trigger] self.outgoing(start)[at]).from.node == start && self.outgoing(
                start,
            )[at].to.node < self.node_count() by {
                if at < old(self).outgoing(start).len() {
                    assert(old(self).outgoing(start)[at].from.node == start);
                }
            }
        }
    }

    /// Looks at one connection that feeds `node`: its sockets must exist, and
    /// they must declare the same type.
    fn check_connection(
        &self,
        node: usize,
        needed: &Vec<TypeIdentity>,
        connection: Connection,
    ) -> (checked: Result<(), GraphError>)
        requires
            node < self.node_count(),
            needed@ == self.input_types(node as int),
        ensures
            checked == self.check_spec(node as int, connection),
    {
        let from = connection.from;
        let to = connection.to;
        if to.socket >= needed.len() {
            return Err(GraphError::IndexOutOfRange { node: to.node, socket: to.socket });
        }
        if from.node >= self.nodes_elements.len() {
            return Err(GraphError::IndexOutOfRange { node: from.node, socket: from.socket });
        }
        let produced = self.nodes_elements[from.node].node.needed_types_output();
        if from.socket >= produced.len() {
            return Err(GraphError::IndexOutOfRange { node: from.node, socket: from.socket });
        }
        let expected = needed[to.socket];
        let actual = produced[from.socket];
        if expected != actual {
            return Err(
                GraphError::TypeMismatch {
                    from_node: from.node,
                    from_socket: from.socket,
                    to_node: to.node,
                    to_socket: to.socket,
                    expected,
                    actual,
                },
            );
        }
        Ok(())
    }

    /// Evaluates the node at `node`, descending along `rank`.
    fn resolve(&self, node: usize, Ghost(rank): Ghost<Seq<nat>>) -> (output: Result<
        Vec<ValueCell>,
        GraphError,
    >)
        requires
            node < self.node_count(),
            self.ranked_below(node as int, rank),
        ensures
            outcome_stands(output, self.resolve_ranked(rank, node as int)),
            !self.opens_ranked(rank, node as int) ==> outcome_matches(
                output,
                self.resolve_ranked(rank, node as int),
            ),
            output matches Ok(cells) ==> identities_of(views_of(cells@)) == self.output_types(
                node as int,
            ),
        decreases rank[node as int],
    {
        let needed = self.nodes_elements[node].node.needed_types_input();
        if needed.len() == 0 {
            let none: Vec<&ValueCell> = Vec::new();
            assert(views_of_refs(none@) =~= Seq::<CellView>::empty());
            return self.nodes_elements[node].node.operation(none);
        }
        let mut fed: Vec<(ValueCell, usize)> = Vec::new();
        let mut at: usize = 0;
        assert(fed_views(fed@) =~= Seq::<(CellView, usize)>::empty());
        while at < self.nodes_elements[node].inputs.len()
            invariant
                node < self.node_count(),
                self.ranked_below(node as int, rank),
                needed@ == self.input_types(node as int),
                needed@.len() > 0,
                at <= self.incoming(node as int).len(),
                fed@.len() == at,
                at > 0 ==> self.opens_ranked(rank, node as int),
                self.gather_ranked(rank, node as int, at as nat) == Ok::<
                    Seq<(CellView, usize)>,
                    GraphError,
                >(fed_views(fed@)),
                forall|i: int| 0 <= i < fed@.len() ==> (#[trigger] fed@[i]).1 < needed@.len(),
            decreases self.incoming(node as int).len() - at,
        {
            let connection = self.nodes_elements[node].inputs[at];
            let ghost count = self.incoming(node as int).len();
            match self.check_connection(node, &needed, connection) {
                Err(e) => {
                    proof {
                        self.lemma_ranked_error_stays(rank, node as int, (at + 1) as nat, count);
                    }
                    return Err(e);
                },
                Ok(_) => {},
            }
            proof {
                self.lemma_ranked_at_source(node as int, rank, at as int);
            }
            let mut cells = match self.resolve(connection.from.node, Ghost(rank)) {
                Err(e) => {
                    proof {
                        if self.resolve_ranked(rank, connection.from.node as int) is Err {
                            self.lemma_ranked_error_stays(
                                rank,
                                node as int,
                                (at + 1) as nat,
                                count,
                            );
                        }
                        if at == 0 {
                            assert(self.opens_ranked(rank, node as int) == self.opens_ranked(
                                rank,
                                connection.from.node as int,
                            ));
                        }
                    }
                    return Err(e);
                },
                Ok(cells) => cells,
            };
            proof {
                self.lemma_value_opens(rank, connection.from.node as int);
                self.lemma_gather_passes_first(rank, node as int, (at + 1) as nat);
            }
            let cell = cells.remove(connection.from.socket);
            let ghost before = fed_views(fed@);
            fed.push((cell, connection.to.socket));
            assert(fed_views(fed@) =~= before.push((cell@, connection.to.socket)));
            at = at + 1;
        }
        if fed.len() != needed.len() {
            return Err(GraphError::InsufficientInputs { node });
        }
        proof {
            lemma_ordered_len(fed_views(fed@), needed@.len());
        }
        let cells = order_by_socket(&fed, needed.len());
        self.nodes_elements[node].node.operation(cells)
    }

    /// Evaluates the node at `node` and gives the cells of its outputs.
    ///
    /// The nodes that feed it are evaluated first, each once for every
    /// connection that leads from it: nothing is kept from one connection to
    /// the next. Only the nodes that feed `node` are looked at, and only
    /// among them must there be no cycle.
    pub fn get_output_of_node(&self, node: usize) -> (output: Result<Vec<ValueCell>, GraphError>)
        requires
            node < self.node_count(),
            self.acyclic_below(node as int),
        ensures
            outcome_stands(output, self.resolve_spec(node as int)),
            !self.opens_spec(node as int) ==> outcome_matches(output, self.resolve_spec(node as int)),
            output matches Ok(cells) ==> identities_of(views_of(cells@)) == self.output_types(
                node as int,
            ),
    {
        self.resolve(node, Ghost(self.ranking_below(node as int)))
    }

    /// Evaluates the graph: the payload that the output node gives.
    ///
    /// Without an output node there is nothing to evaluate, and only then is
    /// that the error.
    pub fn get_output<T: Payload>(&self) -> (value: Result<T, GraphError>)
        requires
            self.wf(),
            self.output_spec() matches Some(output) ==> self.acyclic_below(output as int),
        ensures
            stands(value, self.output_value_spec::<T>()),
            value == Err::<T, GraphError>(GraphError::MissingOutputNode)
                <==> self.output_spec() is None,
            (self.output_spec() matches Some(output) && !self.opens_spec(output as int))
                ==> value == self.output_value_spec::<T>(),
    {
        let output: usize = match self.output_node {
            None => {
                return Err(GraphError::MissingOutputNode);
            },
            Some(output) => output,
        };
        proof {
            self.lemma_resolve_faults(output as int);
            if self.resolve_spec(output as int) is Ok {
                self.lemma_value_opens(self.ranking_below(output as int), output as int);
            }
        }
        let cells = self.get_output_of_node(output)?;
        cells[0].extract::<T>()
    }

    /// Every connection of the graph, once: those that end at the first
    /// node, then those that end at the second, and so on.
    pub fn get_connections(&self) -> (connections: Vec<Connection>)
        ensures
            connections@ == self.connections_spec(self.node_count()),
    {
        let mut connections: Vec<Connection> = Vec::new();
        let mut node: usize = 0;
        while node < self.nodes_elements.len()
            invariant
                node <= self.node_count(),
                connections@ == self.connections_spec(node as nat),
            decreases self.node_count() - node,
        {
            let ghost before = connections@;
            let mut at: usize = 0;
            while at < self.nodes_elements[node].inputs.len()
                invariant
                    node < self.node_count(),
                    at <= self.incoming(node as int).len(),
                    connections@ == before + self.incoming(node as int).take(at as int),
                decreases self.incoming(node as int).len() - at,
            {
                connections.push(self.nodes_elements[node].inputs[at]);
                at = at + 1;
            }
            node = node + 1;
        }
        connections
    }

    /// The connections that end at the node at `index`, in the order in which
    /// they were made.
    pub fn connections_into(&self, index: usize) -> (connections: &Vec<Connection>)
        requires
            index < self.node_count(),
        ensures
            connections@ == self.incoming(index as int),
    {
        &self.nodes_elements[index].inputs
    }

    /// The connections that start from the node at `index`, in the order in
    /// which they were made.
    pub fn connections_from(&self, index: usize) -> (connections: &Vec<Connection>)
        requires
            index < self.node_count(),
        ensures
            connections@ == self.outgoing(index as int),
    {
        &self.nodes_elements[index].outputs
    }

    /// The index of the output node, if the graph has one.
    pub fn output_node(&self) -> (output: Option<usize>)
        ensures
            output == self.output_spec(),
    {
        self.output_node
    }

    /// How many nodes the graph holds.
    pub fn len(&self) -> (count: usize)
        ensures
            count == self.node_count(),
    {
        self.nodes_elements.len()
    }

    /// The node at `index`.
    pub fn get_node(&self, index: usize) -> (node: &Box<dyn NodeAny>)
        requires
            index < self.node_count(),
        ensures
            self.shows(index as int, &**node),
    {
        &self.nodes_elements[index].node
    }

    /// The nodes, in the order in which they were added.
    pub fn get_nodes(&self) -> (nodes: Vec<&Box<dyn NodeAny>>)
        ensures
            nodes@.len() == self.node_count(),
            forall|index: int|
                0 <= index < self.node_count() ==> self.shows(index, &**#[trigger] nodes@[index]),
    {
        let mut nodes: Vec<&Box<dyn NodeAny>> = Vec::new();
        let mut index: usize = 0;
        while index < self.nodes_elements.len()
            invariant
                index <= self.nodes_elements@.len(),
                nodes@.len() == index,
                forall|at: int| 0 <= at < index ==> self.shows(at, &**#[trigger] nodes@[at]),
            decreases self.nodes_elements@.len() - index,
        {
            let node = &self.nodes_elements[index].node;
            nodes.push(node);
            index = index + 1;
        }
        nodes
    }
}

} // verus!
