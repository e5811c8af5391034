//! What holds of every evaluation.
use vstd::prelude::*;
use crate::cell::views_of;
use crate::cell::CellView;
use crate::cell::ValueCell;
use crate::error::stands;
use crate::error::GraphError;
use crate::identity::Payload;
use crate::node::outcome_stands;
use crate::node::Connection;
use crate::node::NodeGraph;
use crate::ordering::lemma_ordered_len;
use crate::ordering::lemma_ordered_sources;
use crate::ordering::one_cell_each;
use crate::ordering::ordered;
use crate::resolve::start_of;
use crate::signature::identities_of;

verus! {

/// Evaluating a node twice gives the same: the same cells, or the same
/// error. What an evaluation gives is decided by the graph alone, but for a
/// clash of identities, which is found only when a cell is opened.
pub proof fn lemma_resolving_is_repeatable(
    graph: &NodeGraph,
    node: int,
    first: Result<Vec<ValueCell>, GraphError>,
    second: Result<Vec<ValueCell>, GraphError>,
)
    requires
        outcome_stands(first, graph.resolve_spec(node)),
        outcome_stands(second, graph.resolve_spec(node)),
        !(first matches Err(e) && e.is_clash_spec()),
        !(second matches Err(e) && e.is_clash_spec()),
    ensures
        match (first, second) {
            (Ok(cells), Ok(again)) => views_of(cells@) == views_of(again@),
            (Err(e), Err(f)) => e == f,
            _ => false,
        },
{
}

/// Evaluating a graph twice, with nothing changed in between, gives the same
/// payload or the same error, where neither evaluation meets a clash of
/// identities.
pub proof fn lemma_output_is_repeatable<T: Payload>(
    graph: &NodeGraph,
    first: Result<T, GraphError>,
    second: Result<T, GraphError>,
)
    requires
        stands(first, graph.output_value_spec::<T>()),
        stands(second, graph.output_value_spec::<T>()),
        !(first matches Err(e) && e.is_clash_spec()),
        !(second matches Err(e) && e.is_clash_spec()),
    ensures
        first == second,
{
}

impl NodeGraph {
    /// Whether the two sockets of a connection exist and declare one type.
    pub open spec fn fits(&self, connection: Connection) -> bool {
        let from = connection.from;
        let to = connection.to;
        &&& to.node < self.node_count()
        &&& from.node < self.node_count()
        &&& to.socket < self.input_types(to.node as int).len()
        &&& from.socket < self.output_types(from.node as int).len()
        &&& self.input_types(to.node as int)[to.socket as int] == self.output_types(
            from.node as int,
        )[from.socket as int]
    }

    /// A node that was evaluated was fed through connections that fit: each
    /// connection into it joins two sockets that exist and that declare the
    /// same type, and the node at its source was evaluated too.
    pub proof fn lemma_resolved_connections_fit(&self, node: int, at: int)
        requires
            self.wf(),
            0 <= node < self.node_count(),
            self.acyclic_below(node),
            self.input_types(node).len() > 0,
            0 <= at < self.incoming(node).len(),
            self.resolve_spec(node) is Ok,
        ensures
            self.fits(self.incoming(node)[at]),
            self.acyclic_below(self.incoming(node)[at].from.node as int),
            self.resolve_spec(self.incoming(node)[at].from.node as int) is Ok,
    {
        self.lemma_resolve_unfolds(node);
        self.lemma_gathered(node, self.incoming(node).len(), at);
    }

    /// Every connection on the way to a node that was evaluated fits: along
    /// any chain that leads to the node, each connection joins two sockets
    /// that exist and that declare the same type.
    pub proof fn lemma_resolved_chain_fits(&self, node: int, chain: Seq<Connection>, at: int)
        requires
            self.wf(),
            0 <= node < self.node_count(),
            self.acyclic_below(node),
            self.resolve_spec(node) is Ok,
            self.leads_to(node, chain),
            0 <= at < chain.len(),
        ensures
            self.fits(chain[at]),
        decreases chain.len(),
    {
        let first: int = self.incoming(node).index_of(chain[0]);
        self.lemma_resolved_connections_fit(node, first);
        if at > 0 {
            self.lemma_resolved_chain_fits(chain[0].from.node as int, chain.drop_first(), at - 1);
        }
    }

    /// The first connection into a node whose sockets exist but declare
    /// different types stops the evaluation of the node, with the error that
    /// names the two sockets and the two types.
    pub proof fn lemma_mismatch_is_reported(&self, node: int, at: int)
        requires
            0 <= node < self.node_count(),
            self.acyclic_below(node),
            0 <= at < self.incoming(node).len(),
            self.gather_spec(node, at as nat) is Ok,
            self.incoming(node)[at].to.socket < self.input_types(node).len(),
            self.incoming(node)[at].from.node < self.node_count(),
            self.incoming(node)[at].from.socket < self.output_types(
                self.incoming(node)[at].from.node as int,
            ).len(),
            self.input_types(node)[self.incoming(node)[at].to.socket as int] != self.output_types(
                self.incoming(node)[at].from.node as int,
            )[self.incoming(node)[at].from.socket as int],
        ensures
            self.resolve_spec(node) == Err::<Seq<CellView>, GraphError>(
                GraphError::TypeMismatch {
                    from_node: self.incoming(node)[at].from.node,
                    from_socket: self.incoming(node)[at].from.socket,
                    to_node: self.incoming(node)[at].to.node,
                    to_socket: self.incoming(node)[at].to.socket,
                    expected: self.input_types(node)[self.incoming(node)[at].to.socket as int],
                    actual: self.output_types(
                        self.incoming(node)[at].from.node as int,
                    )[self.incoming(node)[at].from.socket as int],
                },
            ),
    {
        self.lemma_gather_unfolds(node, (at + 1) as nat);
        self.lemma_gather_error_stays(node, (at + 1) as nat, self.incoming(node).len());
        self.lemma_resolve_unfolds(node);
    }

    /// Connections that are not as many as the inputs are the only way to
    /// that error: a node with inputs whose connections were gathered fails
    /// for want of inputs exactly when their number is not that of its
    /// inputs, and then its operation is not applied.
    pub proof fn lemma_insufficient_inputs(&self, node: int)
        requires
            self.wf(),
            0 <= node < self.node_count(),
            self.acyclic_below(node),
            self.input_types(node).len() > 0,
            self.gather_spec(node, self.incoming(node).len()) is Ok,
        ensures
            self.resolve_spec(node) == Err::<Seq<CellView>, GraphError>(
                GraphError::InsufficientInputs { node: node as usize },
            ) <==> self.incoming(node).len() != self.input_types(node).len(),
            self.incoming(node).len() == self.input_types(node).len() ==> self.resolve_spec(node)
                == self.apply(
                node,
                ordered(
                    self.gather_spec(node, self.incoming(node).len())->Ok_0,
                    self.input_types(node).len(),
                ),
            ),
    {
        self.lemma_resolve_unfolds(node);
        self.lemma_gathered_len(node, self.incoming(node).len());
        assert(self.keeps_types(node));
    }

    /// An operation is handed as many cells as its node declares inputs:
    /// where the connections into a node were gathered and are as many as
    /// the inputs, ordering them by socket keeps them all.
    pub proof fn lemma_operation_gets_arity(&self, node: int)
        requires
            0 <= node < self.node_count(),
            self.acyclic_below(node),
            self.input_types(node).len() > 0,
            self.gather_spec(node, self.incoming(node).len()) matches Ok(fed) && fed.len()
                == self.input_types(node).len(),
        ensures
            ordered(
                self.gather_spec(node, self.incoming(node).len())->Ok_0,
                self.input_types(node).len(),
            ).len() == self.input_types(node).len(),
    {
        let count: nat = self.incoming(node).len();
        let fed = self.gather_spec(node, count)->Ok_0;
        self.lemma_gathered_len(node, count);
        assert forall|at: int| 0 <= at < fed.len() implies (#[trigger] fed[at]).1
            < self.input_types(node).len() by {
            self.lemma_gathered(node, count, at);
        }
        lemma_ordered_len(fed, self.input_types(node).len());
    }

    /// What a node of a well-formed graph gives carries the identities that
    /// the node declares for its outputs.
    pub proof fn lemma_resolved_types(&self, node: int)
        requires
            self.wf(),
            0 <= node < self.node_count(),
            self.acyclic_below(node),
            self.resolve_spec(node) is Ok,
        ensures
            identities_of(self.resolve_spec(node)->Ok_0) == self.output_types(node),
    {
        self.lemma_resolve_unfolds(node);
        assert(self.keeps_types(node));
    }

    /// Cells carry what sockets declare: each cell that is gathered for a
    /// node of a well-formed graph holds a payload of the type that the
    /// socket it is bound for declares.
    pub proof fn lemma_gathered_cells_fit(&self, node: int, at: int)
        requires
            self.wf(),
            0 <= node < self.node_count(),
            self.acyclic_below(node),
            self.input_types(node).len() > 0,
            0 <= at < self.incoming(node).len(),
            self.gather_spec(node, self.incoming(node).len()) is Ok,
        ensures
            self.gather_spec(node, self.incoming(node).len())->Ok_0.len() == self.incoming(
                node,
            ).len(),
            self.gather_spec(node, self.incoming(node).len())->Ok_0[at].1 == self.incoming(
                node,
            )[at].to.socket,
            self.gather_spec(node, self.incoming(node).len())->Ok_0[at].1 < self.input_types(
                node,
            ).len(),
            self.gather_spec(node, self.incoming(node).len())->Ok_0[at].0.identity
                == self.input_types(node)[self.incoming(node)[at].to.socket as int],
    {
        self.lemma_gathered(node, self.incoming(node).len(), at);
        let connection = self.incoming(node)[at];
        self.lemma_resolved_types(connection.from.node as int);
        let cells = self.resolve_spec(connection.from.node as int)->Ok_0;
        assert(identities_of(cells)[connection.from.socket as int]
            == cells[connection.from.socket as int].identity);
    }

    /// No operation is handed a cell of another type than it declares:
    /// where each input socket of a node is fed by just one connection, the
    /// cells that its operation is handed carry, place by place, the
    /// identities that the node declares for its inputs, and the operation
    /// does not fail.
    pub proof fn lemma_operation_gets_declared_types(&self, node: int)
        requires
            self.wf(),
            0 <= node < self.node_count(),
            self.acyclic_below(node),
            self.input_types(node).len() > 0,
            self.gather_spec(node, self.incoming(node).len()) matches Ok(fed) && fed.len()
                == self.input_types(node).len() && one_cell_each(fed),
        ensures
            identities_of(
                ordered(
                    self.gather_spec(node, self.incoming(node).len())->Ok_0,
                    self.input_types(node).len(),
                ),
            ) == self.input_types(node),
            self.resolve_spec(node) is Ok,
    {
        let count: nat = self.incoming(node).len();
        let fed = self.gather_spec(node, count)->Ok_0;
        let arity: nat = self.input_types(node).len();
        self.lemma_gathered_len(node, count);
        assert forall|at: int| 0 <= at < fed.len() implies (#[trigger] fed[at]).1 < arity by {
            self.lemma_gathered_cells_fit(node, at);
        }
        lemma_ordered_len(fed, arity);
        let handed = identities_of(ordered(fed, arity));
        assert forall|socket: int| 0 <= socket < arity implies handed[socket] == self.input_types(
            node,
        )[socket] by {
            let at: int = lemma_ordered_sources(fed, arity, socket);
            self.lemma_gathered_cells_fit(node, at);
        }
        assert(handed =~= self.input_types(node));
        self.lemma_resolve_unfolds(node);
        assert(self.keeps_types(node));
    }

    /// A node that declares no input needs no connection. Whatever is
    /// connected to it, and whatever cycles the graph holds, it can be
    /// evaluated; its value is what its operation makes of no cell; and in a
    /// well-formed graph that is a value, not an error.
    pub proof fn lemma_source_needs_no_connection(&self, node: int)
        requires
            0 <= node < self.node_count(),
            self.input_types(node).len() == 0,
        ensures
            self.acyclic_below(node),
            self.resolve_spec(node) == self.apply(node, Seq::empty()),
            self.wf() ==> self.resolve_spec(node) is Ok,
    {
        self.lemma_unfed_is_acyclic(node);
        self.lemma_resolve_unfolds(node);
        if self.wf() {
            assert(self.keeps_types(node));
            assert(identities_of(Seq::<CellView>::empty()) =~= self.input_types(node));
        }
    }
}

impl NodeGraph {
    /// Whether `other` has, for `node` and for every node that feeds it, the
    /// same node with the same connections into it.
    pub open spec fn agrees_below(&self, other: &NodeGraph, node: int) -> bool {
        forall|chain: Seq<Connection>| #[trigger]
            self.leads_to(node, chain) ==> {
                &&& other.same_node(self, start_of(node, chain))
                &&& other.incoming(start_of(node, chain)) == self.incoming(start_of(node, chain))
            }
    }

    proof fn lemma_agrees_at_source(&self, other: &NodeGraph, node: int, at: int)
        requires
            self.agrees_below(other, node),
            self.input_types(node).len() > 0,
            0 <= at < self.incoming(node).len(),
            self.incoming(node)[at].from.node < self.node_count(),
        ensures
            self.agrees_below(other, self.incoming(node)[at].from.node as int),
    {
        let from: int = self.incoming(node)[at].from.node as int;
        assert forall|chain: Seq<Connection>| #[trigger] self.leads_to(from, chain) implies {
            &&& other.same_node(self, start_of(from, chain))
            &&& other.incoming(start_of(from, chain)) == self.incoming(start_of(from, chain))
        } by {
            self.lemma_chain_grows(node, at, chain);
            assert(self.leads_to(node, seq![self.incoming(node)[at]] + chain));
        }
    }

    /// Graphs that agree below a node have the same chains to it.
    proof fn lemma_agreeing_chains(&self, other: &NodeGraph, node: int, chain: Seq<Connection>)
        requires
            self.wf(),
            0 <= node < self.node_count(),
            self.node_count() <= other.node_count(),
            self.agrees_below(other, node),
            other.leads_to(node, chain),
        ensures
            self.leads_to(node, chain),
        decreases chain.len(),
    {
        assert(self.leads_to(node, Seq::empty()));
        if chain.len() > 0 {
            let first: int = self.incoming(node).index_of(chain[0]);
            self.lemma_agrees_at_source(other, node, first);
            self.lemma_agreeing_chains(other, chain[0].from.node as int, chain.drop_first());
        }
    }

    /// Graphs that agree below a node are both free of cycles below it, or
    /// neither is.
    pub proof fn lemma_agreeing_is_acyclic(&self, other: &NodeGraph, node: int)
        requires
            self.wf(),
            0 <= node < self.node_count(),
            self.node_count() <= other.node_count(),
            self.agrees_below(other, node),
            self.acyclic_below(node),
        ensures
            other.acyclic_below(node),
    {
        let rank = self.ranking_below(node);
        let wider = Seq::new(
            other.node_count(),
            |at: int|
                if at < self.node_count() {
                    rank[at]
                } else {
                    0nat
                },
        );
        assert forall|source: int, at: int|
            other.feeds(source, node) && 0 <= at < other.incoming(source).len()
                && other.input_types(source).len() > 0 && (#[trigger] other.incoming(
                source,
            )[at]).from.node < other.node_count() implies wider[other.incoming(
            source,
        )[at].from.node as int] < wider[source] by {
            let chain = choose|chain: Seq<Connection>| #[trigger]
                other.leads_to(node, chain) && start_of(node, chain) == source;
            self.lemma_agreeing_chains(other, node, chain);
            self.lemma_feeder_is_node(node, chain);
            assert(self.feeds(source, node));
            assert(self.incoming(source)[at].from.node < self.node_count());
        }
        assert(other.ranked_below(node, wider));
    }

    proof fn lemma_ranked_depends(
        &self,
        other: &NodeGraph,
        mine: Seq<nat>,
        theirs: Seq<nat>,
        node: int,
    )
        requires
            self.wf(),
            0 <= node < self.node_count(),
            self.node_count() <= other.node_count(),
            self.ranked_below(node, mine),
            other.ranked_below(node, theirs),
            self.agrees_below(other, node),
        ensures
            other.resolve_ranked(theirs, node) == self.resolve_ranked(mine, node),
        decreases mine[node], self.incoming(node).len() + 1,
    {
        assert(self.leads_to(node, Seq::empty()));
        if self.input_types(node).len() > 0 {
            self.lemma_ranked_gather_depends(other, mine, theirs, node, self.incoming(node).len());
        }
    }

    proof fn lemma_ranked_gather_depends(
        &self,
        other: &NodeGraph,
        mine: Seq<nat>,
        theirs: Seq<nat>,
        node: int,
        upto: nat,
    )
        requires
            self.wf(),
            0 <= node < self.node_count(),
            self.node_count() <= other.node_count(),
            self.ranked_below(node, mine),
            other.ranked_below(node, theirs),
            self.agrees_below(other, node),
            self.input_types(node).len() > 0,
            upto <= self.incoming(node).len(),
        ensures
            other.gather_ranked(theirs, node, upto) == self.gather_ranked(mine, node, upto),
        decreases mine[node], upto,
    {
        assert(self.leads_to(node, Seq::empty()));
        if upto > 0 {
            self.lemma_ranked_gather_depends(other, mine, theirs, node, (upto - 1) as nat);
            let connection = self.incoming(node)[upto - 1];
            let from: int = connection.from.node as int;
            self.lemma_agrees_at_source(other, node, upto - 1);
            assert(self.leads_to(from, Seq::empty()));
            if self.check_spec(node, connection) is Ok {
                self.lemma_ranked_at_source(node, mine, upto - 1);
                other.lemma_ranked_at_source(node, theirs, upto - 1);
                self.lemma_ranked_depends(other, mine, theirs, from);
            }
        }
    }

    /// The value of a node is decided by the node and by the nodes that feed
    /// it: two graphs that agree on those give the node the same value.
    pub proof fn lemma_value_depends_on_sources(&self, other: &NodeGraph, node: int)
        requires
            self.wf(),
            0 <= node < self.node_count(),
            self.node_count() <= other.node_count(),
            self.acyclic_below(node),
            self.agrees_below(other, node),
        ensures
            other.acyclic_below(node),
            other.resolve_spec(node) == self.resolve_spec(node),
    {
        self.lemma_agreeing_is_acyclic(other, node);
        self.lemma_ranked_depends(
            other,
            self.ranking_below(node),
            other.ranking_below(node),
            node,
        );
    }

    /// Adding nodes changes no value: in a graph that holds the nodes of
    /// `self` unchanged, with their connections, every node of `self` can be
    /// evaluated as before and has the value that it has in `self`.
    pub proof fn lemma_extension_keeps_values(&self, after: &NodeGraph, node: int)
        requires
            self.wf(),
            after.extends(self),
            0 <= node < self.node_count(),
            self.acyclic_below(node),
        ensures
            after.acyclic_below(node),
            after.resolve_spec(node) == self.resolve_spec(node),
    {
        assert forall|chain: Seq<Connection>| #[trigger] self.leads_to(node, chain) implies {
            &&& after.same_node(self, start_of(node, chain))
            &&& after.incoming(start_of(node, chain)) == self.incoming(start_of(node, chain))
        } by {
            self.lemma_feeder_is_node(node, chain);
        }
        self.lemma_value_depends_on_sources(after, node);
    }

    /// A new connection changes the value of no node that its target does not
    /// feed: where `after` is `self` but for the connections into `target`,
    /// a node that `target` does not feed can be evaluated as before and has
    /// the value that it has in `self`.
    pub proof fn lemma_connection_keeps_values(&self, after: &NodeGraph, target: int, node: int)
        requires
            self.wf(),
            after.node_count() == self.node_count(),
            after.same_nodes(self, self.node_count()),
            forall|index: int|
                0 <= index < self.node_count() && index != target ==> #[trigger] after.incoming(
                    index,
                ) == self.incoming(index),
            0 <= node < self.node_count(),
            self.acyclic_below(node),
            !self.feeds(target, node),
        ensures
            after.acyclic_below(node),
            after.resolve_spec(node) == self.resolve_spec(node),
    {
        assert forall|chain: Seq<Connection>| #[trigger] self.leads_to(node, chain) implies {
            &&& after.same_node(self, start_of(node, chain))
            &&& after.incoming(start_of(node, chain)) == self.incoming(start_of(node, chain))
        } by {
            self.lemma_feeder_is_node(node, chain);
        }
        self.lemma_value_depends_on_sources(after, node);
    }
}

impl NodeGraph {
    /// Whether no two connections into `node` end at one socket.
    pub open spec fn one_connection_each(&self, node: int) -> bool {
        forall|i: int, j: int|
            0 <= i < j < self.incoming(node).len() ==> self.incoming(node)[i].to.socket
                != self.incoming(node)[j].to.socket
    }

    proof fn lemma_reordered_chains(&self, other: &NodeGraph, node: int, start: int, chain: Seq<Connection>)
        requires
            other.node_count() == self.node_count(),
            other.same_nodes(self, self.node_count()),
            forall|index: int|
                0 <= index < self.node_count() && index != node ==> #[trigger] other.incoming(
                    index,
                ) == self.incoming(index),
            forall|at: int|
                0 <= at < other.incoming(node).len() ==> self.incoming(node).contains(
                    #[trigger] other.incoming(node)[at],
                ),
            0 <= node < self.node_count(),
            0 <= start < self.node_count(),
            other.leads_to(start, chain),
        ensures
            self.leads_to(start, chain),
        decreases chain.len(),
    {
        if chain.len() > 0 {
            let first: int = other.incoming(start).index_of(chain[0]);
            assert(other.incoming(start)[first] == chain[0]);
            assert(self.incoming(start).contains(chain[0]));
            self.lemma_reordered_chains(
                other,
                node,
                chain[0].from.node as int,
                chain.drop_first(),
            );
        }
    }

    /// The order in which the connections into a node were made does not
    /// count. Let `other` be `self` but for the connections into `node`,
    /// which `other` holds in another order. Where each socket of `node` has
    /// its one connection and `self` gathers the inputs of `node`, `node`
    /// can be evaluated in both and has the same value in both.
    pub proof fn lemma_connection_order_is_free(&self, other: &NodeGraph, node: int)
        requires
            self.wf(),
            other.node_count() == self.node_count(),
            other.same_nodes(self, self.node_count()),
            forall|index: int|
                0 <= index < self.node_count() && index != node ==> #[trigger] other.incoming(
                    index,
                ) == self.incoming(index),
            0 <= node < self.node_count(),
            self.acyclic_below(node),
            self.input_types(node).len() > 0,
            other.incoming(node).len() == self.incoming(node).len(),
            forall|at: int|
                0 <= at < other.incoming(node).len() ==> self.incoming(node).contains(
                    #[trigger] other.incoming(node)[at],
                ),
            self.incoming(node).len() == self.input_types(node).len(),
            self.one_connection_each(node),
            other.one_connection_each(node),
            self.gather_spec(node, self.incoming(node).len()) is Ok,
        ensures
            other.acyclic_below(node),
            other.resolve_spec(node) == self.resolve_spec(node),
    {
        let count: nat = self.incoming(node).len();
        let arity: nat = self.input_types(node).len();
        let rank = self.ranking_below(node);
        let fed = self.gather_spec(node, count)->Ok_0;
        // The same ranking serves in `other`.
        assert forall|source: int, at: int|
            other.feeds(source, node) && 0 <= at < other.incoming(source).len()
                && other.input_types(source).len() > 0 && (#[trigger] other.incoming(
                source,
            )[at]).from.node < other.node_count() implies rank[other.incoming(
            source,
        )[at].from.node as int] < rank[source] by {
            let chain = choose|chain: Seq<Connection>| #[trigger]
                other.leads_to(node, chain) && start_of(node, chain) == source;
            self.lemma_reordered_chains(other, node, node, chain);
            self.lemma_feeder_is_node(node, chain);
            assert(self.feeds(source, node));
            let connection = other.incoming(source)[at];
            assert(self.incoming(source).contains(connection));
            let place: int = self.incoming(source).index_of(connection);
            assert(self.incoming(source)[place].from.node < self.node_count());
        }
        assert(other.ranked_below(node, rank));
        self.lemma_gathered_len(node, count);
        // Each connection of `other` passes and brings what it brings in `self`.
        assert forall|place: int| 0 <= place < count implies other.check_spec(
            node,
            #[trigger] other.incoming(node)[place],
        ) is Ok && other.resolve_spec(other.incoming(node)[place].from.node as int)
            == self.resolve_spec(other.incoming(node)[place].from.node as int)
            && self.resolve_spec(other.incoming(node)[place].from.node as int) is Ok by {
            let connection = other.incoming(node)[place];
            let origin: int = self.incoming(node).index_of(connection);
            self.lemma_gathered(node, count, origin);
            let from: int = connection.from.node as int;
            self.lemma_ranked_at_source(node, rank, origin);
            assert forall|chain: Seq<Connection>| #[trigger] self.leads_to(from, chain) implies {
                &&& other.same_node(self, start_of(from, chain))
                &&& other.incoming(start_of(from, chain)) == self.incoming(start_of(from, chain))
            } by {
                self.lemma_chain_descends(from, rank, chain);
                self.lemma_feeder_is_node(from, chain);
            }
            self.lemma_value_depends_on_sources(other, from);
        }
        other.lemma_gather_succeeds(node, count);
        other.lemma_gathered_len(node, count);
        let brought = other.gather_spec(node, count)->Ok_0;
        assert forall|at: int| 0 <= at < count implies (#[trigger] fed[at]).1 < arity
            && fed[at].1 == self.incoming(node)[at].to.socket by {
            self.lemma_gathered(node, count, at);
        }
        assert forall|at: int| 0 <= at < count implies (#[trigger] brought[at]).1 < arity
            && brought[at].1 == other.incoming(node)[at].to.socket by {
            other.lemma_gathered(node, count, at);
        }
        assert(one_cell_each(fed));
        assert(one_cell_each(brought));
        lemma_ordered_len(fed, arity);
        lemma_ordered_len(brought, arity);
        assert forall|socket: int| 0 <= socket < arity implies ordered(brought, arity)[socket]
            == ordered(fed, arity)[socket] by {
            let mine: int = lemma_ordered_sources(fed, arity, socket);
            let theirs: int = lemma_ordered_sources(brought, arity, socket);
            let connection = other.incoming(node)[theirs];
            let origin: int = self.incoming(node).index_of(connection);
            assert(origin == mine);
            self.lemma_gathered(node, count, mine);
            other.lemma_gathered(node, count, theirs);
        }
        assert(ordered(brought, arity) =~= ordered(fed, arity));
        self.lemma_resolve_unfolds(node);
        other.lemma_resolve_unfolds(node);
    }
}

impl NodeGraph {
    /// Whether the two sockets of a connection exist.
    pub open spec fn in_bounds(&self, connection: Connection) -> bool {
        let from = connection.from;
        let to = connection.to;
        &&& to.node < self.node_count()
        &&& from.node < self.node_count()
        &&& to.socket < self.input_types(to.node as int).len()
        &&& from.socket < self.output_types(from.node as int).len()
    }

    /// Whether every node that feeds `node` and declares inputs has just one
    /// connection for each of its sockets, each between sockets that exist.
    pub open spec fn wired_below(&self, node: int) -> bool {
        forall|source: int| #[trigger]
            self.feeds(source, node) && self.input_types(source).len() > 0 ==> {
                &&& self.incoming(source).len() == self.input_types(source).len()
                &&& self.one_connection_each(source)
                &&& forall|at: int|
                    0 <= at < self.incoming(source).len() ==> self.in_bounds(
                        #[trigger] self.incoming(source)[at],
                    )
            }
    }

    /// Whether every connection on the way to `node` joins two sockets of
    /// one type.
    pub open spec fn typed_below(&self, node: int) -> bool {
        forall|source: int, at: int|
            self.feeds(source, node) && self.input_types(source).len() > 0 && 0 <= at
                < self.incoming(source).len() ==> self.fits(#[trigger] self.incoming(source)[at])
    }

    proof fn lemma_wired_at_source(&self, node: int, at: int)
        requires
            self.wired_below(node),
            self.input_types(node).len() > 0,
            0 <= at < self.incoming(node).len(),
            self.incoming(node)[at].from.node < self.node_count(),
        ensures
            self.wired_below(self.incoming(node)[at].from.node as int),
    {
        let from: int = self.incoming(node)[at].from.node as int;
        assert forall|source: int| #[trigger]
            self.feeds(source, from) && self.input_types(source).len() > 0 implies {
            &&& self.incoming(source).len() == self.input_types(source).len()
            &&& self.one_connection_each(source)
            &&& forall|place: int|
                0 <= place < self.incoming(source).len() ==> self.in_bounds(
                    #[trigger] self.incoming(source)[place],
                )
        } by {
            self.lemma_feeds_through(source, node, at);
        }
    }

    proof fn lemma_typed_at_source(&self, node: int, at: int)
        requires
            self.typed_below(node),
            self.input_types(node).len() > 0,
            0 <= at < self.incoming(node).len(),
            self.incoming(node)[at].from.node < self.node_count(),
        ensures
            self.typed_below(self.incoming(node)[at].from.node as int),
    {
        let from: int = self.incoming(node)[at].from.node as int;
        assert forall|source: int, place: int|
            self.feeds(source, from) && self.input_types(source).len() > 0 && 0 <= place
                < self.incoming(source).len() implies self.fits(
            #[trigger] self.incoming(source)[place],
        ) by {
            self.lemma_feeds_through(source, node, at);
        }
    }

    /// A connection of two types on the way to a node is a connection into
    /// the node, or is on the way to one of its sources.
    proof fn lemma_untyped_somewhere(&self, node: int) -> (at: int)
        requires
            0 <= node < self.node_count(),
            !self.typed_below(node),
        ensures
            self.input_types(node).len() > 0,
            0 <= at < self.incoming(node).len(),
            !self.fits(self.incoming(node)[at]) || (self.incoming(node)[at].from.node
                < self.node_count() && !self.typed_below(
                self.incoming(node)[at].from.node as int,
            )),
    {
        let (source, place) = choose|source: int, place: int|
            self.feeds(source, node) && self.input_types(source).len() > 0 && 0 <= place
                < self.incoming(source).len() && !self.fits(
                #[trigger] self.incoming(source)[place],
            );
        let chain = choose|chain: Seq<Connection>| #[trigger]
            self.leads_to(node, chain) && start_of(node, chain) == source;
        if chain.len() == 0 {
            place
        } else {
            let first: int = self.incoming(node).index_of(chain[0]);
            let from: int = chain[0].from.node as int;
            let rest = chain.drop_first();
            if rest.len() > 0 {
                assert(rest.last() == chain.last());
            }
            assert(self.leads_to(from, rest) && start_of(from, rest) == source);
            assert(self.feeds(source, from));
            first
        }
    }

    proof fn lemma_ranked_wired(&self, rank: Seq<nat>, node: int)
        requires
            self.wf(),
            0 <= node < self.node_count(),
            self.ranked_below(node, rank),
            self.wired_below(node),
        ensures
            self.typed_below(node) ==> self.resolve_spec(node) is Ok,
            !self.typed_below(node) ==> (self.resolve_spec(node) matches Err(fault) && fault
                is TypeMismatch),
        decreases rank[node], self.incoming(node).len() + 1,
    {
        self.lemma_feeds_itself(node);
        if self.input_types(node).len() == 0 {
            self.lemma_source_needs_no_connection(node);
            if !self.typed_below(node) {
                self.lemma_untyped_somewhere(node);
            }
        } else {
            let count: nat = self.incoming(node).len();
            self.lemma_ranked_wired_gather(rank, node, count);
            self.lemma_resolve_unfolds(node);
            if self.gather_spec(node, count) is Ok {
                if !self.typed_below(node) {
                    self.lemma_untyped_somewhere(node);
                }
                let fed = self.gather_spec(node, count)->Ok_0;
                self.lemma_gathered_len(node, count);
                assert forall|i: int, j: int| 0 <= i < j < fed.len() implies fed[i].1
                    != fed[j].1 by {
                    self.lemma_gathered_cells_fit(node, i);
                    self.lemma_gathered_cells_fit(node, j);
                }
                self.lemma_operation_gets_declared_types(node);
            } else {
                if self.typed_below(node) {
                    let at: int = choose|at: int|
                        0 <= at < count && (!self.fits(#[trigger] self.incoming(node)[at]) || (
                        !self.typed_below(self.incoming(node)[at].from.node as int)));
                    assert(self.in_bounds(self.incoming(node)[at]));
                    self.lemma_typed_at_source(node, at);
                }
            }
        }
    }

    proof fn lemma_ranked_wired_gather(&self, rank: Seq<nat>, node: int, upto: nat)
        requires
            self.wf(),
            0 <= node < self.node_count(),
            self.ranked_below(node, rank),
            self.wired_below(node),
            self.input_types(node).len() > 0,
            upto <= self.incoming(node).len(),
        ensures
            match self.gather_spec(node, upto) {
                Ok(_) => forall|at: int|
                    0 <= at < upto ==> self.fits(#[trigger] self.incoming(node)[at])
                        && self.typed_below(self.incoming(node)[at].from.node as int),
                Err(fault) => fault is TypeMismatch && exists|at: int|
                    0 <= at < upto && (!self.fits(#[trigger] self.incoming(node)[at]) || (
                    !self.typed_below(self.incoming(node)[at].from.node as int))),
            },
        decreases rank[node], upto,
    {
        self.lemma_feeds_itself(node);
        self.lemma_gather_unfolds(node, upto);
        if upto > 0 {
            self.lemma_ranked_wired_gather(rank, node, (upto - 1) as nat);
            let connection = self.incoming(node)[upto - 1];
            assert(self.in_bounds(connection));
            if self.gather_spec(node, (upto - 1) as nat) is Ok {
                if self.check_spec(node, connection) is Ok {
                    let from: int = connection.from.node as int;
                    self.lemma_ranked_at_source(node, rank, upto - 1);
                    self.lemma_wired_at_source(node, upto - 1);
                    self.lemma_ranked_wired(rank, from);
                    assert(self.fits(connection));
                } else {
                    assert(!self.fits(connection));
                }
            }
        }
    }

    /// Types decide: where every node that feeds `node` has its one
    /// connection for each socket, between sockets that exist, `node` has a
    /// value exactly when every connection on the way to it joins two
    /// sockets of one type. Where one does not, the evaluation of `node`
    /// ends with the error that names two sockets and two types, and with no
    /// other.
    pub proof fn lemma_types_decide(&self, node: int)
        requires
            self.wf(),
            0 <= node < self.node_count(),
            self.acyclic_below(node),
            self.wired_below(node),
        ensures
            self.typed_below(node) <==> self.resolve_spec(node) is Ok,
            !self.typed_below(node) ==> (self.resolve_spec(node) matches Err(fault) && fault
                is TypeMismatch),
    {
        self.lemma_ranked_wired(self.ranking_below(node), node);
    }

    /// What the graph gives is decided by what feeds its output node: where
    /// `after` has the same output node, and agrees with `self` on it and on
    /// what feeds it, the graph has the same value in both.
    pub proof fn lemma_output_depends_on_sources<T: Payload>(&self, after: &NodeGraph)
        requires
            self.wf(),
            self.node_count() <= after.node_count(),
            after.output_spec() == self.output_spec(),
            self.output_spec() matches Some(output) ==> self.acyclic_below(output as int)
                && self.agrees_below(after, output as int),
        ensures
            after.output_spec() matches Some(output) ==> after.acyclic_below(output as int),
            after.output_value_spec::<T>() == self.output_value_spec::<T>(),
    {
        if self.output_spec() is Some {
            self.lemma_value_depends_on_sources(after, self.output_spec()->Some_0 as int);
        }
    }
}

} // verus!
