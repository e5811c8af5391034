//! What evaluation means: the value of a node, pulled through the
//! connections that feed it.
use vstd::prelude::*;
use crate::cell::CellView;
use crate::cell::ValueCell;
use crate::error::GraphError;
use crate::identity::Payload;
use crate::node::Connection;
use crate::node::NodeGraph;
use crate::ordering::ordered;

verus! {

/// The node that a chain of connections starts from, where the chain leads
/// to `node`: `node` itself for the empty chain.
pub open spec fn start_of(node: int, chain: Seq<Connection>) -> int {
    if chain.len() == 0 {
        node
    } else {
        chain.last().from.node as int
    }
}

impl NodeGraph {
    /// Whether `chain` leads to `node`: its first connection ends at `node`,
    /// each further one ends at the node that the one before starts from,
    /// every node that a connection of the chain ends at declares inputs,
    /// and every node that one starts from is a node of the graph.
    pub open spec fn leads_to(&self, node: int, chain: Seq<Connection>) -> bool
        decreases chain.len(),
    {
        chain.len() == 0 || (self.input_types(node).len() > 0 && self.incoming(node).contains(
            chain[0],
        ) && chain[0].from.node < self.node_count() && self.leads_to(
            chain[0].from.node as int,
            chain.drop_first(),
        ))
    }

    /// Whether `source` feeds `node`: it is `node`, or the start of a chain
    /// of connections that leads to `node`.
    pub open spec fn feeds(&self, source: int, node: int) -> bool {
        exists|chain: Seq<Connection>| #[trigger]
            self.leads_to(node, chain) && start_of(node, chain) == source
    }

    /// Whether `rank` gives every node that feeds `node` and declares inputs
    /// a higher rank than each node that a connection feeds it from.
    pub open spec fn ranked_below(&self, node: int, rank: Seq<nat>) -> bool {
        &&& rank.len() == self.node_count()
        &&& forall|source: int, at: int|
            self.feeds(source, node) && 0 <= at < self.incoming(source).len()
                && self.input_types(source).len() > 0 && (#[trigger] self.incoming(
                source,
            )[at]).from.node < self.node_count() ==> rank[self.incoming(
                source,
            )[at].from.node as int] < rank[source]
    }

    /// Whether no node that feeds `node` is fed from itself: what the
    /// evaluation of `node` asks for.
    pub open spec fn acyclic_below(&self, node: int) -> bool {
        exists|rank: Seq<nat>| self.ranked_below(node, rank)
    }

    /// A ranking of the nodes that feed `node`.
    pub open spec fn ranking_below(&self, node: int) -> Seq<nat> {
        choose|rank: Seq<nat>| self.ranked_below(node, rank)
    }

    /// A chain to a node's source, with the connection from that source put
    /// before it, is a chain to the node.
    pub proof fn lemma_chain_grows(&self, node: int, at: int, chain: Seq<Connection>)
        requires
            self.input_types(node).len() > 0,
            0 <= at < self.incoming(node).len(),
            self.incoming(node)[at].from.node < self.node_count(),
            self.leads_to(self.incoming(node)[at].from.node as int, chain),
        ensures
            self.leads_to(node, seq![self.incoming(node)[at]] + chain),
            start_of(node, seq![self.incoming(node)[at]] + chain) == start_of(
                self.incoming(node)[at].from.node as int,
                chain,
            ),
    {
        let longer = seq![self.incoming(node)[at]] + chain;
        assert(longer.drop_first() =~= chain);
    }

    /// Every node feeds itself.
    pub proof fn lemma_feeds_itself(&self, node: int)
        ensures
            self.feeds(node, node),
    {
        assert(self.leads_to(node, Seq::empty()));
    }

    /// What feeds a node's source feeds the node.
    pub proof fn lemma_feeds_through(&self, source: int, node: int, at: int)
        requires
            self.input_types(node).len() > 0,
            0 <= at < self.incoming(node).len(),
            self.incoming(node)[at].from.node < self.node_count(),
            self.feeds(source, self.incoming(node)[at].from.node as int),
        ensures
            self.feeds(source, node),
    {
        let from: int = self.incoming(node)[at].from.node as int;
        let chain = choose|chain: Seq<Connection>| #[trigger]
            self.leads_to(from, chain) && start_of(from, chain) == source;
        self.lemma_chain_grows(node, at, chain);
        assert(self.leads_to(node, seq![self.incoming(node)[at]] + chain));
    }

    /// A chain to a node, with a connection into its start put after it, is
    /// a chain to the node.
    pub proof fn lemma_chain_extends(&self, node: int, chain: Seq<Connection>, at: int)
        requires
            0 <= node < self.node_count(),
            self.leads_to(node, chain),
            self.input_types(start_of(node, chain)).len() > 0,
            0 <= at < self.incoming(start_of(node, chain)).len(),
            self.incoming(start_of(node, chain))[at].from.node < self.node_count(),
        ensures
            self.leads_to(node, chain.push(self.incoming(start_of(node, chain))[at])),
        decreases chain.len(),
    {
        let last = self.incoming(start_of(node, chain))[at];
        let longer = chain.push(last);
        if chain.len() == 0 {
            assert(longer.drop_first() =~= Seq::<Connection>::empty());
            assert(self.leads_to(last.from.node as int, longer.drop_first()));
        } else {
            let rest = chain.drop_first();
            if rest.len() > 0 {
                assert(rest.last() == chain.last());
            }
            self.lemma_chain_extends(chain[0].from.node as int, rest, at);
            assert(longer.drop_first() =~= rest.push(last));
        }
    }

    /// What feeds a node is a node of the graph.
    pub proof fn lemma_feeder_is_node(&self, node: int, chain: Seq<Connection>)
        requires
            0 <= node < self.node_count(),
            self.leads_to(node, chain),
        ensures
            0 <= start_of(node, chain) < self.node_count(),
        decreases chain.len(),
    {
        if chain.len() > 1 {
            assert(chain.drop_first().last() == chain.last());
            self.lemma_feeder_is_node(chain[0].from.node as int, chain.drop_first());
        }
    }

    /// What a connection brings to a node that feeds `node` feeds `node`.
    pub proof fn lemma_feeds_onward(&self, source: int, node: int, at: int)
        requires
            0 <= node < self.node_count(),
            self.feeds(source, node),
            self.input_types(source).len() > 0,
            0 <= at < self.incoming(source).len(),
            self.incoming(source)[at].from.node < self.node_count(),
        ensures
            self.feeds(self.incoming(source)[at].from.node as int, node),
    {
        let chain = choose|chain: Seq<Connection>| #[trigger]
            self.leads_to(node, chain) && start_of(node, chain) == source;
        self.lemma_chain_extends(node, chain, at);
        let longer = chain.push(self.incoming(source)[at]);
        assert(self.leads_to(node, longer));
        assert(longer.last() == self.incoming(source)[at]);
    }

    /// A ranking below a node is a ranking below each of its sources, and
    /// ranks the source lower.
    pub proof fn lemma_ranked_at_source(&self, node: int, rank: Seq<nat>, at: int)
        requires
            self.ranked_below(node, rank),
            self.input_types(node).len() > 0,
            0 <= at < self.incoming(node).len(),
            self.incoming(node)[at].from.node < self.node_count(),
        ensures
            self.ranked_below(self.incoming(node)[at].from.node as int, rank),
            rank[self.incoming(node)[at].from.node as int] < rank[node],
    {
        let from: int = self.incoming(node)[at].from.node as int;
        self.lemma_feeds_itself(node);
        assert forall|source: int, place: int|
            self.feeds(source, from) && 0 <= place < self.incoming(source).len()
                && self.input_types(source).len() > 0 && (#[trigger] self.incoming(
                source,
            )[place]).from.node < self.node_count() implies rank[self.incoming(
            source,
        )[place].from.node as int] < rank[source] by {
            self.lemma_feeds_through(source, node, at);
        }
    }

    /// A chain never leads upwards: the node that a chain starts from ranks
    /// below the node that the chain leads to, or is that node.
    pub proof fn lemma_chain_descends(&self, node: int, rank: Seq<nat>, chain: Seq<Connection>)
        requires
            0 <= node < self.node_count(),
            self.ranked_below(node, rank),
            self.leads_to(node, chain),
        ensures
            chain.len() == 0 ==> start_of(node, chain) == node,
            chain.len() > 0 ==> rank[start_of(node, chain)] < rank[node],
        decreases chain.len(),
    {
        if chain.len() > 0 {
            let first: int = self.incoming(node).index_of(chain[0]);
            self.lemma_ranked_at_source(node, rank, first);
            self.lemma_chain_descends(chain[0].from.node as int, rank, chain.drop_first());
            if chain.len() > 1 {
                assert(chain.drop_first().last() == chain.last());
            }
        }
    }

    /// A node that nothing is connected to, or that declares no input, has
    /// no cycle below it.
    pub proof fn lemma_unfed_is_acyclic(&self, node: int)
        requires
            self.input_types(node).len() == 0 || self.incoming(node).len() == 0,
        ensures
            self.acyclic_below(node),
    {
        let rank = Seq::new(self.node_count(), |at: int| 0nat);
        assert forall|source: int, at: int|
            self.feeds(source, node) && 0 <= at < self.incoming(source).len()
                && self.input_types(source).len() > 0 && (#[trigger] self.incoming(
                source,
            )[at]).from.node < self.node_count() implies rank[self.incoming(
            source,
        )[at].from.node as int] < rank[source] by {
            let chain = choose|chain: Seq<Connection>| #[trigger]
                self.leads_to(node, chain) && start_of(node, chain) == source;
            assert(chain.len() == 0);
        }
        assert(self.ranked_below(node, rank));
    }

    /// What is wrong with a connection that feeds `node`, if anything: a
    /// socket that does not exist, or two sockets of different types.
    pub open spec fn check_spec(&self, node: int, connection: Connection) -> Result<
        (),
        GraphError,
    > {
        let from = connection.from;
        let to = connection.to;
        if to.socket >= self.input_types(node).len() {
            Err(GraphError::IndexOutOfRange { node: to.node, socket: to.socket })
        } else if from.node >= self.node_count() || from.socket >= self.output_types(
            from.node as int,
        ).len() {
            Err(GraphError::IndexOutOfRange { node: from.node, socket: from.socket })
        } else {
            let expected = self.input_types(node)[to.socket as int];
            let actual = self.output_types(from.node as int)[from.socket as int];
            if expected != actual {
                Err(
                    GraphError::TypeMismatch {
                        from_node: from.node,
                        from_socket: from.socket,
                        to_node: to.node,
                        to_socket: to.socket,
                        expected,
                        actual,
                    },
                )
            } else {
                Ok(())
            }
        }
    }

    /// The value of `node`, found by descending along `rank`.
    pub open spec fn resolve_ranked(&self, rank: Seq<nat>, node: int) -> Result<
        Seq<CellView>,
        GraphError,
    >
        decreases rank[node], self.incoming(node).len() + 1,
        when 0 <= node < self.node_count() && self.ranked_below(node, rank)
    {
        let arity: nat = self.input_types(node).len();
        if arity == 0 {
            self.apply(node, Seq::empty())
        } else {
            match self.gather_ranked(rank, node, self.incoming(node).len()) {
                Err(e) => Err(e),
                Ok(fed) => if fed.len() != arity {
                    Err(GraphError::InsufficientInputs { node: node as usize })
                } else {
                    self.apply(node, ordered(fed, arity))
                },
            }
        }
    }

    /// The cells that the first `upto` connections into `node` bring, found
    /// by descending along `rank`.
    pub open spec fn gather_ranked(&self, rank: Seq<nat>, node: int, upto: nat) -> Result<
        Seq<(CellView, usize)>,
        GraphError,
    >
        decreases rank[node], upto,
        when 0 <= node < self.node_count() && self.ranked_below(node, rank) && upto
            <= self.incoming(node).len() && self.input_types(node).len() > 0
    {
        if upto == 0 {
            Ok(Seq::empty())
        } else {
            match self.gather_ranked(rank, node, (upto - 1) as nat) {
                Err(e) => Err(e),
                Ok(fed) => {
                    let connection = self.incoming(node)[upto - 1];
                    match self.check_spec(node, connection) {
                        Err(e) => Err(e),
                        Ok(_) => {
                            proof {
                                self.lemma_ranked_at_source(node, rank, upto - 1);
                            }
                            match self.resolve_ranked(rank, connection.from.node as int) {
                                Err(e) => Err(e),
                                Ok(cells) => Ok(
                                    fed.push(
                                        (
                                            cells[connection.from.socket as int],
                                            connection.to.socket,
                                        ),
                                    ),
                                ),
                            }
                        },
                    }
                },
            }
        }
    }

    /// Whether the evaluation of `node` comes to apply an operation before it
    /// meets a fault of the wiring. The evaluation goes down along the first
    /// connection of each node. It applies its first operation when it
    /// reaches a node that declares no input; it meets a fault, with nothing
    /// applied, when it reaches a node without connections or a first
    /// connection that does not pass.
    pub open spec fn opens_ranked(&self, rank: Seq<nat>, node: int) -> bool
        decreases rank[node],
        when 0 <= node < self.node_count() && self.ranked_below(node, rank)
    {
        if self.input_types(node).len() == 0 {
            self.apply(node, Seq::empty()) is Ok
        } else if self.incoming(node).len() == 0 {
            false
        } else if self.check_spec(node, self.incoming(node)[0]) is Err {
            false
        } else {
            proof {
                self.lemma_ranked_at_source(node, rank, 0);
            }
            self.opens_ranked(rank, self.incoming(node)[0].from.node as int)
        }
    }

    /// Whether the evaluation of `node` comes to apply an operation before it
    /// meets a fault of the wiring. Where it does not, no cell is opened, and
    /// the evaluation gives just the error that its meaning says.
    pub open spec fn opens_spec(&self, node: int) -> bool {
        self.opens_ranked(self.ranking_below(node), node)
    }

    /// The value of `node`: the cells that its operation gives when each of
    /// its inputs is fed with the value of the node that it is connected to.
    /// `resolve_step` says it in full.
    pub open spec fn resolve_spec(&self, node: int) -> Result<Seq<CellView>, GraphError> {
        self.resolve_ranked(self.ranking_below(node), node)
    }

    /// The cells that the first `upto` connections into `node` bring, each
    /// with the socket that it is bound for, or the first error on the way.
    /// `gather_step` says it in full.
    pub open spec fn gather_spec(&self, node: int, upto: nat) -> Result<
        Seq<(CellView, usize)>,
        GraphError,
    > {
        self.gather_ranked(self.ranking_below(node), node, upto)
    }

    /// The value of `node`, from what its connections bring.
    ///
    /// A node that declares no input is applied to no cell, whatever is
    /// connected to it. For any other node the connections that end at it
    /// are taken in the order in which they were made; the first that is
    /// wrong, or whose source fails, decides the error. Then there must be as
    /// many connections as declared inputs, and the operation is applied to
    /// the cells in the order of the sockets that they are bound for.
    pub open spec fn resolve_step(&self, node: int) -> Result<Seq<CellView>, GraphError> {
        let arity: nat = self.input_types(node).len();
        if arity == 0 {
            self.apply(node, Seq::empty())
        } else {
            match self.gather_spec(node, self.incoming(node).len()) {
                Err(e) => Err(e),
                Ok(fed) => if fed.len() != arity {
                    Err(GraphError::InsufficientInputs { node: node as usize })
                } else {
                    self.apply(node, ordered(fed, arity))
                },
            }
        }
    }

    /// What the first `upto` connections into `node` bring, from what the
    /// connections before the last bring and from the value of the source of
    /// the last.
    pub open spec fn gather_step(&self, node: int, upto: nat) -> Result<
        Seq<(CellView, usize)>,
        GraphError,
    > {
        if upto == 0 {
            Ok(Seq::empty())
        } else {
            match self.gather_spec(node, (upto - 1) as nat) {
                Err(e) => Err(e),
                Ok(fed) => {
                    let connection = self.incoming(node)[upto - 1];
                    match self.check_spec(node, connection) {
                        Err(e) => Err(e),
                        Ok(_) => match self.resolve_spec(connection.from.node as int) {
                            Err(e) => Err(e),
                            Ok(cells) => Ok(
                                fed.push(
                                    (cells[connection.from.socket as int], connection.to.socket),
                                ),
                            ),
                        },
                    }
                },
            }
        }
    }

    /// The value of the graph: the one payload that the output node gives.
    pub open spec fn output_value_spec<T: Payload>(&self) -> Result<T, GraphError> {
        match self.output_spec() {
            None => Err(GraphError::MissingOutputNode),
            Some(output) => match self.resolve_spec(output as int) {
                Err(e) => Err(e),
                Ok(cells) => ValueCell::extract_spec::<T>(cells[0]),
            },
        }
    }

    /// The value of a node does not depend on the ranking along which it is
    /// found.
    pub proof fn lemma_rank_is_free(&self, one: Seq<nat>, other: Seq<nat>, node: int)
        requires
            0 <= node < self.node_count(),
            self.ranked_below(node, one),
            self.ranked_below(node, other),
        ensures
            self.resolve_ranked(one, node) == self.resolve_ranked(other, node),
        decreases one[node], self.incoming(node).len() + 1,
    {
        if self.input_types(node).len() > 0 {
            self.lemma_gather_rank_is_free(one, other, node, self.incoming(node).len());
        }
    }

    proof fn lemma_gather_rank_is_free(
        &self,
        one: Seq<nat>,
        other: Seq<nat>,
        node: int,
        upto: nat,
    )
        requires
            0 <= node < self.node_count(),
            self.ranked_below(node, one),
            self.ranked_below(node, other),
            self.input_types(node).len() > 0,
            upto <= self.incoming(node).len(),
        ensures
            self.gather_ranked(one, node, upto) == self.gather_ranked(other, node, upto),
        decreases one[node], upto,
    {
        if upto > 0 {
            self.lemma_gather_rank_is_free(one, other, node, (upto - 1) as nat);
            let connection = self.incoming(node)[upto - 1];
            if self.check_spec(node, connection) is Ok {
                self.lemma_ranked_at_source(node, one, upto - 1);
                self.lemma_ranked_at_source(node, other, upto - 1);
                self.lemma_rank_is_free(one, other, connection.from.node as int);
            }
        }
    }

    /// The value of a node is what `resolve_step` says.
    pub proof fn lemma_resolve_unfolds(&self, node: int)
        requires
            0 <= node < self.node_count(),
            self.acyclic_below(node),
        ensures
            self.resolve_spec(node) == self.resolve_step(node),
    {
    }

    /// What the connections into a node bring is what `gather_step` says,
    /// and the source of a connection that passes can be evaluated too.
    pub proof fn lemma_gather_unfolds(&self, node: int, upto: nat)
        requires
            0 <= node < self.node_count(),
            self.acyclic_below(node),
            self.input_types(node).len() > 0,
            upto <= self.incoming(node).len(),
        ensures
            self.gather_spec(node, upto) == self.gather_step(node, upto),
            upto > 0 && self.incoming(node)[upto - 1].from.node < self.node_count()
                ==> self.acyclic_below(self.incoming(node)[upto - 1].from.node as int),
    {
        if upto > 0 {
            let connection = self.incoming(node)[upto - 1];
            let rank = self.ranking_below(node);
            if connection.from.node < self.node_count() {
                let from: int = connection.from.node as int;
                self.lemma_ranked_at_source(node, rank, upto - 1);
                self.lemma_rank_is_free(rank, self.ranking_below(from), from);
            }
        }
    }

    /// Gathering that succeeds has passed the first connection and found a
    /// value at its source.
    pub proof fn lemma_gather_passes_first(&self, rank: Seq<nat>, node: int, upto: nat)
        requires
            0 <= node < self.node_count(),
            self.ranked_below(node, rank),
            self.input_types(node).len() > 0,
            0 < upto <= self.incoming(node).len(),
            self.gather_ranked(rank, node, upto) is Ok,
        ensures
            self.check_spec(node, self.incoming(node)[0]) is Ok,
            self.resolve_ranked(rank, self.incoming(node)[0].from.node as int) is Ok,
        decreases upto,
    {
        if upto > 1 {
            self.lemma_gather_passes_first(rank, node, (upto - 1) as nat);
        } else {
            assert(self.gather_ranked(rank, node, 0) is Ok);
            self.lemma_ranked_at_source(node, rank, 0);
        }
    }

    /// Whether an evaluation comes to apply an operation does not depend on
    /// the ranking along which it descends.
    pub proof fn lemma_opens_rank_is_free(&self, one: Seq<nat>, other: Seq<nat>, node: int)
        requires
            0 <= node < self.node_count(),
            self.ranked_below(node, one),
            self.ranked_below(node, other),
        ensures
            self.opens_ranked(one, node) == self.opens_ranked(other, node),
        decreases one[node],
    {
        if self.input_types(node).len() > 0 && self.incoming(node).len() > 0 && self.check_spec(
            node,
            self.incoming(node)[0],
        ) is Ok {
            self.lemma_ranked_at_source(node, one, 0);
            self.lemma_ranked_at_source(node, other, 0);
            self.lemma_opens_rank_is_free(one, other, self.incoming(node)[0].from.node as int);
        }
    }

    /// A node that has a value was evaluated by applying an operation.
    pub proof fn lemma_value_opens(&self, rank: Seq<nat>, node: int)
        requires
            0 <= node < self.node_count(),
            self.ranked_below(node, rank),
            self.resolve_ranked(rank, node) is Ok,
        ensures
            self.opens_ranked(rank, node),
        decreases rank[node],
    {
        if self.input_types(node).len() > 0 {
            self.lemma_gather_passes_first(rank, node, self.incoming(node).len());
            self.lemma_ranked_at_source(node, rank, 0);
            self.lemma_value_opens(rank, self.incoming(node)[0].from.node as int);
        }
    }

    /// An error on the way stays: once gathering has failed, taking more
    /// connections changes nothing.
    pub proof fn lemma_ranked_error_stays(&self, rank: Seq<nat>, node: int, failed: nat, upto: nat)
        requires
            0 <= node < self.node_count(),
            self.ranked_below(node, rank),
            self.input_types(node).len() > 0,
            failed <= upto <= self.incoming(node).len(),
            self.gather_ranked(rank, node, failed) is Err,
        ensures
            self.gather_ranked(rank, node, upto) == self.gather_ranked(rank, node, failed),
        decreases upto,
    {
        if failed < upto {
            self.lemma_ranked_error_stays(rank, node, failed, (upto - 1) as nat);
        }
    }

    /// An error on the way stays: once gathering has failed, taking more
    /// connections changes nothing.
    pub proof fn lemma_gather_error_stays(&self, node: int, failed: nat, upto: nat)
        requires
            0 <= node < self.node_count(),
            self.acyclic_below(node),
            self.input_types(node).len() > 0,
            failed <= upto <= self.incoming(node).len(),
            self.gather_spec(node, failed) is Err,
        ensures
            self.gather_spec(node, upto) == self.gather_spec(node, failed),
    {
        self.lemma_ranked_error_stays(self.ranking_below(node), node, failed, upto);
    }

    /// Gathering that succeeds brings one cell for each connection.
    pub proof fn lemma_gathered_len(&self, node: int, upto: nat)
        requires
            0 <= node < self.node_count(),
            self.acyclic_below(node),
            self.input_types(node).len() > 0,
            upto <= self.incoming(node).len(),
            self.gather_spec(node, upto) is Ok,
        ensures
            self.gather_spec(node, upto)->Ok_0.len() == upto,
        decreases upto,
    {
        self.lemma_gather_unfolds(node, upto);
        if upto > 0 {
            self.lemma_gathered_len(node, (upto - 1) as nat);
        }
    }

    /// What gathering gives when it succeeds: one cell for each connection,
    /// taken from the value of the node that the connection starts from, with
    /// the socket that the connection ends at.
    pub proof fn lemma_gathered(&self, node: int, upto: nat, at: int)
        requires
            0 <= node < self.node_count(),
            self.acyclic_below(node),
            self.input_types(node).len() > 0,
            0 <= at < upto <= self.incoming(node).len(),
            self.gather_spec(node, upto) is Ok,
        ensures
            self.gather_spec(node, upto)->Ok_0.len() == upto,
            self.check_spec(node, self.incoming(node)[at]) is Ok,
            self.acyclic_below(self.incoming(node)[at].from.node as int),
            self.resolve_spec(self.incoming(node)[at].from.node as int) matches Ok(cells)
                && self.gather_spec(node, upto)->Ok_0[at] == (
                cells[self.incoming(node)[at].from.socket as int],
                self.incoming(node)[at].to.socket,
            ),
        decreases upto,
    {
        self.lemma_gather_unfolds(node, upto);
        self.lemma_gathered_len(node, upto);
        if at < upto - 1 {
            self.lemma_gathered(node, (upto - 1) as nat, at);
        } else {
            self.lemma_gathered_len(node, (upto - 1) as nat);
        }
    }

    /// Gathering succeeds where each connection passes and each source has a
    /// value.
    pub proof fn lemma_gather_succeeds(&self, node: int, upto: nat)
        requires
            0 <= node < self.node_count(),
            self.acyclic_below(node),
            self.input_types(node).len() > 0,
            upto <= self.incoming(node).len(),
            forall|at: int|
                0 <= at < upto ==> self.check_spec(node, #[trigger] self.incoming(node)[at]) is Ok
                    && self.resolve_spec(self.incoming(node)[at].from.node as int) is Ok,
        ensures
            self.gather_spec(node, upto) is Ok,
        decreases upto,
    {
        self.lemma_gather_unfolds(node, upto);
        if upto > 0 {
            self.lemma_gather_succeeds(node, (upto - 1) as nat);
            assert(self.check_spec(node, self.incoming(node)[upto - 1]) is Ok);
        }
    }

    proof fn lemma_ranked_faults(&self, rank: Seq<nat>, node: int)
        requires
            self.wf(),
            0 <= node < self.node_count(),
            self.ranked_below(node, rank),
        ensures
            self.resolve_ranked(rank, node) matches Err(fault) ==> !(fault is MissingOutputNode)
                && !fault.is_clash_spec(),
        decreases rank[node], self.incoming(node).len() + 1,
    {
        assert(self.keeps_types(node));
        if self.input_types(node).len() > 0 {
            self.lemma_ranked_gather_faults(rank, node, self.incoming(node).len());
        }
    }

    proof fn lemma_ranked_gather_faults(&self, rank: Seq<nat>, node: int, upto: nat)
        requires
            self.wf(),
            0 <= node < self.node_count(),
            self.ranked_below(node, rank),
            self.input_types(node).len() > 0,
            upto <= self.incoming(node).len(),
        ensures
            self.gather_ranked(rank, node, upto) matches Err(fault) ==> !(fault
                is MissingOutputNode) && !fault.is_clash_spec(),
        decreases rank[node], upto,
    {
        if upto > 0 {
            self.lemma_ranked_gather_faults(rank, node, (upto - 1) as nat);
            let connection = self.incoming(node)[upto - 1];
            if self.check_spec(node, connection) is Ok {
                self.lemma_ranked_at_source(node, rank, upto - 1);
                self.lemma_ranked_faults(rank, connection.from.node as int);
            }
        }
    }

    /// How an evaluation can fail in a well-formed graph: by a socket that
    /// does not exist, by two sockets of different types, by connections
    /// that are not as many as the inputs, or by a cell of another type than
    /// its socket asks for. It never fails for want of an output node.
    pub proof fn lemma_resolve_faults(&self, node: int)
        requires
            self.wf(),
            0 <= node < self.node_count(),
            self.acyclic_below(node),
        ensures
            self.resolve_spec(node) matches Err(fault) ==> !(fault is MissingOutputNode)
                && !fault.is_clash_spec(),
    {
        self.lemma_ranked_faults(self.ranking_below(node), node);
    }
}

} // verus!
