//! Telling whether a node can be evaluated: whether no cycle feeds it.
use vstd::prelude::*;
use crate::node::Connection;
use crate::node::NodeGraph;
use crate::resolve::start_of;

verus! {

/// How many of the first `upto` nodes are placed.
pub open spec fn placed_count(placed: Seq<bool>, upto: nat) -> nat
    decreases upto,
{
    if upto == 0 {
        0
    } else {
        placed_count(placed, (upto - 1) as nat) + if placed[upto - 1] {
            1nat
        } else {
            0nat
        }
    }
}

proof fn lemma_placing_counts(placed: Seq<bool>, node: int, upto: nat)
    requires
        0 <= node < placed.len(),
        !placed[node],
        upto <= placed.len(),
    ensures
        placed_count(placed.update(node, true), upto) == placed_count(placed, upto) + if node
            < upto {
            1nat
        } else {
            0nat
        },
    decreases upto,
{
    if upto > 0 {
        lemma_placing_counts(placed, node, (upto - 1) as nat);
    }
}

proof fn lemma_count_is_bounded(placed: Seq<bool>, upto: nat)
    requires
        upto <= placed.len(),
    ensures
        placed_count(placed, upto) <= upto,
        placed_count(placed, upto) == upto ==> forall|node: int|
            0 <= node < upto ==> placed[node],
    decreases upto,
{
    if upto > 0 {
        lemma_count_is_bounded(placed, (upto - 1) as nat);
    }
}

/// Among the first `upto` nodes, one that is left and that no other one
/// that is left ranks below.
proof fn lemma_lowest_left(rank: Seq<nat>, left: Set<int>, upto: nat) -> (lowest: int)
    requires
        upto <= rank.len(),
        exists|node: int| 0 <= node < upto && left.contains(node),
    ensures
        0 <= lowest < upto,
        left.contains(lowest),
        forall|node: int| 0 <= node < upto && left.contains(node) ==> rank[lowest] <= rank[node],
    decreases upto,
{
    let last: int = upto - 1;
    if exists|node: int| 0 <= node < last && left.contains(node) {
        let before: int = lemma_lowest_left(rank, left, last as nat);
        if left.contains(last) && rank[last] < rank[before] {
            last
        } else {
            before
        }
    } else {
        last
    }
}

impl NodeGraph {
    /// Whether the node at `node` can be placed after the placed nodes: it
    /// declares no input, or each node that feeds it is placed.
    pub open spec fn is_ready(&self, node: int, placed: Seq<bool>) -> bool {
        self.input_types(node).len() == 0 || forall|at: int|
            0 <= at < self.incoming(node).len() && (#[trigger] self.incoming(node)[at]).from.node
                < self.node_count() ==> placed[self.incoming(node)[at].from.node as int]
    }

    /// Whether each placed node that declares inputs is fed from placed
    /// nodes of a lower rank.
    pub open spec fn placed_in_order(&self, placed: Seq<bool>, rank: Seq<nat>) -> bool {
        forall|node: int, at: int|
            0 <= node < self.node_count() && placed[node] && 0 <= at < self.incoming(node).len()
                && self.input_types(node).len() > 0 && (#[trigger] self.incoming(
                node,
            )[at]).from.node < self.node_count() ==> placed[self.incoming(node)[at].from.node as int]
                && rank[self.incoming(node)[at].from.node as int] < rank[node]
    }

    /// What feeds a placed node is placed.
    proof fn lemma_feeders_are_placed(
        &self,
        placed: Seq<bool>,
        rank: Seq<nat>,
        node: int,
        chain: Seq<Connection>,
    )
        requires
            placed.len() == self.node_count(),
            self.placed_in_order(placed, rank),
            0 <= node < self.node_count(),
            placed[node],
            self.leads_to(node, chain),
        ensures
            0 <= start_of(node, chain) < self.node_count(),
            placed[start_of(node, chain)],
        decreases chain.len(),
    {
        if chain.len() > 0 {
            let first: int = self.incoming(node).index_of(chain[0]);
            assert(placed[self.incoming(node)[first].from.node as int]);
            if chain.len() > 1 {
                assert(chain.drop_first().last() == chain.last());
            }
            self.lemma_feeders_are_placed(
                placed,
                rank,
                chain[0].from.node as int,
                chain.drop_first(),
            );
        }
    }

    /// A placed node has no cycle below it: the order of placing ranks what
    /// feeds it.
    proof fn lemma_placed_is_acyclic(&self, placed: Seq<bool>, rank: Seq<nat>, node: int)
        requires
            placed.len() == self.node_count(),
            rank.len() == self.node_count(),
            self.placed_in_order(placed, rank),
            0 <= node < self.node_count(),
            placed[node],
        ensures
            self.acyclic_below(node),
    {
        assert forall|source: int, at: int|
            self.feeds(source, node) && 0 <= at < self.incoming(source).len()
                && self.input_types(source).len() > 0 && (#[trigger] self.incoming(
                source,
            )[at]).from.node < self.node_count() implies rank[self.incoming(
            source,
        )[at].from.node as int] < rank[source] by {
            let chain = choose|chain: Seq<Connection>| #[trigger]
                self.leads_to(node, chain) && start_of(node, chain) == source;
            self.lemma_feeders_are_placed(placed, rank, node, chain);
        }
        assert(self.ranked_below(node, rank));
    }

    /// Where none of the unplaced nodes is ready, an unplaced node has a
    /// cycle below it: of the unplaced nodes that feed it, the one of the
    /// lowest rank would be fed from an unplaced one of a lower rank.
    proof fn lemma_stuck_is_cyclic(&self, placed: Seq<bool>, node: int)
        requires
            placed.len() == self.node_count(),
            0 <= node < self.node_count(),
            !placed[node],
            forall|other: int| 0 <= other < placed.len() && !placed[other] ==> !self.is_ready(
                other,
                placed,
            ),
        ensures
            !self.acyclic_below(node),
    {
        if self.acyclic_below(node) {
            let rank = self.ranking_below(node);
            let left = Set::new(
                |other: int|
                    0 <= other < self.node_count() && !placed[other] && self.feeds(other, node),
            );
            self.lemma_feeds_itself(node);
            assert(left.contains(node));
            let lowest: int = lemma_lowest_left(rank, left, self.node_count());
            assert(!self.is_ready(lowest, placed));
            let at: int = choose|at: int|
                0 <= at < self.incoming(lowest).len() && (#[trigger] self.incoming(
                    lowest,
                )[at]).from.node < self.node_count() && !placed[self.incoming(
                    lowest,
                )[at].from.node as int];
            let from: int = self.incoming(lowest)[at].from.node as int;
            self.lemma_feeds_onward(lowest, node, at);
            assert(left.contains(from));
            assert(rank[from] < rank[lowest]);
        }
    }

    /// Whether the node at `node` is ready to be placed.
    fn ready(&self, node: usize, placed: &Vec<bool>) -> (ready: bool)
        requires
            node < self.node_count(),
            placed@.len() == self.node_count(),
        ensures
            ready == self.is_ready(node as int, placed@),
    {
        if self.get_node(node).needed_types_input().len() == 0 {
            return true;
        }
        let connections = self.connections_into(node);
        let mut at: usize = 0;
        while at < connections.len()
            invariant
                node < self.node_count(),
                placed@.len() == self.node_count(),
                connections@ == self.incoming(node as int),
                self.input_types(node as int).len() > 0,
                at <= connections@.len(),
                forall|before: int|
                    0 <= before < at && (#[trigger] self.incoming(node as int)[before]).from.node
                        < self.node_count() ==> placed@[self.incoming(
                        node as int,
                    )[before].from.node as int],
            decreases connections@.len() - at,
        {
            let from: usize = connections[at].from.node;
            if from < placed.len() && !placed[from] {
                return false;
            }
            at = at + 1;
        }
        true
    }

    /// Whether no cycle feeds the node at `node`, so that it can be
    /// evaluated.
    ///
    /// The nodes are placed one after the other, each only when it is ready.
    /// Once `node` has its place, the places rank what feeds it. Where the
    /// placing gets stuck before, a cycle feeds `node`.
    pub fn is_acyclic_below(&self, node: usize) -> (acyclic: bool)
        requires
            node < self.node_count(),
        ensures
            acyclic == self.acyclic_below(node as int),
    {
        let count: usize = self.len();
        let mut placed: Vec<bool> = Vec::new();
        while placed.len() < count
            invariant
                placed@.len() <= count,
                forall|other: int| 0 <= other < placed@.len() ==> !placed@[other],
            decreases count - placed@.len(),
        {
            placed.push(false);
        }
        let ghost mut rank: Seq<nat> = Seq::new(count as nat, |other: int| 0nat);
        let mut round: usize = 0;
        proof {
            lemma_none_placed(placed@, count as nat);
        }
        while round < count
            invariant
                count == self.node_count(),
                node < count,
                placed@.len() == count,
                rank.len() == count,
                round <= count,
                placed_count(placed@, count as nat) == round,
                !placed@[node as int],
                forall|other: int| 0 <= other < count && placed@[other] ==> rank[other] < round,
                self.placed_in_order(placed@, rank),
            decreases count - round,
        {
            let mut candidate: usize = 0;
            let mut found = false;
            while candidate < count && !found
                invariant
                    count == self.node_count(),
                    placed@.len() == count,
                    candidate <= count,
                    found ==> candidate < count && !placed@[candidate as int] && self.is_ready(
                        candidate as int,
                        placed@,
                    ),
                    forall|other: int|
                        0 <= other < candidate && !found && !placed@[other] ==> !self.is_ready(
                            other,
                            placed@,
                        ),
                decreases count - candidate + if found { 0int } else { 1int },
            {
                if !placed[candidate] && self.ready(candidate, &placed) {
                    found = true;
                } else {
                    candidate = candidate + 1;
                }
            }
            if !found {
                proof {
                    self.lemma_stuck_is_cyclic(placed@, node as int);
                }
                return false;
            }
            proof {
                lemma_placing_counts(placed@, candidate as int, count as nat);
                rank = rank.update(candidate as int, round as nat);
            }
            placed.set(candidate, true);
            round = round + 1;
            if candidate == node {
                proof {
                    self.lemma_placed_is_acyclic(placed@, rank, node as int);
                }
                return true;
            }
        }
        proof {
            lemma_count_is_bounded(placed@, count as nat);
        }
        true
    }
}

proof fn lemma_none_placed(placed: Seq<bool>, upto: nat)
    requires
        upto <= placed.len(),
        forall|node: int| 0 <= node < placed.len() ==> !placed[node],
    ensures
        placed_count(placed, upto) == 0,
    decreases upto,
{
    if upto > 0 {
        lemma_none_placed(placed, (upto - 1) as nat);
    }
}

} // verus!
