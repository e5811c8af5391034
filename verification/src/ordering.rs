//! The order in which gathered cells are handed to an operation: by the
//! socket that each is bound for.
use vstd::prelude::*;
use crate::cell::views_of_refs;
use crate::cell::CellView;
use crate::cell::ValueCell;

verus! {

/// The views of a list of cells that each stand with the socket that they
/// are bound for.
pub open spec fn fed_views(fed: Seq<(ValueCell, usize)>) -> Seq<(CellView, usize)> {
    Seq::new(fed.len(), |at: int| (fed[at].0@, fed[at].1))
}

/// The cells of `fed` that are bound for `socket`, among the first `upto`,
/// in the order in which they stand.
pub open spec fn picked(fed: Seq<(CellView, usize)>, socket: int, upto: nat) -> Seq<CellView>
    decreases upto,
{
    if upto == 0 {
        Seq::empty()
    } else {
        let before = picked(fed, socket, (upto - 1) as nat);
        if fed[upto - 1].1 == socket {
            before.push(fed[upto - 1].0)
        } else {
            before
        }
    }
}

/// The cells of `fed` in the order of the sockets that they are bound for,
/// for the sockets below `sockets`. Cells bound for one socket keep the order
/// in which they stand.
pub open spec fn ordered(fed: Seq<(CellView, usize)>, sockets: nat) -> Seq<CellView>
    decreases sockets,
{
    if sockets == 0 {
        Seq::empty()
    } else {
        ordered(fed, (sockets - 1) as nat) + picked(fed, sockets - 1, fed.len())
    }
}

/// How many of the first `upto` cells of `fed` are bound for a socket below
/// `sockets`.
pub open spec fn bound_below(fed: Seq<(CellView, usize)>, sockets: nat, upto: nat) -> nat
    decreases upto,
{
    if upto == 0 {
        0
    } else {
        bound_below(fed, sockets, (upto - 1) as nat) + if fed[upto - 1].1 < sockets {
            1nat
        } else {
            0nat
        }
    }
}

proof fn lemma_picked_counts(fed: Seq<(CellView, usize)>, socket: nat, upto: nat)
    ensures
        bound_below(fed, socket + 1, upto) == bound_below(fed, socket, upto) + picked(
            fed,
            socket as int,
            upto,
        ).len(),
    decreases upto,
{
    if upto > 0 {
        lemma_picked_counts(fed, socket, (upto - 1) as nat);
    }
}

proof fn lemma_ordered_counts(fed: Seq<(CellView, usize)>, sockets: nat)
    ensures
        ordered(fed, sockets).len() == bound_below(fed, sockets, fed.len()),
    decreases sockets,
{
    if sockets == 0 {
        lemma_none_below_zero(fed, fed.len());
    } else {
        lemma_ordered_counts(fed, (sockets - 1) as nat);
        lemma_picked_counts(fed, (sockets - 1) as nat, fed.len());
    }
}

proof fn lemma_none_below_zero(fed: Seq<(CellView, usize)>, upto: nat)
    ensures
        bound_below(fed, 0, upto) == 0,
    decreases upto,
{
    if upto > 0 {
        lemma_none_below_zero(fed, (upto - 1) as nat);
    }
}

proof fn lemma_all_below(fed: Seq<(CellView, usize)>, sockets: nat, upto: nat)
    requires
        upto <= fed.len(),
        forall|at: int| 0 <= at < fed.len() ==> (#[trigger] fed[at]).1 < sockets,
    ensures
        bound_below(fed, sockets, upto) == upto,
    decreases upto,
{
    if upto > 0 {
        lemma_all_below(fed, sockets, (upto - 1) as nat);
    }
}

/// Ordering keeps every cell: where each cell is bound for a socket below
/// `sockets`, there are as many ordered cells as cells.
pub proof fn lemma_ordered_len(fed: Seq<(CellView, usize)>, sockets: nat)
    requires
        forall|at: int| 0 <= at < fed.len() ==> (#[trigger] fed[at]).1 < sockets,
    ensures
        ordered(fed, sockets).len() == fed.len(),
{
    lemma_ordered_counts(fed, sockets);
    lemma_all_below(fed, sockets, fed.len());
}

/// The cells of `fed` in the order of the sockets that they are bound for.
/// Cells bound for one socket keep the order in which they stand.
pub fn order_by_socket(fed: &Vec<(ValueCell, usize)>, sockets: usize) -> (cells: Vec<&ValueCell>)
    ensures
        views_of_refs(cells@) == ordered(fed_views(fed@), sockets as nat),
{
    let mut cells: Vec<&ValueCell> = Vec::new();
    let mut socket: usize = 0;
    while socket < sockets
        invariant
            socket <= sockets,
            views_of_refs(cells@) == ordered(fed_views(fed@), socket as nat),
        decreases sockets - socket,
    {
        let ghost before = views_of_refs(cells@);
        let mut at: usize = 0;
        while at < fed.len()
            invariant
                at <= fed@.len(),
                views_of_refs(cells@) == before + picked(fed_views(fed@), socket as int, at as nat),
            decreases fed@.len() - at,
        {
            let ghost chosen = views_of_refs(cells@);
            if fed[at].1 == socket {
                cells.push(&fed[at].0);
                assert(views_of_refs(cells@) =~= chosen.push(fed@[at as int].0@));
            }
            at = at + 1;
        }
        socket = socket + 1;
    }
    cells
}

/// A list of gathered cells with two neighbours changed places.
pub open spec fn swapped(fed: Seq<(CellView, usize)>, at: int) -> Seq<(CellView, usize)> {
    fed.update(at, fed[at + 1]).update(at + 1, fed[at])
}

proof fn lemma_picked_ignores_swap(fed: Seq<(CellView, usize)>, socket: int, at: int, upto: nat)
    requires
        0 <= at,
        at + 1 < fed.len(),
        fed[at].1 != fed[at + 1].1,
        upto <= at || at + 2 <= upto <= fed.len(),
    ensures
        picked(swapped(fed, at), socket, upto) == picked(fed, socket, upto),
    decreases upto,
{
    reveal_with_fuel(picked, 3);
    if 0 < upto <= at || upto > at + 2 {
        lemma_picked_ignores_swap(fed, socket, at, (upto - 1) as nat);
    } else if upto > 0 {
        lemma_picked_ignores_swap(fed, socket, at, at as nat);
    }
}

/// The order in which cells are brought does not count, only the socket
/// that each is bound for: changing the places of two neighbours that are
/// bound for different sockets leaves the ordered cells as they are.
pub proof fn lemma_order_ignores_swap(fed: Seq<(CellView, usize)>, sockets: nat, at: int)
    requires
        0 <= at,
        at + 1 < fed.len(),
        fed[at].1 != fed[at + 1].1,
    ensures
        ordered(swapped(fed, at), sockets) == ordered(fed, sockets),
    decreases sockets,
{
    if sockets > 0 {
        lemma_order_ignores_swap(fed, (sockets - 1) as nat, at);
        lemma_picked_ignores_swap(fed, sockets - 1, at, fed.len());
    }
}

/// Whether no two of the cells are bound for one socket.
pub open spec fn one_cell_each(fed: Seq<(CellView, usize)>) -> bool {
    forall|i: int, j: int| 0 <= i < j < fed.len() ==> fed[i].1 != fed[j].1
}

proof fn lemma_picked_none(fed: Seq<(CellView, usize)>, socket: int, upto: nat)
    requires
        upto <= fed.len(),
        forall|i: int| 0 <= i < upto ==> fed[i].1 != socket,
    ensures
        picked(fed, socket, upto) == Seq::<CellView>::empty(),
    decreases upto,
{
    if upto > 0 {
        lemma_picked_none(fed, socket, (upto - 1) as nat);
    }
}

proof fn lemma_picked_one(fed: Seq<(CellView, usize)>, at: int, upto: nat)
    requires
        one_cell_each(fed),
        0 <= at < upto <= fed.len(),
    ensures
        picked(fed, fed[at].1 as int, upto) == seq![fed[at].0],
    decreases upto,
{
    if at == upto - 1 {
        lemma_picked_none(fed, fed[at].1 as int, (upto - 1) as nat);
    } else {
        lemma_picked_one(fed, at, (upto - 1) as nat);
    }
}

proof fn lemma_picked_at_most_one(fed: Seq<(CellView, usize)>, socket: int)
    requires
        one_cell_each(fed),
    ensures
        picked(fed, socket, fed.len()).len() <= 1,
{
    if exists|i: int| 0 <= i < fed.len() && fed[i].1 == socket {
        let i: int = choose|i: int| 0 <= i < fed.len() && fed[i].1 == socket;
        lemma_picked_one(fed, i, fed.len());
    } else {
        lemma_picked_none(fed, socket, fed.len());
    }
}

proof fn lemma_ordered_grows_slowly(fed: Seq<(CellView, usize)>, low: nat, high: nat)
    requires
        one_cell_each(fed),
        low <= high,
    ensures
        ordered(fed, low).len() <= ordered(fed, high).len() <= ordered(fed, low).len() + (high
            - low),
        forall|place: int|
            0 <= place < ordered(fed, low).len() ==> ordered(fed, high)[place] == ordered(
                fed,
                low,
            )[place],
    decreases high,
{
    if low < high {
        lemma_ordered_grows_slowly(fed, low, (high - 1) as nat);
        lemma_picked_at_most_one(fed, high - 1);
    }
}

proof fn lemma_picked_member(fed: Seq<(CellView, usize)>, socket: int, upto: nat, place: int) -> (at:
    int)
    requires
        upto <= fed.len(),
        0 <= place < picked(fed, socket, upto).len(),
    ensures
        0 <= at < upto,
        fed[at].1 == socket,
        picked(fed, socket, upto)[place] == fed[at].0,
    decreases upto,
{
    let before = picked(fed, socket, (upto - 1) as nat);
    if place < before.len() {
        lemma_picked_member(fed, socket, (upto - 1) as nat, place)
    } else {
        upto - 1
    }
}

/// Where each socket of a node gets just one cell, the cell at the place of
/// a socket is the cell that was brought for that socket.
pub proof fn lemma_ordered_sources(fed: Seq<(CellView, usize)>, sockets: nat, socket: int) -> (at:
    int)
    requires
        fed.len() == sockets,
        forall|i: int| 0 <= i < fed.len() ==> (#[trigger] fed[i]).1 < sockets,
        one_cell_each(fed),
        0 <= socket < sockets,
    ensures
        0 <= at < fed.len(),
        fed[at].1 == socket,
        ordered(fed, sockets).len() == sockets,
        ordered(fed, sockets)[socket] == fed[at].0,
{
    lemma_ordered_len(fed, sockets);
    lemma_ordered_grows_slowly(fed, 0, socket as nat);
    lemma_ordered_grows_slowly(fed, socket as nat, sockets);
    lemma_ordered_grows_slowly(fed, (socket + 1) as nat, sockets);
    lemma_picked_at_most_one(fed, socket);
    lemma_picked_member(fed, socket, fed.len(), 0)
}

/// Where each socket of a node gets just one cell, the cell that is bound
/// for a socket stands at the place of that socket, in whatever order the
/// cells were brought.
pub proof fn lemma_ordered_places(fed: Seq<(CellView, usize)>, sockets: nat, at: int)
    requires
        fed.len() == sockets,
        forall|i: int| 0 <= i < fed.len() ==> (#[trigger] fed[i]).1 < sockets,
        one_cell_each(fed),
        0 <= at < fed.len(),
    ensures
        ordered(fed, sockets).len() == sockets,
        ordered(fed, sockets)[fed[at].1 as int] == fed[at].0,
{
    let socket: nat = fed[at].1 as nat;
    lemma_ordered_len(fed, sockets);
    lemma_ordered_grows_slowly(fed, 0, socket);
    lemma_ordered_grows_slowly(fed, socket, sockets);
    lemma_ordered_grows_slowly(fed, socket + 1, sockets);
    lemma_picked_one(fed, at, fed.len());
}

} // verus!
