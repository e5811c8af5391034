//! Signatures: the tuples of payloads that a node takes and gives, and their
//! conversion to and from lists of cells.
use vstd::prelude::*;
use crate::cell::views_of;
use crate::cell::views_of_refs;
use crate::cell::CellView;
use crate::cell::ValueCell;
use crate::error::stands;
use crate::error::GraphError;
use crate::identity::Payload;
use crate::identity::TypeIdentity;

verus! {

/// The identities of the cells of a list, in order.
pub open spec fn identities_of(cells: Seq<CellView>) -> Seq<TypeIdentity> {
    Seq::new(cells.len(), |i: int| cells[i].identity)
}

/// The first of the first `upto` cells that does not hold what its position
/// declares, as the error that says so.
pub open spec fn first_fault(expected: Seq<TypeIdentity>, cells: Seq<CellView>, upto: nat) -> Option<
    GraphError,
>
    decreases upto,
{
    if upto == 0 {
        None
    } else {
        match first_fault(expected, cells, (upto - 1) as nat) {
            Some(fault) => Some(fault),
            None => if cells[upto - 1].identity != expected[upto - 1] {
                Some(
                    GraphError::UnknownType {
                        expected: expected[upto - 1],
                        actual: cells[upto - 1].identity,
                    },
                )
            } else {
                None
            },
        }
    }
}

/// A fault names two identities that differ.
pub proof fn lemma_fault_kind(expected: Seq<TypeIdentity>, cells: Seq<CellView>, upto: nat)
    ensures
        first_fault(expected, cells, upto) matches Some(fault) ==> fault is UnknownType
            && !fault.is_clash_spec(),
    decreases upto,
{
    if upto > 0 {
        lemma_fault_kind(expected, cells, (upto - 1) as nat);
    }
}

/// A fault among the first cells is the first fault of any longer list.
pub proof fn lemma_fault_stays(
    expected: Seq<TypeIdentity>,
    cells: Seq<CellView>,
    found: nat,
    upto: nat,
)
    requires
        found <= upto,
        first_fault(expected, cells, found) is Some,
    ensures
        first_fault(expected, cells, upto) == first_fault(expected, cells, found),
    decreases upto,
{
    if found < upto {
        lemma_fault_stays(expected, cells, found, (upto - 1) as nat);
    }
}

/// Where there is no fault, every cell holds what its position declares.
pub proof fn lemma_no_fault(expected: Seq<TypeIdentity>, cells: Seq<CellView>, upto: nat)
    requires
        first_fault(expected, cells, upto) is None,
    ensures
        forall|at: int| 0 <= at < upto ==> (#[trigger] cells[at]).identity == expected[at],
    decreases upto,
{
    if upto > 0 {
        lemma_no_fault(expected, cells, (upto - 1) as nat);
    }
}

/// Cells that carry the declared identities have no fault.
pub proof fn lemma_fitting_cells(expected: Seq<TypeIdentity>, cells: Seq<CellView>, upto: nat)
    requires
        upto <= expected.len(),
        identities_of(cells) == expected,
    ensures
        first_fault(expected, cells, upto) is None,
    decreases upto,
{
    if upto > 0 {
        lemma_fitting_cells(expected, cells, (upto - 1) as nat);
    }
}

/// Compares the identity of each cell with the identity that its position
/// declares, and reports the first that differs.
pub fn check_identities(items: &Vec<&ValueCell>, expected: &Vec<TypeIdentity>) -> (checked: Result<
    (),
    GraphError,
>)
    requires
        items@.len() == expected@.len(),
    ensures
        checked == (match first_fault(expected@, views_of_refs(items@), expected@.len()) {
            Some(fault) => Err::<(), GraphError>(fault),
            None => Ok(()),
        }),
{
    let mut at: usize = 0;
    while at < expected.len()
        invariant
            at <= expected@.len(),
            items@.len() == expected@.len(),
            first_fault(expected@, views_of_refs(items@), at as nat) is None,
        decreases expected@.len() - at,
    {
        if !items[at].holds(expected[at]) {
            proof {
                lemma_fault_stays(
                    expected@,
                    views_of_refs(items@),
                    (at + 1) as nat,
                    expected@.len(),
                );
            }
            return Err(
                GraphError::UnknownType { expected: expected[at], actual: items[at].type_identity() },
            );
        }
        at = at + 1;
    }
    Ok(())
}

/// A signature: an ordered list of payload types, written as a tuple.
///
/// The signature `((),)` is the empty one. It declares no socket: its list of
/// types is empty, it is assembled from no cell, and it is taken apart into
/// none.
pub trait InputOrOutput: Sized {
    type T;

    /// The identity of each position, in declared order.
    spec fn types() -> Seq<TypeIdentity>;

    /// The tuple that a list of cells makes, or the first cell that does not
    /// hold what its position declares.
    spec fn assemble(cells: Seq<CellView>) -> Result<Self::T, GraphError>;

    /// The cells that a tuple makes, one for each position, in declared order.
    spec fn disassemble(item: Self::T) -> Seq<CellView>;

    /// Whether each element of a tuple can be had back from its encoding.
    spec fn comes_back(item: Self::T) -> bool;

    /// The cells of a tuple carry the declared identities.
    proof fn lemma_disassemble_types(item: Self::T)
        ensures
            identities_of(Self::disassemble(item)) == Self::types(),
    ;

    /// Taking a tuple apart and assembling the cells gives the tuple back.
    proof fn lemma_round_trip(item: Self::T)
        requires
            Self::comes_back(item),
        ensures
            Self::assemble(Self::disassemble(item)) == Ok::<Self::T, GraphError>(item),
    ;

    /// Assembling fails only by a cell that holds another type than its
    /// position declares.
    proof fn lemma_assemble_faults(cells: Seq<CellView>)
        ensures
            Self::assemble(cells) matches Err(fault) ==> fault is UnknownType
                && !fault.is_clash_spec(),
    ;

    /// Cells that carry the declared identities can be assembled.
    proof fn lemma_assemble_fitting(cells: Seq<CellView>)
        requires
            identities_of(cells) == Self::types(),
        ensures
            Self::assemble(cells) is Ok,
    ;

    /// Builds the tuple from copies of the payloads of `items`. Each cell is
    /// opened only after its identity was found to be the declared one.
    fn convert(items: Vec<&ValueCell>) -> (item: Result<Self::T, GraphError>)
        requires
            items@.len() == Self::types().len(),
        ensures
            stands(item, Self::assemble(views_of_refs(items@))),
            Self::assemble(views_of_refs(items@)) is Err ==> item == Self::assemble(
                views_of_refs(items@),
            ),
    ;

    /// Copies each element of the tuple into a cell of its own.
    fn convert_output(item: &Self::T) -> (cells: Vec<ValueCell>)
        ensures
            views_of(cells@) == Self::disassemble(*item),
    ;

    /// The identities that the signature declares.
    fn needed_types() -> (types: Vec<TypeIdentity>)
        ensures
            types@ == Self::types(),
    ;
}

impl<T1: Payload> InputOrOutput for (T1,) {
    type T = (T1,);

    open spec fn types() -> Seq<TypeIdentity> {
        if T1::identity() == TypeIdentity::unit() {
            Seq::empty()
        } else {
            seq![T1::identity()]
        }
    }

    open spec fn assemble(cells: Seq<CellView>) -> Result<Self::T, GraphError> {
        if T1::identity() == TypeIdentity::unit() {
            Ok((ValueCell::payload_spec::<T1>(ValueCell::of(())),))
        } else {
            match first_fault(Self::types(), cells, Self::types().len()) {
                Some(fault) => Err(fault),
                None => Ok((ValueCell::payload_spec::<T1>(cells[0]),)),
            }
        }
    }

    open spec fn disassemble(item: Self::T) -> Seq<CellView> {
        if T1::identity() == TypeIdentity::unit() {
            Seq::empty()
        } else {
            seq![ValueCell::of(item.0)]
        }
    }

    open spec fn comes_back(item: Self::T) -> bool {
        if T1::identity() == TypeIdentity::unit() {
            T1::decoded(().encoding()) == item.0
        } else {
            T1::decoded(item.0.encoding()) == item.0
        }
    }

    proof fn lemma_disassemble_types(item: Self::T) {
    }

    proof fn lemma_round_trip(item: Self::T) {
        Self::lemma_disassemble_types(item);
        lemma_fitting_cells(Self::types(), Self::disassemble(item), Self::types().len());
    }

    proof fn lemma_assemble_faults(cells: Seq<CellView>) {
        lemma_fault_kind(Self::types(), cells, Self::types().len());
    }

    proof fn lemma_assemble_fitting(cells: Seq<CellView>) {
        lemma_fitting_cells(Self::types(), cells, Self::types().len());
    }

    fn convert(items: Vec<&ValueCell>) -> (item: Result<Self::T, GraphError>) {
        if T1::type_identity().is_unit() {
            let unit = ValueCell::new(&());
            let t1 = unit.extract::<T1>()?;
            Ok((t1,))
        } else {
            check_identities(&items, &Self::needed_types())?;
            proof {
                lemma_no_fault(Self::types(), views_of_refs(items@), Self::types().len());
            }
            let t1 = items[0].extract::<T1>()?;
            Ok((t1,))
        }
    }

    fn convert_output(item: &Self::T) -> (cells: Vec<ValueCell>) {
        let mut cells: Vec<ValueCell> = Vec::new();
        if !T1::type_identity().is_unit() {
            cells.push(ValueCell::new(&item.0));
        }
        cells
    }

    fn needed_types() -> (types: Vec<TypeIdentity>) {
        let mut types: Vec<TypeIdentity> = Vec::new();
        if !T1::type_identity().is_unit() {
            types.push(T1::type_identity());
        }
        types
    }
}

} // verus!
