//! Value cells: one payload each, with its type erased.
use vstd::prelude::*;
use std::any::Any;
use crate::error::GraphError;
use crate::identity::Encoding;
use crate::identity::Payload;
use crate::identity::TypeIdentity;

verus! {

/// What the contracts see of a cell: the identity of the payload's type and
/// the payload's encoding.
pub struct CellView {
    pub identity: TypeIdentity,
    pub encoding: Encoding,
}

/// A boxed payload of a type that only the box knows.
///
/// The box is a `Box<dyn Any>`, of which the verifier is told nothing. What
/// it holds is named by `erased_identity` and `erased_encoding`, and only
/// `erase` and `downcast` touch it: what they claim of the box is taken on
/// trust.
#[verifier::external_body]
pub struct Erased {
    payload: Box<dyn Any>,
}

/// The identity of the type of the payload in the box.
pub uninterp spec fn erased_identity(boxed: Erased) -> TypeIdentity;

/// The encoding of the payload in the box.
pub uninterp spec fn erased_encoding(boxed: Erased) -> Encoding;

/// Boxes a payload as `Box<dyn Any>`: `Box::new`, then the unsizing
/// coercion. Trusted: the box holds the value that was handed in, so what it
/// holds has that value's type and that value's encoding.
#[verifier::external_body]
fn erase<T: Payload>(value: T) -> (boxed: Erased)
    ensures
        erased_identity(boxed) == T::identity(),
        erased_encoding(boxed) == value.encoding(),
{
    Erased { payload: Box::new(value) }
}

/// Looks into the box with `<dyn Any>::downcast_ref`, which hands out a
/// reference to the payload where the payload has the type asked for, and
/// nothing otherwise. Trusted: what is handed out is what the box holds, a
/// value of the type asked for. Nothing is claimed of when the box opens:
/// that goes by the type, of which the contracts know only the identity.
#[verifier::external_body]
fn downcast<T: Payload>(boxed: &Erased) -> (payload: Option<&T>)
    ensures
        payload matches Some(value) ==> erased_identity(*boxed) == T::identity()
            && value.encoding() == erased_encoding(*boxed),
{
    boxed.payload.downcast_ref::<T>()
}

/// One payload, owned, with its type erased and its identity kept beside it.
///
/// Cells are what flows along a connection. Each one is an independent copy:
/// making a cell duplicates the payload, and so does taking the payload out.
pub struct ValueCell {
    tag: TypeIdentity,
    payload: Erased,
}

impl View for ValueCell {
    type V = CellView;

    closed spec fn view(&self) -> CellView {
        CellView { identity: self.tag, encoding: erased_encoding(self.payload) }
    }
}

impl ValueCell {
    #[verifier::type_invariant]
    spec fn tag_is_held_type(self) -> bool {
        self.tag == erased_identity(self.payload)
    }

    /// The cell that `value` makes: its identity, and its encoding.
    pub open spec fn of<T: Payload>(value: T) -> CellView {
        CellView { identity: T::identity(), encoding: value.encoding() }
    }

    /// Whether a cell with this view holds a payload of type `T`.
    pub open spec fn holds_spec<T: Payload>(cell: CellView) -> bool {
        cell.identity == T::identity()
    }

    /// The payload of type `T` in a cell with this view.
    pub open spec fn payload_spec<T: Payload>(cell: CellView) -> T {
        T::decoded(cell.encoding)
    }

    /// What taking a `T` out of a cell with this view gives.
    pub open spec fn extract_spec<T: Payload>(cell: CellView) -> Result<T, GraphError> {
        if Self::holds_spec::<T>(cell) {
            Ok(Self::payload_spec::<T>(cell))
        } else {
            Err(GraphError::UnknownType { expected: T::identity(), actual: cell.identity })
        }
    }

    /// What opening a cell with this view as a `T` may give: what taking a
    /// `T` out means, or else, where the cell carries the identity of `T`,
    /// the clash of that identity.
    pub open spec fn opens_as<T: Payload>(cell: CellView, taken: Result<T, GraphError>) -> bool {
        taken == Self::extract_spec::<T>(cell) || (Self::holds_spec::<T>(cell) && taken == Err::<
            T,
            GraphError,
        >(GraphError::UnknownType { expected: T::identity(), actual: T::identity() }))
    }

    /// Taking out what was put in gives it back.
    pub proof fn lemma_extract_of<T: Payload>(value: T)
        requires
            T::decoded(value.encoding()) == value,
        ensures
            Self::extract_spec::<T>(Self::of(value)) == Ok::<T, GraphError>(value),
    {
    }

    /// A cell that holds a copy of `value`.
    pub fn new<T: Payload>(value: &T) -> (cell: ValueCell)
        ensures
            cell@ == Self::of(*value),
    {
        let tag = T::type_identity();
        let payload = erase(value.duplicate());
        ValueCell { tag, payload }
    }

    /// The identity of the type of the payload.
    pub fn type_identity(&self) -> (id: TypeIdentity)
        ensures
            id == self@.identity,
    {
        self.tag
    }

    /// Whether the payload is of the type with this identity.
    pub fn holds(&self, id: TypeIdentity) -> (held: bool)
        ensures
            held == (self@.identity == id),
    {
        self.tag == id
    }

    /// What a box that was looked into gives: a copy of the payload that was
    /// found in it, or, where none was found, the error that names the
    /// identity asked for and the identity `tag` of the cell.
    pub fn opened<T: Payload>(tag: TypeIdentity, found: Option<&T>) -> (taken: Result<
        T,
        GraphError,
    >)
        ensures
            taken == (match found {
                Some(value) => Ok::<T, GraphError>(*value),
                None => Err(GraphError::UnknownType { expected: T::identity(), actual: tag }),
            }),
            taken matches Ok(copy) ==> T::decoded(copy.encoding()) == copy,
    {
        match found {
            Some(value) => Ok(value.duplicate()),
            None => Err(GraphError::UnknownType { expected: T::type_identity(), actual: tag }),
        }
    }

    /// A copy of the payload, if it is a `T`. The identities are compared
    /// before the box is opened. Where they differ, the error names both.
    /// Where they agree, the box gives the payload, unless it holds a payload
    /// of another type with the same identity: then the error is the clash.
    pub fn extract<T: Payload>(&self) -> (taken: Result<T, GraphError>)
        ensures
            Self::opens_as::<T>(self@, taken),
    {
        proof {
            use_type_invariant(self);
        }
        let expected = T::type_identity();
        if self.tag == expected {
            Self::opened(self.tag, downcast::<T>(&self.payload))
        } else {
            Err(GraphError::UnknownType { expected, actual: self.tag })
        }
    }
}

/// The views of the cells of a list, in order.
pub open spec fn views_of(cells: Seq<ValueCell>) -> Seq<CellView> {
    Seq::new(cells.len(), |i: int| cells[i]@)
}

/// The views of the cells that a list refers to, in order.
pub open spec fn views_of_refs(cells: Seq<&ValueCell>) -> Seq<CellView> {
    Seq::new(cells.len(), |i: int| cells[i]@)
}

} // verus!
