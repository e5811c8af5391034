//! Type identities, and the payloads that carry them.
use vstd::prelude::*;

verus! {

/// A token that stands for one payload type.
///
/// Two sockets fit together exactly when their identities are equal. The
/// engine compares identities and nothing else: it never looks at the shape
/// of a payload.
#[derive(Clone, Copy, Debug, PartialEq, Eq, Structural, PartialOrd, Ord, Hash)]
pub struct TypeIdentity {
    pub key: u64,
}

/// The identity of `()`, the one slot of the empty signature.
pub const UNIT_KEY: u64 = 0;

/// Keys below this bound belong to the payload types of this module.
pub const FIRST_FREE_KEY: u64 = 64;

impl TypeIdentity {
    pub fn new(key: u64) -> (id: TypeIdentity)
        ensures
            id.key == key,
    {
        TypeIdentity { key }
    }

    pub fn key(&self) -> (key: u64)
        ensures
            key == self.key,
    {
        self.key
    }

    /// The identity of `()`.
    pub open spec fn unit() -> TypeIdentity {
        TypeIdentity { key: UNIT_KEY }
    }

    /// Whether this is the identity of `()`.
    pub fn is_unit(&self) -> (unit: bool)
        ensures
            unit == (*self == TypeIdentity::unit()),
    {
        self.key == UNIT_KEY
    }

    /// Whether `self` comes before `other` in the order of identities.
    pub fn precedes(&self, other: &TypeIdentity) -> (before: bool)
        ensures
            before == (self.key < other.key),
    {
        self.key < other.key
    }
}

/// What stands for a payload in the contracts of the engine: a sequence of
/// integers. It holds nothing when the program runs.
pub struct Encoding {
    pub numbers: Ghost<Seq<int>>,
}

/// A value that can travel through a graph.
///
/// A payload type names its identity and can be duplicated. The contracts of
/// the engine see a payload through its `encoding`, from which the value can
/// be had back.
///
/// `identity`, `encoding` and `decoded` are what the contracts speak of; they
/// are never called when the program runs, and an implementation outside
/// verified code may leave their bodies unreachable.
///
/// Keys below `FIRST_FREE_KEY` are taken by the payload types of this module.
/// Payload types should not share an identity. Where two do, a cell that was
/// made from the one is not opened as the other: the evaluation that tries
/// ends with the error that `GraphError::is_clash` tells.
pub trait Payload: Sized + 'static {
    /// The identity that every value of this type carries.
    spec fn identity() -> TypeIdentity;

    /// What stands for this value.
    spec fn encoding(&self) -> Encoding;

    /// The value that an encoding stands for.
    spec fn decoded(encoding: Encoding) -> Self;

    fn type_identity() -> (id: TypeIdentity)
        ensures
            id == Self::identity(),
    ;

    /// An independent copy of this value.
    fn duplicate(&self) -> (copy: Self)
        ensures
            copy == *self,
            Self::decoded(copy.encoding()) == copy,
    ;
}

impl Payload for () {
    open spec fn identity() -> TypeIdentity {
        TypeIdentity::unit()
    }

    open spec fn encoding(&self) -> Encoding {
        Encoding { numbers: Ghost(Seq::empty()) }
    }

    open spec fn decoded(encoding: Encoding) -> Self {
        ()
    }

    fn type_identity() -> (id: TypeIdentity) {
        TypeIdentity::new(UNIT_KEY)
    }

    fn duplicate(&self) -> (copy: Self) {
        ()
    }
}

impl Payload for bool {
    open spec fn identity() -> TypeIdentity {
        TypeIdentity { key: 1 }
    }

    open spec fn encoding(&self) -> Encoding {
        Encoding { numbers: Ghost(seq![if *self { 1int } else { 0int }]) }
    }

    open spec fn decoded(encoding: Encoding) -> Self {
        encoding.numbers@[0] != 0
    }

    fn type_identity() -> (id: TypeIdentity) {
        TypeIdentity::new(1)
    }

    fn duplicate(&self) -> (copy: Self) {
        *self
    }
}

impl Payload for u8 {
    open spec fn identity() -> TypeIdentity {
        TypeIdentity { key: 2 }
    }

    open spec fn encoding(&self) -> Encoding {
        Encoding { numbers: Ghost(seq![*self as int]) }
    }

    open spec fn decoded(encoding: Encoding) -> Self {
        encoding.numbers@[0] as u8
    }

    fn type_identity() -> (id: TypeIdentity) {
        TypeIdentity::new(2)
    }

    fn duplicate(&self) -> (copy: Self) {
        *self
    }
}

impl Payload for u16 {
    open spec fn identity() -> TypeIdentity {
        TypeIdentity { key: 3 }
    }

    open spec fn encoding(&self) -> Encoding {
        Encoding { numbers: Ghost(seq![*self as int]) }
    }

    open spec fn decoded(encoding: Encoding) -> Self {
        encoding.numbers@[0] as u16
    }

    fn type_identity() -> (id: TypeIdentity) {
        TypeIdentity::new(3)
    }

    fn duplicate(&self) -> (copy: Self) {
        *self
    }
}

impl Payload for u32 {
    open spec fn identity() -> TypeIdentity {
        TypeIdentity { key: 4 }
    }

    open spec fn encoding(&self) -> Encoding {
        Encoding { numbers: Ghost(seq![*self as int]) }
    }

    open spec fn decoded(encoding: Encoding) -> Self {
        encoding.numbers@[0] as u32
    }

    fn type_identity() -> (id: TypeIdentity) {
        TypeIdentity::new(4)
    }

    fn duplicate(&self) -> (copy: Self) {
        *self
    }
}

impl Payload for u64 {
    open spec fn identity() -> TypeIdentity {
        TypeIdentity { key: 5 }
    }

    open spec fn encoding(&self) -> Encoding {
        Encoding { numbers: Ghost(seq![*self as int]) }
    }

    open spec fn decoded(encoding: Encoding) -> Self {
        encoding.numbers@[0] as u64
    }

    fn type_identity() -> (id: TypeIdentity) {
        TypeIdentity::new(5)
    }

    fn duplicate(&self) -> (copy: Self) {
        *self
    }
}

impl Payload for usize {
    open spec fn identity() -> TypeIdentity {
        TypeIdentity { key: 6 }
    }

    open spec fn encoding(&self) -> Encoding {
        Encoding { numbers: Ghost(seq![*self as int]) }
    }

    open spec fn decoded(encoding: Encoding) -> Self {
        encoding.numbers@[0] as usize
    }

    fn type_identity() -> (id: TypeIdentity) {
        TypeIdentity::new(6)
    }

    fn duplicate(&self) -> (copy: Self) {
        *self
    }
}

impl Payload for i8 {
    open spec fn identity() -> TypeIdentity {
        TypeIdentity { key: 7 }
    }

    open spec fn encoding(&self) -> Encoding {
        Encoding { numbers: Ghost(seq![*self as int]) }
    }

    open spec fn decoded(encoding: Encoding) -> Self {
        encoding.numbers@[0] as i8
    }

    fn type_identity() -> (id: TypeIdentity) {
        TypeIdentity::new(7)
    }

    fn duplicate(&self) -> (copy: Self) {
        *self
    }
}

impl Payload for i16 {
    open spec fn identity() -> TypeIdentity {
        TypeIdentity { key: 8 }
    }

    open spec fn encoding(&self) -> Encoding {
        Encoding { numbers: Ghost(seq![*self as int]) }
    }

    open spec fn decoded(encoding: Encoding) -> Self {
        encoding.numbers@[0] as i16
    }

    fn type_identity() -> (id: TypeIdentity) {
        TypeIdentity::new(8)
    }

    fn duplicate(&self) -> (copy: Self) {
        *self
    }
}

impl Payload for i32 {
    open spec fn identity() -> TypeIdentity {
        TypeIdentity { key: 9 }
    }

    open spec fn encoding(&self) -> Encoding {
        Encoding { numbers: Ghost(seq![*self as int]) }
    }

    open spec fn decoded(encoding: Encoding) -> Self {
        encoding.numbers@[0] as i32
    }

    fn type_identity() -> (id: TypeIdentity) {
        TypeIdentity::new(9)
    }

    fn duplicate(&self) -> (copy: Self) {
        *self
    }
}

impl Payload for i64 {
    open spec fn identity() -> TypeIdentity {
        TypeIdentity { key: 10 }
    }

    open spec fn encoding(&self) -> Encoding {
        Encoding { numbers: Ghost(seq![*self as int]) }
    }

    open spec fn decoded(encoding: Encoding) -> Self {
        encoding.numbers@[0] as i64
    }

    fn type_identity() -> (id: TypeIdentity) {
        TypeIdentity::new(10)
    }

    fn duplicate(&self) -> (copy: Self) {
        *self
    }
}

impl Payload for isize {
    open spec fn identity() -> TypeIdentity {
        TypeIdentity { key: 11 }
    }

    open spec fn encoding(&self) -> Encoding {
        Encoding { numbers: Ghost(seq![*self as int]) }
    }

    open spec fn decoded(encoding: Encoding) -> Self {
        encoding.numbers@[0] as isize
    }

    fn type_identity() -> (id: TypeIdentity) {
        TypeIdentity::new(11)
    }

    fn duplicate(&self) -> (copy: Self) {
        *self
    }
}

impl Payload for char {
    open spec fn identity() -> TypeIdentity {
        TypeIdentity { key: 12 }
    }

    open spec fn encoding(&self) -> Encoding {
        Encoding { numbers: Ghost(seq![*self as int]) }
    }

    open spec fn decoded(encoding: Encoding) -> Self {
        choose|c: char| #[trigger] c.encoding() == encoding
    }

    fn type_identity() -> (id: TypeIdentity) {
        TypeIdentity::new(12)
    }

    fn duplicate(&self) -> (copy: Self) {
        proof {
            let found = Self::decoded(self.encoding());
            assert(found.encoding().numbers@[0] == found as int);
        }
        *self
    }
}

} // verus!
