use node_graph::cell::ValueCell;
use node_graph::error::GraphError;
use node_graph::identity::{Encoding, Payload, TypeIdentity};

#[derive(Debug, Clone, PartialEq)]
struct Label(String);

impl Payload for Label {
    fn identity() -> TypeIdentity {
        Self::type_identity()
    }

    fn encoding(&self) -> Encoding {
        unreachable!()
    }

    fn decoded(_: Encoding) -> Self {
        unreachable!()
    }

    fn type_identity() -> TypeIdentity {
        TypeIdentity::new(200)
    }

    fn duplicate(&self) -> Self {
        self.clone()
    }
}

#[test]
fn cell_gives_back_what_it_was_made_from() {
    let cell = ValueCell::new(&17u32);
    assert_eq!(cell.extract::<u32>(), Ok(17));
    let cell = ValueCell::new(&Label("a".to_string()));
    assert_eq!(cell.extract::<Label>(), Ok(Label("a".to_string())));
    let cell = ValueCell::new(&());
    assert_eq!(cell.extract::<()>(), Ok(()));
}

#[test]
fn cell_holds_a_copy_of_its_own() {
    let mut original = Label("first".to_string());
    let cell = ValueCell::new(&original);
    original.0.push_str(" changed");
    assert_eq!(cell.extract::<Label>(), Ok(Label("first".to_string())));
    let mut taken = cell.extract::<Label>().unwrap();
    taken.0.push_str(" too");
    assert_eq!(cell.extract::<Label>(), Ok(Label("first".to_string())));
}

#[test]
fn cell_knows_the_identity_of_its_payload() {
    let cell = ValueCell::new(&true);
    assert_eq!(cell.type_identity(), <bool as Payload>::type_identity());
    assert!(cell.holds(<bool as Payload>::type_identity()));
    assert!(!cell.holds(<u8 as Payload>::type_identity()));
    assert!(!cell.holds(Label::type_identity()));
}

#[test]
fn cell_refuses_to_give_another_type() {
    let cell = ValueCell::new(&17u32);
    assert_eq!(
        cell.extract::<u64>(),
        Err(GraphError::UnknownType {
            expected: <u64 as Payload>::type_identity(),
            actual: <u32 as Payload>::type_identity(),
        })
    );
    assert_eq!(
        cell.extract::<Label>(),
        Err(GraphError::UnknownType {
            expected: Label::type_identity(),
            actual: <u32 as Payload>::type_identity(),
        })
    );
}

#[test]
fn what_a_box_gave_becomes_a_result() {
    let tag = <bool as Payload>::type_identity();
    assert_eq!(ValueCell::opened::<i64>(tag, Some(&5)), Ok(5));
    assert_eq!(
        ValueCell::opened::<i64>(tag, None),
        Err(GraphError::UnknownType { expected: <i64 as Payload>::type_identity(), actual: tag })
    );
    let own = <i64 as Payload>::type_identity();
    assert_eq!(
        ValueCell::opened::<i64>(own, None),
        Err(GraphError::UnknownType { expected: own, actual: own })
    );
}
