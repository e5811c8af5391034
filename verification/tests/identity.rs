use node_graph::identity::{Encoding, Payload, TypeIdentity, FIRST_FREE_KEY, UNIT_KEY};

#[derive(Debug, PartialEq)]
struct Text(String);

impl Payload for Text {
    fn identity() -> TypeIdentity {
        Self::type_identity()
    }

    fn encoding(&self) -> Encoding {
        unreachable!()
    }

    fn decoded(_: Encoding) -> Self {
        unreachable!()
    }

    fn type_identity() -> TypeIdentity {
        TypeIdentity::new(100)
    }

    fn duplicate(&self) -> Self {
        Text(self.0.clone())
    }
}

fn builtin() -> Vec<TypeIdentity> {
    vec![
        <() as Payload>::type_identity(),
        <bool as Payload>::type_identity(),
        <u8 as Payload>::type_identity(),
        <u16 as Payload>::type_identity(),
        <u32 as Payload>::type_identity(),
        <u64 as Payload>::type_identity(),
        <usize as Payload>::type_identity(),
        <i8 as Payload>::type_identity(),
        <i16 as Payload>::type_identity(),
        <i32 as Payload>::type_identity(),
        <i64 as Payload>::type_identity(),
        <isize as Payload>::type_identity(),
        <char as Payload>::type_identity(),
    ]
}

#[test]
fn builtin_identities_are_distinct_and_reserved() {
    let all = builtin();
    for (place, one) in all.iter().enumerate() {
        assert!(one.key() < FIRST_FREE_KEY);
        for other in all.iter().skip(place + 1) {
            assert_ne!(one, other);
        }
    }
}

#[test]
fn unit_has_the_unit_identity_and_nothing_else_has() {
    assert!(<() as Payload>::type_identity().is_unit());
    assert_eq!(<() as Payload>::type_identity().key(), UNIT_KEY);
    for other in builtin().iter().skip(1) {
        assert!(!other.is_unit());
    }
    assert!(!Text::type_identity().is_unit());
}

#[test]
fn identity_keeps_its_key_and_its_order() {
    assert_eq!(Text::type_identity().key(), 100);
    assert_eq!(TypeIdentity::new(7), TypeIdentity::new(7));
    assert!(TypeIdentity::new(7).precedes(&TypeIdentity::new(8)));
    assert!(!TypeIdentity::new(8).precedes(&TypeIdentity::new(8)));
    assert!(!TypeIdentity::new(9).precedes(&TypeIdentity::new(8)));
}

#[test]
fn duplicates_are_equal_to_their_source() {
    assert_eq!(5u64.duplicate(), 5);
    assert_eq!((-5i8).duplicate(), -5);
    assert_eq!('x'.duplicate(), 'x');
    assert_eq!(true.duplicate(), true);
    assert_eq!(Text("a".to_string()).duplicate(), Text("a".to_string()));
}
