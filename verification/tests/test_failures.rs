use serde_yml::de::{newtype_body, struct_body, tuple_body};
use serde_yml::error::Error;
use serde_yml::event::Event;
use serde_yml::ser::{MaybeTag, Serializer, SerializerConfig, State};
use serde_yml::value::Value;

fn waiting(tag: &str) -> Serializer {
    let mut serializer = Serializer::new_with_config(SerializerConfig { tag_unit_variants: true });
    serializer.serialize_seq(None).unwrap();
    serializer.serialize_i64(1).unwrap();
    serializer.state = State::FoundTag(tag.to_owned());
    serializer
}

fn untouched(serializer: &Serializer, before: &[Event], depth: usize, tag: &str) {
    assert_eq!(serializer.state, State::FoundTag(tag.to_owned()));
    assert_eq!(serializer.depth, depth);
    assert_eq!(serializer.emitter.events().as_slice(), before);
    assert!(serializer.config.tag_unit_variants);
}

#[test]
fn test_unit_variant_under_a_tag_leaves_the_encoder_alone() {
    let mut serializer = waiting("Outer");
    let before = serializer.emitter.events().clone();
    let depth = serializer.depth;
    assert_eq!(serializer.serialize_unit_variant("E", 0, "A"), Err(Error::NestedEnumTag));
    untouched(&serializer, &before, depth, "Outer");
}

#[test]
fn test_newtype_variant_under_a_tag_leaves_the_encoder_alone() {
    let mut serializer = waiting("Outer");
    let before = serializer.emitter.events().clone();
    let depth = serializer.depth;
    assert_eq!(
        serializer.serialize_newtype_variant("E", 1, "B", &Value::U64(42)),
        Err(Error::NestedEnumTag)
    );
    untouched(&serializer, &before, depth, "Outer");
}

#[test]
fn test_tuple_variant_under_a_tag_leaves_the_encoder_alone() {
    let mut serializer = waiting("Outer");
    let before = serializer.emitter.events().clone();
    let depth = serializer.depth;
    assert_eq!(serializer.serialize_tuple_variant("E", 2, "C", 2), Err(Error::NestedEnumTag));
    untouched(&serializer, &before, depth, "Outer");
}

#[test]
fn test_struct_variant_under_a_tag_leaves_the_encoder_alone() {
    let mut serializer = waiting("Outer");
    let before = serializer.emitter.events().clone();
    let depth = serializer.depth;
    assert_eq!(serializer.serialize_struct_variant("E", 3, "D", 2), Err(Error::NestedEnumTag));
    untouched(&serializer, &before, depth, "Outer");
}

#[test]
fn test_collect_str_of_a_second_tag_leaves_the_encoder_alone() {
    let mut serializer = Serializer::new();
    serializer.serialize_seq(None).unwrap();
    serializer.state = State::CheckForDuplicateTag;
    let before = serializer.emitter.events().clone();
    let depth = serializer.depth;
    assert_eq!(serializer.collect_str(MaybeTag::Tag("T".to_owned())), Err(Error::NestedEnumTag));
    assert_eq!(serializer.state, State::CheckForDuplicateTag);
    assert_eq!(serializer.depth, depth);
    assert_eq!(serializer.emitter.events(), &before);
}

#[test]
fn test_the_encoder_goes_on_after_a_refused_variant() {
    let mut serializer = waiting("Outer");
    assert_eq!(serializer.serialize_tuple_variant("E", 2, "C", 2), Err(Error::NestedEnumTag));
    serializer.serialize_str("kept").unwrap();
    match serializer.emitter.events().last() {
        Some(Event::Scalar(scalar)) => {
            assert_eq!(scalar.tag.as_deref(), Some("!Outer"));
            assert_eq!(scalar.value, "kept");
        }
        other => panic!("no scalar: {other:?}"),
    }
}

#[test]
fn test_newtype_body_must_be_there() {
    let value = Value::U64(7);
    assert_eq!(newtype_body(Some(&value)), Ok(&value));
    assert_eq!(newtype_body(None), Err(Error::ShapeMismatch));
}

#[test]
fn test_tuple_body_must_be_a_sequence() {
    let items = vec![Value::U64(1), Value::Bool(true)];
    let sequence = Value::Sequence(vec![Value::U64(1), Value::Bool(true)]);
    assert_eq!(tuple_body(Some(&sequence)), Ok(&items));
    let empty = Value::Sequence(vec![]);
    assert_eq!(tuple_body(Some(&empty)), Ok(&vec![]));
    let mapping = Value::Mapping(vec![(Value::String("a".to_owned()), Value::U64(1))]);
    assert_eq!(tuple_body(Some(&mapping)), Err(Error::ShapeMismatch));
    assert_eq!(tuple_body(Some(&Value::Null)), Err(Error::ShapeMismatch));
    assert_eq!(tuple_body(None), Err(Error::ShapeMismatch));
}

#[test]
fn test_struct_body_must_be_a_map() {
    let entries = vec![(Value::String("x".to_owned()), Value::U64(1))];
    let mapping = Value::Mapping(vec![(Value::String("x".to_owned()), Value::U64(1))]);
    assert_eq!(struct_body(Some(&mapping)), Ok(&entries));
    let sequence = Value::Sequence(vec![Value::U64(1)]);
    assert_eq!(struct_body(Some(&sequence)), Err(Error::ShapeMismatch));
    assert_eq!(struct_body(Some(&Value::String("x".to_owned()))), Err(Error::ShapeMismatch));
    assert_eq!(struct_body(None), Err(Error::ShapeMismatch));
}
