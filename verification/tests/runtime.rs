use builder_pattern::field::{Attribute, FieldSpec};
use builder_pattern::runtime::{list_texts, BuildError, Builder};
use builder_pattern::state::Marker;
use builder_pattern::structure::{Generics, Shape, StructSpec, StructureInput};

fn preset(name: &str, default: &str) -> FieldSpec {
    FieldSpec {
        vis: String::new(),
        ident: name.to_string(),
        ty: Some("i64".to_string()),
        attrs: vec![Attribute { path: "default".to_string(), text: default.to_string() }],
        replace_generics: Vec::new(),
    }
}

fn needed(name: &str) -> FieldSpec {
    FieldSpec {
        vis: String::new(),
        ident: name.to_string(),
        ty: Some("i64".to_string()),
        attrs: Vec::new(),
        replace_generics: Vec::new(),
    }
}

fn parsed(fields: Vec<FieldSpec>) -> StructureInput {
    StructureInput::parse(&StructSpec {
        vis: String::new(),
        ident: "Point".to_string(),
        generics: Generics {
            lifetimes: Vec::new(),
            types: Vec::new(),
            params: Vec::new(),
            where_clause: None,
        },
        shape: Shape::NamedRecord,
        fields,
    })
    .unwrap()
}

/// Required fields `a` and `b` in slots 0 and 1, optional field `c` with
/// default 5 in slot 2.
fn fresh() -> Builder<i64> {
    let input = parsed(vec![needed("a"), preset("c", "5"), needed("b")]);
    Builder::new(&input, vec![5]).unwrap()
}

fn non_negative(value: i64) -> Result<i64, String> {
    if value < 0 {
        Err(format!("{} is negative", value))
    } else {
        Ok(value)
    }
}

#[test]
fn new_builder_holds_only_the_defaults() {
    let builder = fresh();
    assert_eq!(builder.occupancy(), vec![Marker::Empty, Marker::Empty, Marker::Filled]);
    assert_eq!(builder.get(0), None);
    assert_eq!(builder.get(1), None);
    assert_eq!(builder.get(2), Some(&5));
    assert_eq!(builder.get(3), None);
    assert!(!builder.is_complete());
}

#[test]
fn defaults_must_match_the_optional_fields() {
    let input = parsed(vec![needed("a"), preset("c", "5")]);
    assert!(matches!(
        Builder::<i64>::new(&input, vec![]),
        Err(BuildError::DefaultsMismatch { expected: 1, given: 0 })
    ));
    assert!(matches!(
        Builder::new(&input, vec![1i64, 2]),
        Err(BuildError::DefaultsMismatch { expected: 1, given: 2 })
    ));
}

#[test]
fn setters_can_be_called_in_any_order() {
    let forward = fresh().set(0, 1).unwrap().set(1, 2).unwrap().build().unwrap();
    let backward = fresh().set(1, 2).unwrap().set(0, 1).unwrap().build().unwrap();
    assert_eq!(forward, vec![1, 2, 5]);
    assert_eq!(backward, forward);
}

#[test]
fn every_order_of_three_setters_builds_the_same_record() {
    let calls = [(0usize, 10i64), (1, 20), (2, 30)];
    let orders = [[0, 1, 2], [0, 2, 1], [1, 0, 2], [1, 2, 0], [2, 0, 1], [2, 1, 0]];
    for order in orders {
        let mut builder = fresh();
        for i in order {
            builder = builder.set(calls[i].0, calls[i].1).unwrap();
        }
        assert_eq!(builder.build().unwrap(), vec![10, 20, 30]);
    }
}

#[test]
fn finalizer_names_the_required_fields_that_were_omitted() {
    match fresh().build() {
        Err(BuildError::MissingRequiredFields { fields }) => assert_eq!(fields, vec!["a", "b"]),
        other => panic!("unexpected {:?}", other),
    }
    match fresh().set(0, 1).unwrap().build() {
        Err(BuildError::MissingRequiredFields { fields }) => assert_eq!(fields, vec!["b"]),
        other => panic!("unexpected {:?}", other),
    }
    match fresh().set(1, 1).unwrap().set(2, 9).unwrap().build() {
        Err(BuildError::MissingRequiredFields { fields }) => assert_eq!(fields, vec!["a"]),
        other => panic!("unexpected {:?}", other),
    }
}

#[test]
fn default_is_used_unless_the_optional_setter_is_called() {
    let defaulted = fresh().set(0, 1).unwrap().set(1, 2).unwrap().build().unwrap();
    assert_eq!(defaulted[2], 5);
    let overridden =
        fresh().set(0, 1).unwrap().set(2, 7).unwrap().set(1, 2).unwrap().build().unwrap();
    assert_eq!(overridden, vec![1, 2, 7]);
}

#[test]
fn setting_a_field_again_overwrites_it() {
    let builder = fresh().set(0, 3).unwrap().set(0, 4).unwrap();
    assert_eq!(builder.get(0), Some(&4));
    assert_eq!(builder.occupancy(), vec![Marker::Filled, Marker::Empty, Marker::Filled]);
    assert_eq!(builder.set(1, 0).unwrap().build().unwrap(), vec![4, 0, 5]);
}

#[test]
fn convertible_setter_stores_the_converted_value() {
    let builder = fresh().set_into(0, 7i32).unwrap().set_into(1, 200u8).unwrap();
    assert_eq!(builder.get(0), Some(&7i64));
    assert_eq!(builder.get(1), Some(&200i64));
    assert_eq!(builder.build().unwrap(), vec![7, 200, 5]);
    let input = parsed(vec![needed("name")]);
    let names: Builder<String> = Builder::new(&input, vec![]).unwrap();
    assert_eq!(names.set_into(0, "Joe").unwrap().build().unwrap(), vec!["Joe".to_string()]);
}

#[test]
fn validator_rejects_a_negative_number() {
    match fresh().set_validated(0, -1, non_negative) {
        Err(BuildError::ValidationFailure { field, reason }) => {
            assert_eq!(field, "a");
            assert_eq!(reason, "-1 is negative");
        },
        other => panic!("unexpected {:?}", other.map(|b| b.occupancy())),
    }
}

#[test]
fn validator_accepts_and_stores_five() {
    let builder = fresh().set_validated(0, 5, non_negative).unwrap();
    assert_eq!(builder.get(0), Some(&5));
    assert_eq!(builder.set(1, 1).unwrap().build().unwrap(), vec![5, 1, 5]);
}

#[test]
fn validator_may_hand_back_another_value() {
    let builder = fresh().set_validated(1, -8, |v: i64| Ok(v.abs())).unwrap();
    assert_eq!(builder.get(1), Some(&8));
}

#[test]
fn answer_of_a_validator_is_stored_or_reported() {
    let stored = fresh().store_validated(1, Ok(9)).unwrap();
    assert_eq!(stored.get(1), Some(&9));
    match fresh().store_validated(2, Err("too big".to_string())) {
        Err(BuildError::ValidationFailure { field, reason }) => {
            assert_eq!(field, "c");
            assert_eq!(reason, "too big");
        },
        other => panic!("unexpected {:?}", other.map(|b| b.occupancy())),
    }
}

#[test]
fn unknown_slot_is_refused_by_every_setter() {
    assert!(matches!(fresh().set(3, 0), Err(BuildError::UnknownSlot { slot: 3 })));
    assert!(matches!(fresh().set_into(4, 0i32), Err(BuildError::UnknownSlot { slot: 4 })));
    assert!(matches!(
        fresh().store_validated(5, Ok(0)),
        Err(BuildError::UnknownSlot { slot: 5 })
    ));
    let mut called = false;
    let result = fresh().set_validated(6, 0, |v| {
        called = true;
        Ok(v)
    });
    assert!(matches!(result, Err(BuildError::UnknownSlot { slot: 6 })));
    assert!(!called);
}

#[test]
fn slots_are_filled_as_the_setters_are_called() {
    let builder = fresh();
    assert!(!builder.is_complete());
    let builder = builder.set(1, 0).unwrap();
    assert_eq!(builder.occupancy(), vec![Marker::Empty, Marker::Filled, Marker::Filled]);
    let builder = builder.set(0, 0).unwrap();
    assert_eq!(builder.occupancy(), vec![Marker::Filled, Marker::Filled, Marker::Filled]);
    assert!(builder.is_complete());
}

#[test]
fn builder_without_fields_builds_an_empty_record() {
    let input = parsed(vec![]);
    let builder: Builder<i64> = Builder::new(&input, vec![]).unwrap();
    assert!(builder.is_complete());
    assert_eq!(builder.build().unwrap(), Vec::<i64>::new());
}

#[test]
fn build_errors_have_messages() {
    let missing = fresh().build().unwrap_err();
    assert_eq!(missing.message(), "missing required fields: a, b");
    let one = fresh().set(0, 1).unwrap().build().unwrap_err();
    assert_eq!(one.message(), "missing required fields: b");
    let refused = fresh().set_validated(1, -1, non_negative).map(|b| b.occupancy()).unwrap_err();
    assert_eq!(refused.message(), "validation of field `b` failed: -1 is negative");
    let unknown = fresh().set(12, 0).map(|b| b.occupancy()).unwrap_err();
    assert_eq!(unknown.message(), "no field stands in slot 12");
    let mismatch = BuildError::DefaultsMismatch { expected: 10, given: 3 };
    assert_eq!(mismatch.message(), "expected 10 default values, got 3");
}

#[test]
fn texts_are_listed_with_commas() {
    assert_eq!(list_texts(&vec![]), "");
    assert_eq!(list_texts(&vec!["a".to_string()]), "a");
    assert_eq!(list_texts(&vec!["a".to_string(), "b".to_string(), "c".to_string()]), "a, b, c");
}
