use builder_pattern::builder::{BuilderSpec, ValidationPolicy};
use builder_pattern::error::{ConfigFault, SynthesisError};
use builder_pattern::field::{Attribute, CoercionMode, FieldSpec};
use builder_pattern::state::{check_accepts, Marker, StateArg};
use builder_pattern::struct_impl::StructImpl;
use builder_pattern::structure::{Generics, Shape, StructSpec, StructureInput};
use builder_pattern::synth::{derive_builder, BuilderSynthesizer};

fn option(path: &str, text: &str) -> Attribute {
    Attribute { path: path.to_string(), text: text.to_string() }
}

fn member(name: &str, ty: &str, attrs: Vec<Attribute>) -> FieldSpec {
    FieldSpec {
        vis: "pub".to_string(),
        ident: name.to_string(),
        ty: Some(ty.to_string()),
        attrs,
        replace_generics: Vec::new(),
    }
}

fn declaration(fields: Vec<FieldSpec>) -> StructSpec {
    StructSpec {
        vis: "pub(crate)".to_string(),
        ident: "Config".to_string(),
        generics: Generics {
            lifetimes: vec!["'a".to_string()],
            types: vec!["T".to_string()],
            params: vec!["'a".to_string(), "T: Clone".to_string()],
            where_clause: None,
        },
        shape: Shape::NamedRecord,
        fields,
    }
}

/// Required fields `a` and `b`, optional field `c` with default 5.
fn abc() -> StructSpec {
    declaration(vec![
        member("a", "i32", vec![]),
        member("c", "i32", vec![option("default", "5")]),
        member("b", "i32", vec![]),
    ])
}

fn derived(spec: &StructSpec) -> BuilderSpec {
    derive_builder(spec, ValidationPolicy::ReturnResult).unwrap()
}

const EMPTY: Marker = Marker::Empty;
const FILLED: Marker = Marker::Filled;

#[test]
fn builder_type_is_named_after_the_record() {
    let builder = derived(&abc());
    assert_eq!(builder.target, "Config");
    assert_eq!(builder.decl.name, "ConfigBuilder");
    assert_eq!(builder.decl.vis, "pub(crate)");
    assert_eq!(builder.decl.generics.lifetimes, vec!["'a"]);
    assert_eq!(builder.decl.generics.types, vec!["T"]);
    assert_eq!(builder.decl.generics.params, vec!["'a", "T: Clone"]);
    assert_eq!(builder.decl.generics.where_clause, None);
}

#[test]
fn builder_has_one_state_parameter_and_one_slot_per_field() {
    let builder = derived(&abc());
    assert_eq!(builder.decl.state_params, vec!["T1", "T2", "T3"]);
    let slots: Vec<(&str, &str, &str)> = builder
        .decl
        .slots
        .iter()
        .map(|s| (s.vis.as_str(), s.name.as_str(), s.ty.as_str()))
        .collect();
    assert_eq!(slots, vec![("pub", "a", "i32"), ("pub", "b", "i32"), ("pub", "c", "i32")]);
}

#[test]
fn state_parameters_are_numbered_in_decimal() {
    let fields: Vec<FieldSpec> =
        (0..12).map(|i| member(&format!("f{}", i), "u8", vec![])).collect();
    let input = StructureInput::parse(&declaration(fields)).unwrap();
    let params = input.all_generics();
    assert_eq!(params.len(), 12);
    assert_eq!(params[0], "T1");
    assert_eq!(params[8], "T9");
    assert_eq!(params[9], "T10");
    assert_eq!(params[11], "T12");
    assert_eq!(input.builder_name(), "ConfigBuilder");
}

#[test]
fn new_builder_is_empty_in_every_slot_and_holds_the_defaults() {
    let builder = derived(&abc());
    assert_eq!(builder.constructor.state, vec![EMPTY, EMPTY, EMPTY]);
    assert_eq!(builder.constructor.state_types, vec!["()", "()", "()"]);
    let args: Vec<(&str, Option<&str>)> = builder
        .constructor
        .init_args
        .iter()
        .map(|a| (a.name.as_str(), a.value.as_deref()))
        .collect();
    assert_eq!(args, vec![("a", None), ("b", None), ("c", Some("5"))]);
    assert_eq!(builder.constructor.docs[0], " Creating a builder.");
}

#[test]
fn constructor_parts_agree_with_the_whole() {
    let input = StructureInput::parse(&abc()).unwrap();
    let part = StructImpl::new(&input);
    let whole = part.constructor();
    assert_eq!(part.initial_state(), whole.state);
    assert_eq!(part.empty_generics(), whole.state_types);
    assert_eq!(part.empty_generics(), vec!["()", "()", "()"]);
    assert_eq!(part.documents(), whole.docs);
    assert_eq!(part.builder_init_args().len(), whole.init_args.len());
    assert_eq!(part.input.ident, "Config");
}

#[test]
fn every_field_has_a_setter_in_slot_order() {
    let builder = derived(&declaration(vec![
        member("a", "i32", vec![]),
        member(
            "c",
            "String",
            vec![
                option("default", "String::new()"),
                option("into", "true"),
                option("validator", "not_empty"),
                option("setter-name", "with_c"),
            ],
        ),
        member("b", "u8", vec![]),
    ]));
    assert_eq!(builder.setters.len(), 3);
    let a = &builder.setters[0];
    assert_eq!((a.slot, a.name.as_str(), a.param_type.as_str()), (0, "a", "i32"));
    assert_eq!(a.field, "a");
    assert_eq!(a.coercion, CoercionMode::Exact);
    assert_eq!(a.validator, None);
    let b = &builder.setters[1];
    assert_eq!((b.slot, b.name.as_str(), b.param_type.as_str()), (1, "b", "u8"));
    let c = &builder.setters[2];
    assert_eq!((c.slot, c.name.as_str(), c.param_type.as_str()), (2, "with_c", "String"));
    assert_eq!(c.field, "c");
    assert_eq!(c.coercion, CoercionMode::Convertible);
    assert_eq!(c.validator.as_deref(), Some("not_empty"));
}

#[test]
fn setter_is_open_in_every_slot_and_fills_its_own() {
    let builder = derived(&abc());
    let b = &builder.setters[1];
    assert_eq!(b.input_state, vec![StateArg::Any, StateArg::Any, StateArg::Any]);
    assert_eq!(b.output_state, vec![StateArg::Any, StateArg::Is(FILLED), StateArg::Any]);
    assert_eq!(b.free_params, vec!["T1", "T2", "T3"]);
    assert_eq!(b.input_types, vec!["T1", "T2", "T3"]);
    assert_eq!(b.output_types, vec!["T1", "i32", "T3"]);
    assert_eq!(b.carried, vec!["a", "c"]);
    assert_eq!(builder.setters[0].carried, vec!["b", "c"]);
    assert_eq!(builder.setters[2].carried, vec!["a", "b"]);
    assert_eq!(b.call(&vec![EMPTY, EMPTY, FILLED]), Some(vec![EMPTY, FILLED, FILLED]));
    assert_eq!(b.call(&vec![FILLED, EMPTY, EMPTY]), Some(vec![FILLED, FILLED, EMPTY]));
}

#[test]
fn setter_can_be_called_again_on_a_filled_slot() {
    let builder = derived(&abc());
    let a = &builder.setters[0];
    let once = a.call(&builder.constructor.state).unwrap();
    let twice = a.call(&once).unwrap();
    assert_eq!(once, vec![FILLED, EMPTY, EMPTY]);
    assert_eq!(twice, once);
}

#[test]
fn setter_is_not_defined_on_a_state_of_another_builder() {
    let builder = derived(&abc());
    assert_eq!(builder.setters[0].call(&vec![EMPTY, EMPTY]), None);
    assert_eq!(builder.setters[0].call(&vec![]), None);
}

#[test]
fn finalizer_asks_for_the_required_slots_only() {
    let builder = derived(&abc());
    assert_eq!(
        builder.finalizer.input_state,
        vec![StateArg::Is(FILLED), StateArg::Is(FILLED), StateArg::Any]
    );
    assert_eq!(builder.finalizer.free_params, vec!["T3"]);
    assert_eq!(builder.finalizer.input_types, vec!["i32", "i32", "T3"]);
    assert_eq!(builder.finalizer.fields, vec!["a", "b", "c"]);
    assert!(builder.finalizer.is_defined_on(&vec![FILLED, FILLED, EMPTY]));
    assert!(builder.finalizer.is_defined_on(&vec![FILLED, FILLED, FILLED]));
    assert!(!builder.finalizer.is_defined_on(&vec![FILLED, EMPTY, FILLED]));
    assert!(!builder.finalizer.is_defined_on(&vec![FILLED, FILLED]));
}

#[test]
fn finalizer_is_available_after_both_required_setters_in_either_order() {
    let builder = derived(&abc());
    let start = builder.constructor.state.clone();
    let (a, b) = (&builder.setters[0], &builder.setters[1]);
    let a_then_b = b.call(&a.call(&start).unwrap()).unwrap();
    let b_then_a = a.call(&b.call(&start).unwrap()).unwrap();
    assert!(builder.finalizer.is_defined_on(&a_then_b));
    assert!(builder.finalizer.is_defined_on(&b_then_a));
    assert_eq!(a_then_b, b_then_a);
}

#[test]
fn finalizer_is_unavailable_while_a_required_setter_is_omitted() {
    let builder = derived(&abc());
    let start = builder.constructor.state.clone();
    let (a, b, c) = (&builder.setters[0], &builder.setters[1], &builder.setters[2]);
    assert!(!builder.finalizer.is_defined_on(&start));
    assert!(!builder.finalizer.is_defined_on(&a.call(&start).unwrap()));
    assert!(!builder.finalizer.is_defined_on(&b.call(&start).unwrap()));
    let only_optional = c.call(&start).unwrap();
    assert!(!builder.finalizer.is_defined_on(&only_optional));
    let a_and_c = a.call(&only_optional).unwrap();
    assert!(!builder.finalizer.is_defined_on(&a_and_c));
}

#[test]
fn record_without_required_fields_can_be_finalized_at_once() {
    let builder = derived(&declaration(vec![member("c", "i32", vec![option("default", "5")])]));
    assert_eq!(builder.constructor.state, vec![EMPTY]);
    assert_eq!(builder.constructor.state_types, vec!["()"]);
    assert_eq!(builder.finalizer.input_types, vec!["T1"]);
    assert!(builder.finalizer.is_defined_on(&builder.constructor.state));
}

#[test]
fn types_of_the_fields_stand_for_filled_slots() {
    let builder = derived(&declaration(vec![
        member("name", "String", vec![]),
        member("tags", "Vec<&'a T>", vec![option("default", "Vec::new()")]),
    ]));
    assert_eq!(builder.constructor.state_types, vec!["()", "()"]);
    assert_eq!(builder.setters[1].output_types, vec!["T1", "Vec<&'a T>"]);
    assert_eq!(builder.finalizer.input_types, vec!["String", "T2"]);
    assert_eq!(builder.finalizer.free_params, vec!["T2"]);
    let input = StructureInput::parse(&abc()).unwrap();
    assert_eq!(input.field_types(), vec!["i32", "i32", "i32"]);
}

#[test]
fn patterns_are_checked_slot_by_slot() {
    let pattern = vec![StateArg::Is(EMPTY), StateArg::Any];
    assert!(check_accepts(&pattern, &vec![EMPTY, FILLED]));
    assert!(check_accepts(&pattern, &vec![EMPTY, EMPTY]));
    assert!(!check_accepts(&pattern, &vec![FILLED, EMPTY]));
    assert!(!check_accepts(&pattern, &vec![EMPTY]));
    assert!(check_accepts(&vec![], &vec![]));
}

#[test]
fn rejection_policy_is_the_synthesizer_s() {
    let input = StructureInput::parse(&abc()).unwrap();
    let raising = BuilderSynthesizer::new(ValidationPolicy::Raise).synthesize(&input);
    let returning = BuilderSynthesizer::new(ValidationPolicy::ReturnResult).synthesize(&input);
    assert_eq!(raising.on_reject, ValidationPolicy::Raise);
    assert_eq!(returning.on_reject, ValidationPolicy::ReturnResult);
    assert_eq!(derived(&abc()).on_reject, ValidationPolicy::ReturnResult);
}

#[test]
fn synthesizer_parts_agree_with_the_whole() {
    let input = StructureInput::parse(&abc()).unwrap();
    let synthesizer = BuilderSynthesizer::new(ValidationPolicy::Raise);
    let whole = synthesizer.synthesize(&input);
    assert_eq!(synthesizer.setters(&input).len(), whole.setters.len());
    assert_eq!(synthesizer.finalizer(&input).fields, whole.finalizer.fields);
    assert_eq!(input.builder_decl().state_params, whole.decl.state_params);
    assert_eq!(input.builder_fields().len(), whole.decl.slots.len());
}

#[test]
fn nothing_is_derived_from_a_refused_declaration() {
    let mut spec = abc();
    spec.shape = Shape::Variants;
    assert!(matches!(
        derive_builder(&spec, ValidationPolicy::Raise),
        Err(SynthesisError::StructShape { name }) if name == "Config"
    ));
    let twice = declaration(vec![member("a", "u8", vec![]), member("a", "u8", vec![])]);
    assert!(matches!(
        derive_builder(&twice, ValidationPolicy::Raise),
        Err(SynthesisError::FieldConfig { field, fault: ConfigFault::DuplicateField }) if field == "a"
    ));
}

#[test]
fn record_without_fields_has_no_state_arguments() {
    let input = StructureInput::parse(&declaration(vec![])).unwrap();
    assert!(StructImpl::new(&input).empty_generics().is_empty());
    assert!(StructImpl::new(&input).initial_state().is_empty());
}

#[test]
fn person_starts_with_three_unit_arguments() {
    let spec = declaration(vec![
        member("name", "String", vec![]),
        member("age", "i32", vec![]),
        member("gender", "Gender", vec![option("default", "Gender::Nonbinary")]),
    ]);
    let builder = derived(&spec);
    assert_eq!(builder.decl.state_params, vec!["T1", "T2", "T3"]);
    assert_eq!(builder.constructor.state_types, vec!["()", "()", "()"]);
    let args: Vec<(&str, Option<&str>)> = builder
        .constructor
        .init_args
        .iter()
        .map(|a| (a.name.as_str(), a.value.as_deref()))
        .collect();
    assert_eq!(
        args,
        vec![("name", None), ("age", None), ("gender", Some("Gender::Nonbinary"))]
    );
    assert_eq!(builder.finalizer.input_types, vec!["String", "i32", "T3"]);
}
