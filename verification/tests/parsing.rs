use builder_pattern::error::{ConfigFault, SynthesisError};
use builder_pattern::field::{find_option, Attribute, CoercionMode, Field, FieldSpec};
use builder_pattern::structure::{
    all_distinct, contains_text, Generics, Shape, StructSpec, StructureInput,
};
use builder_pattern::text::{check_identifier, compare_texts, decimal, Rank};

fn note(path: &str, text: &str) -> Attribute {
    Attribute { path: path.to_string(), text: text.to_string() }
}

fn declared(name: &str, ty: &str, attrs: Vec<Attribute>) -> FieldSpec {
    FieldSpec {
        vis: String::new(),
        ident: name.to_string(),
        ty: Some(ty.to_string()),
        attrs,
        replace_generics: Vec::new(),
    }
}

fn no_generics() -> Generics {
    Generics { lifetimes: Vec::new(), types: Vec::new(), params: Vec::new(), where_clause: None }
}

fn record(name: &str, fields: Vec<FieldSpec>) -> StructSpec {
    StructSpec {
        vis: "pub".to_string(),
        ident: name.to_string(),
        generics: no_generics(),
        shape: Shape::NamedRecord,
        fields,
    }
}

fn names(fields: &Vec<Field>) -> Vec<String> {
    fields.iter().map(|f| f.ident.clone()).collect()
}

#[test]
fn fields_are_parted_by_default_in_declaration_order() {
    let spec = record(
        "Person",
        vec![
            declared("nick", "String", vec![note("default", "String::new()")]),
            declared("name", "String", vec![]),
            declared("gender", "Gender", vec![note("default", "Gender::Nonbinary")]),
            declared("age", "i32", vec![]),
        ],
    );
    let input = StructureInput::parse(&spec).unwrap();
    assert_eq!(input.ident, "Person");
    assert_eq!(input.vis, "pub");
    assert_eq!(names(&input.required_fields), vec!["name", "age"]);
    assert_eq!(names(&input.optional_fields), vec!["nick", "gender"]);
    assert_eq!(input.field_names(), vec!["name", "age", "nick", "gender"]);
    assert!(input.required_fields.iter().all(|f| f.is_required()));
    assert!(input.optional_fields.iter().all(|f| !f.is_required()));
    assert_eq!(input.optional_fields[1].attrs.default.as_deref(), Some("Gender::Nonbinary"));
    assert_eq!(input.required_fields[1].ty, "i32");
    assert!(input.is_well_formed());
}

#[test]
fn record_without_fields_is_accepted() {
    let input = StructureInput::parse(&record("Unit", vec![])).unwrap();
    assert!(input.required_fields.is_empty());
    assert!(input.optional_fields.is_empty());
    assert!(input.is_well_formed());
}

#[test]
fn generics_are_carried_over() {
    let mut spec = record("Wrapper", vec![declared("inner", "&'a T", vec![])]);
    spec.generics = Generics {
        lifetimes: vec!["'a".to_string()],
        types: vec!["T".to_string()],
        params: vec!["'a".to_string(), "T: Clone".to_string()],
        where_clause: Some("where T: Default".to_string()),
    };
    let input = StructureInput::parse(&spec).unwrap();
    assert_eq!(input.generics.lifetimes, vec!["'a"]);
    assert_eq!(input.generics.types, vec!["T"]);
    assert_eq!(input.generics.params, vec!["'a", "T: Clone"]);
    assert_eq!(input.generics.where_clause.as_deref(), Some("where T: Default"));
}

#[test]
fn only_records_of_named_fields_are_accepted() {
    for shape in [Shape::TupleRecord, Shape::UnitRecord, Shape::Variants, Shape::Union] {
        let mut spec = record("Choice", vec![declared("a", "u8", vec![])]);
        spec.shape = shape;
        match StructureInput::parse(&spec) {
            Err(SynthesisError::StructShape { name }) => assert_eq!(name, "Choice"),
            other => panic!("unexpected {:?}", other),
        }
    }
}

#[test]
fn shape_error_names_the_declaration() {
    let error = SynthesisError::StructShape { name: "Choice".to_string() };
    assert_eq!(error.message(), "`Choice` is not a record of named fields");
}

#[test]
fn field_without_type_is_refused() {
    let mut untyped = declared("b", "", vec![]);
    untyped.ty = None;
    let spec = record("R", vec![declared("a", "u8", vec![]), untyped]);
    match StructureInput::parse(&spec) {
        Err(SynthesisError::FieldConfig { field, fault }) => {
            assert_eq!(field, "b");
            assert_eq!(fault, ConfigFault::MissingType);
        },
        other => panic!("unexpected {:?}", other),
    }
}

#[test]
fn duplicate_field_name_is_refused() {
    let spec = record("R", vec![declared("a", "u8", vec![]), declared("a", "u16", vec![])]);
    match StructureInput::parse(&spec) {
        Err(SynthesisError::FieldConfig { field, fault }) => {
            assert_eq!(field, "a");
            assert_eq!(fault, ConfigFault::DuplicateField);
        },
        other => panic!("unexpected {:?}", other),
    }
}

#[test]
fn setter_name_of_an_earlier_field_is_refused() {
    let spec = record(
        "R",
        vec![
            declared("a", "u8", vec![]),
            declared("b", "u8", vec![note("default", "0"), note("setter-name", "a")]),
        ],
    );
    match StructureInput::parse(&spec) {
        Err(SynthesisError::FieldConfig { field, fault }) => {
            assert_eq!(field, "b");
            assert_eq!(fault, ConfigFault::AmbiguousSetter);
        },
        other => panic!("unexpected {:?}", other),
    }
}

#[test]
fn overridden_setter_frees_the_field_name() {
    let spec = record(
        "R",
        vec![
            declared("a", "u8", vec![note("setter-name", "with_a")]),
            declared("b", "u8", vec![note("setter-name", "a")]),
        ],
    );
    let input = StructureInput::parse(&spec).unwrap();
    assert_eq!(input.setter_names(), vec!["with_a", "a"]);
    assert_eq!(input.slot_of("a"), Some(1));
    assert_eq!(input.slot_of("with_a"), Some(0));
    assert_eq!(input.slot_of("b"), None);
}

#[test]
fn coercion_flag_must_be_a_truth_value() {
    let spec = record("R", vec![declared("a", "u8", vec![note("into", "maybe")])]);
    match StructureInput::parse(&spec) {
        Err(SynthesisError::FieldConfig { field, fault }) => {
            assert_eq!(field, "a");
            assert_eq!(fault, ConfigFault::InvalidFlag);
        },
        other => panic!("unexpected {:?}", other),
    }
}

#[test]
fn replaced_generic_must_be_an_identifier() {
    let mut field = declared("a", "T", vec![]);
    field.replace_generics = vec!["T".to_string(), "not an ident".to_string()];
    match StructureInput::parse(&record("R", vec![field])) {
        Err(SynthesisError::FieldConfig { field, fault }) => {
            assert_eq!(field, "a");
            assert_eq!(fault, ConfigFault::InvalidGeneric);
        },
        other => panic!("unexpected {:?}", other),
    }
}

#[test]
fn first_error_in_declaration_order_is_reported() {
    let mut untyped = declared("c", "", vec![]);
    untyped.ty = None;
    let spec = record(
        "R",
        vec![declared("a", "u8", vec![]), declared("a", "u8", vec![]), untyped],
    );
    match StructureInput::parse(&spec) {
        Err(SynthesisError::FieldConfig { field, fault }) => {
            assert_eq!(field, "a");
            assert_eq!(fault, ConfigFault::DuplicateField);
        },
        other => panic!("unexpected {:?}", other),
    }
}

#[test]
fn field_config_messages_name_the_field() {
    let cases = [
        (ConfigFault::MissingType, "field `x` has no explicit type"),
        (
            ConfigFault::InvalidFlag,
            "field `x` has a coercion flag that is neither true nor false",
        ),
        (
            ConfigFault::InvalidGeneric,
            "field `x` replaces a generic parameter that is no identifier",
        ),
        (ConfigFault::DuplicateField, "field `x` has the name of an earlier field"),
        (ConfigFault::AmbiguousSetter, "field `x` has the setter name of an earlier field"),
    ];
    for (fault, text) in cases {
        let error = SynthesisError::FieldConfig { field: "x".to_string(), fault };
        assert_eq!(error.message(), text);
    }
}

#[test]
fn options_are_read_from_the_annotations() {
    let raw = declared(
        "port",
        "u16",
        vec![
            note("doc", " The port."),
            note("validator", "check_port"),
            note("into", "true"),
            note("setter-name", "on_port"),
            note("default", "8080"),
            note("serde", "skip"),
        ],
    );
    let field = Field::from_spec(&raw).unwrap();
    assert_eq!(field.ident, "port");
    assert_eq!(field.ty, "u16");
    assert_eq!(field.attrs.default.as_deref(), Some("8080"));
    assert_eq!(field.attrs.validator.as_deref(), Some("check_port"));
    assert_eq!(field.attrs.setter.as_deref(), Some("on_port"));
    assert!(field.attrs.use_into);
    assert_eq!(field.coercion_mode(), CoercionMode::Convertible);
    assert_eq!(field.setter_name(), "on_port");
    assert!(!field.is_required());
    assert_eq!(field.attrs.documents.len(), 6);
}

#[test]
fn field_without_options_is_required_and_exact() {
    let field = Field::from_spec(&declared("age", "i32", vec![note("doc", " Age.")])).unwrap();
    assert!(field.is_required());
    assert_eq!(field.coercion_mode(), CoercionMode::Exact);
    assert_eq!(field.setter_name(), "age");
    assert_eq!(field.attrs.default, None);
    assert_eq!(field.attrs.validator, None);
    assert_eq!(field.attrs.setter, None);
}

#[test]
fn explicit_false_flag_means_exact() {
    let field = Field::from_spec(&declared("a", "u8", vec![note("into", "false")])).unwrap();
    assert!(!field.attrs.use_into);
}

#[test]
fn first_of_repeated_options_counts() {
    let attrs = vec![note("default", "1"), note("doc", "x"), note("default", "2")];
    assert_eq!(find_option(&attrs, "default").as_deref(), Some("1"));
    assert_eq!(find_option(&attrs, "doc").as_deref(), Some("x"));
    assert_eq!(find_option(&attrs, "validator"), None);
    assert_eq!(find_option(&Vec::new(), "default"), None);
}

#[test]
fn fields_are_equal_by_name() {
    let a = Field::from_spec(&declared("a", "u8", vec![])).unwrap();
    let same_name = Field::from_spec(&declared("a", "String", vec![note("default", "x")])).unwrap();
    let b = Field::from_spec(&declared("b", "u8", vec![])).unwrap();
    assert!(a == same_name);
    assert!(a != b);
}

#[test]
fn cloned_field_keeps_everything() {
    let mut raw = declared("a", "T", vec![note("doc", " d"), note("default", "T::new()")]);
    raw.vis = "pub(crate)".to_string();
    raw.replace_generics = vec!["T".to_string()];
    let field = Field::from_spec(&raw).unwrap();
    let copy = field.clone();
    assert_eq!(copy.vis, "pub(crate)");
    assert_eq!(copy.ident, "a");
    assert_eq!(copy.ty, "T");
    assert_eq!(copy.attrs.default.as_deref(), Some("T::new()"));
    assert_eq!(copy.attrs.replace_generics, vec!["T"]);
    assert_eq!(copy.attrs.documents.len(), 2);
    assert_eq!(copy.attrs.documents[0].path, "doc");
    assert_eq!(copy.attrs.documents[0].text, " d");
}

#[test]
fn hand_made_record_is_checked() {
    let required = Field::from_spec(&declared("a", "u8", vec![])).unwrap();
    let optional = Field::from_spec(&declared("b", "u8", vec![note("default", "0")])).unwrap();
    let good = StructureInput {
        vis: String::new(),
        ident: "R".to_string(),
        generics: no_generics(),
        required_fields: vec![required.clone()],
        optional_fields: vec![optional.clone()],
    };
    assert!(good.is_well_formed());
    let swapped = StructureInput {
        vis: String::new(),
        ident: "R".to_string(),
        generics: no_generics(),
        required_fields: vec![optional.clone()],
        optional_fields: vec![required.clone()],
    };
    assert!(!swapped.is_well_formed());
    let repeated = StructureInput {
        vis: String::new(),
        ident: "R".to_string(),
        generics: no_generics(),
        required_fields: vec![required.clone(), required.clone()],
        optional_fields: vec![],
    };
    assert!(!repeated.is_well_formed());
    let mut odd = required.clone();
    odd.attrs.replace_generics = vec!["1x".to_string()];
    let ill_formed = StructureInput {
        vis: String::new(),
        ident: "R".to_string(),
        generics: no_generics(),
        required_fields: vec![odd],
        optional_fields: vec![],
    };
    assert!(!ill_formed.is_well_formed());
}

#[test]
fn identifiers_are_recognized() {
    for good in ["a", "__", "_x1", "T", "snake_case", "CamelCase9"] {
        assert!(check_identifier(good), "{}", good);
    }
    for bad in ["", "_", "1a", "a-b", "a b", "é", "a.b", "9"] {
        assert!(!check_identifier(bad), "{}", bad);
    }
}

#[test]
fn numbers_are_written_in_decimal() {
    assert_eq!(decimal(0), "0");
    assert_eq!(decimal(7), "7");
    assert_eq!(decimal(10), "10");
    assert_eq!(decimal(409), "409");
    assert_eq!(decimal(usize::MAX), usize::MAX.to_string());
}

#[test]
fn texts_are_found_in_lists() {
    let list = vec!["a".to_string(), "b".to_string()];
    assert!(contains_text(&list, &"b".to_string()));
    assert!(!contains_text(&list, &"c".to_string()));
    assert!(all_distinct(&list));
    assert!(all_distinct(&Vec::new()));
    assert!(!all_distinct(&vec!["a".to_string(), "b".to_string(), "a".to_string()]));
}

#[test]
fn fields_are_ordered_by_name() {
    let a = Field::from_spec(&declared("alpha", "u8", vec![])).unwrap();
    let b = Field::from_spec(&declared("beta", "String", vec![note("default", "x")])).unwrap();
    let again = Field::from_spec(&declared("alpha", "i64", vec![])).unwrap();
    assert!(a < b);
    assert!(b > a);
    assert!(a <= again && a >= again);
    assert_eq!(a.partial_cmp(&b), Some(std::cmp::Ordering::Less));
    assert_eq!(b.partial_cmp(&a), Some(std::cmp::Ordering::Greater));
    assert_eq!(a.partial_cmp(&again), Some(std::cmp::Ordering::Equal));
}

#[test]
fn texts_are_compared_as_strings_are() {
    let texts = ["", "a", "ab", "abc", "b", "B", "_", "a1", "é", "z", "zz", "Ω"];
    for x in texts {
        for y in texts {
            let expected = match x.cmp(y) {
                std::cmp::Ordering::Less => Rank::Before,
                std::cmp::Ordering::Equal => Rank::Same,
                std::cmp::Ordering::Greater => Rank::After,
            };
            assert_eq!(compare_texts(x, y), expected, "{:?} {:?}", x, y);
        }
    }
}

#[test]
fn hand_made_record_is_checked_for_defaults() {
    let required = Field::from_spec(&declared("a", "u8", vec![])).unwrap();
    let optional = Field::from_spec(&declared("b", "u8", vec![note("default", "0")])).unwrap();
    let mut input = StructureInput {
        vis: String::new(),
        ident: "R".to_string(),
        generics: no_generics(),
        required_fields: vec![required.clone()],
        optional_fields: vec![optional],
    };
    assert!(input.has_defaults());
    input.optional_fields.push(required);
    assert!(!input.has_defaults());
}
