use builder_pattern::field::{Attribute, Field, FieldSpec};
use builder_pattern::struct_impl::StructImpl;
use builder_pattern::structure::{Generics, Shape, StructSpec, StructureInput};

fn doc_note(path: &str, text: &str) -> Attribute {
    Attribute { path: path.to_string(), text: text.to_string() }
}

fn doc_field(name: &str, ty: &str, attrs: Vec<Attribute>) -> FieldSpec {
    FieldSpec {
        vis: String::new(),
        ident: name.to_string(),
        ty: Some(ty.to_string()),
        attrs,
        replace_generics: Vec::new(),
    }
}

fn doc_record(fields: Vec<FieldSpec>) -> StructureInput {
    StructureInput::parse(&StructSpec {
        vis: String::new(),
        ident: "Person".to_string(),
        generics: Generics {
            lifetimes: Vec::new(),
            types: Vec::new(),
            params: Vec::new(),
            where_clause: None,
        },
        shape: Shape::NamedRecord,
        fields,
    })
    .unwrap()
}

#[test]
fn exact_type_is_shown_as_declared() {
    let field = Field::from_spec(&doc_field("name", "String", vec![])).unwrap();
    assert_eq!(field.type_documents(), "String");
}

#[test]
fn convertible_type_is_shown_wrapped() {
    let field =
        Field::from_spec(&doc_field("name", "String", vec![doc_note("into", "true")])).unwrap();
    assert_eq!(field.type_documents(), "Convertible<String>");
}

#[test]
fn only_documentation_annotations_are_documents() {
    let field = Field::from_spec(&doc_field(
        "name",
        "String",
        vec![
            doc_note("doc", " First line."),
            doc_note("serde", "rename"),
            doc_note("default", "String::new()"),
            doc_note("doc", " Second line."),
        ],
    ))
    .unwrap();
    assert_eq!(field.documents(), vec![" First line.", " Second line."]);
}

#[test]
fn field_without_documentation_has_no_documents() {
    let field =
        Field::from_spec(&doc_field("name", "String", vec![doc_note("validator", "v")])).unwrap();
    assert!(field.documents().is_empty());
}

#[test]
fn constructor_documentation_lists_required_then_optional() {
    let input = doc_record(vec![
        doc_field(
            "gender",
            "Gender",
            vec![doc_note("doc", " How they identify."), doc_note("default", "Gender::Nonbinary")],
        ),
        doc_field("name", "String", vec![doc_note("into", "true"), doc_note("doc", " Full name.")]),
        doc_field("age", "i32", vec![]),
        doc_field("nick", "String", vec![doc_note("default", "String::new()")]),
    ]);
    let docs = StructImpl::new(&input).documents();
    assert_eq!(
        docs,
        vec![
            " Creating a builder.",
            " ## Required Fields",
            " ### `name`\n - Type: Convertible<String>",
            " Full name.",
            " ### `age`\n - Type: i32",
            " ## Optional Fields",
            " ### `gender`\n - Type: `Gender`\n - Default: `Gender::Nonbinary`",
            " How they identify.",
            " ### `nick`\n - Type: `String`\n - Default: `String::new()`",
        ]
    );
}

#[test]
fn documentation_of_a_record_without_fields_has_only_headings() {
    let input = doc_record(vec![]);
    assert_eq!(
        StructImpl::new(&input).documents(),
        vec![" Creating a builder.", " ## Required Fields", " ## Optional Fields"]
    );
}

#[test]
fn documentation_is_the_same_when_generated_again() {
    let input = doc_record(vec![
        doc_field("b", "u8", vec![doc_note("default", "1"), doc_note("doc", " b")]),
        doc_field("a", "u8", vec![doc_note("doc", " a")]),
    ]);
    let first = StructImpl::new(&input).documents();
    let second = StructImpl::new(&input).documents();
    assert_eq!(first, second);
    let a = first.iter().position(|l| l.starts_with(" ### `a`")).unwrap();
    let b = first.iter().position(|l| l.starts_with(" ### `b`")).unwrap();
    assert!(a < b);
    assert_eq!(StructImpl::new(&input).constructor().docs, first);
}

#[test]
fn optional_convertible_field_is_shown_wrapped_too() {
    let input = doc_record(vec![
        doc_field(
            "nick",
            "String",
            vec![doc_note("into", "true"), doc_note("default", "String::new()")],
        ),
        doc_field("age", "i32", vec![doc_note("default", "0")]),
    ]);
    let docs = StructImpl::new(&input).documents();
    assert_eq!(
        docs,
        vec![
            " Creating a builder.",
            " ## Required Fields",
            " ## Optional Fields",
            " ### `nick`\n - Type: `Convertible<String>`\n - Default: `String::new()`",
            " ### `age`\n - Type: `i32`\n - Default: `0`",
        ]
    );
    assert_eq!(input.optional_fields[0].type_documents(), "Convertible<String>");
}

#[test]
fn required_and_optional_fields_show_the_same_type_text() {
    let required = doc_record(vec![doc_field("v", "Vec<u8>", vec![doc_note("into", "true")])]);
    let optional = doc_record(vec![doc_field(
        "v",
        "Vec<u8>",
        vec![doc_note("into", "true"), doc_note("default", "Vec::new()")],
    )]);
    let shown = required.required_fields[0].type_documents();
    assert_eq!(shown, optional.optional_fields[0].type_documents());
    assert!(StructImpl::new(&required).documents()[2].ends_with(&format!("Type: {}", shown)));
    assert!(StructImpl::new(&optional).documents()[3].contains(&format!("Type: `{}`", shown)));
}
