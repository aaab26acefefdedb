use builder_pattern::field::{Field, FieldSpec};
use proc_macro2::TokenTree;

fn generic_field(replace: &[&str]) -> Field {
    Field::from_spec(&FieldSpec {
        vis: String::new(),
        ident: "value".to_string(),
        ty: Some("T".to_string()),
        attrs: Vec::new(),
        replace_generics: replace.iter().map(|g| g.to_string()).collect(),
    })
    .unwrap()
}

fn texts(stream: proc_macro2::TokenStream) -> Vec<String> {
    stream.into_iter().map(|tree| tree.to_string()).collect()
}

#[test]
fn no_replaced_parameter_gives_an_empty_stream() {
    let stream = generic_field(&[]).tokenize_replacement_params();
    assert!(stream.is_empty());
}

#[test]
fn replaced_parameters_are_underscored_and_terminated() {
    let stream = generic_field(&["A", "B"]).tokenize_replacement_params();
    assert_eq!(texts(stream.clone()), vec!["<", "A_", ",", "B_", ",", ">"]);
    assert_eq!(stream.to_string(), "< A_ , B_ , >");
}

#[test]
fn one_replaced_parameter_keeps_its_comma() {
    let stream = generic_field(&["Item"]).tokenize_replacement_params();
    assert_eq!(texts(stream), vec!["<", "Item_", ",", ">"]);
}

#[test]
fn replaced_parameters_become_identifiers_and_punctuation() {
    let stream = generic_field(&["_T1"]).tokenize_replacement_params();
    let trees: Vec<TokenTree> = stream.into_iter().collect();
    assert_eq!(trees.len(), 4);
    assert!(matches!(&trees[0], TokenTree::Punct(p) if p.as_char() == '<'));
    assert!(matches!(&trees[1], TokenTree::Ident(i) if i == "_T1_"));
    assert!(matches!(&trees[2], TokenTree::Punct(p) if p.as_char() == ','));
    assert!(matches!(&trees[3], TokenTree::Punct(p) if p.as_char() == '>'));
}

#[test]
fn field_with_odd_parameter_is_not_well_formed() {
    let mut field = generic_field(&["A"]);
    assert!(field.is_well_formed());
    field.attrs.replace_generics.push("a b".to_string());
    assert!(!field.is_well_formed());
}
