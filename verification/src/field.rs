//! The normalized description of one field.

use vstd::prelude::*;
use std::cmp::Ordering;
use crate::error::ConfigFault;
use crate::text::{
    check_identifier,
    clone_optional,
    clone_strings,
    compare_texts,
    is_identifier,
    rank,
    Rank,
};
use crate::tokens::{new_stream, push_comma, push_gt, push_ident, push_lt, stream_tokens};

verus! {

/// Whether a setter takes exactly the field's type or anything that converts
/// into it.
#[derive(Clone, Copy, PartialEq, Eq, Debug, Structural)]
pub enum CoercionMode {
    Exact,
    Convertible,
}

/// One annotation of a field: the option it names and the text given for it.
#[derive(Debug)]
pub struct Attribute {
    pub path: String,
    pub text: String,
}

/// The model of an [`Attribute`].
pub struct AttributeModel {
    pub path: Seq<char>,
    pub text: Seq<char>,
}

impl DeepView for Attribute {
    type V = AttributeModel;

    open spec fn deep_view(&self) -> AttributeModel {
        AttributeModel { path: self.path@, text: self.text@ }
    }
}

impl View for Attribute {
    type V = AttributeModel;

    open spec fn view(&self) -> AttributeModel {
        self.deep_view()
    }
}

impl Clone for Attribute {
    fn clone(&self) -> (copy: Attribute)
        ensures
            copy@ == self@,
    {
        Attribute { path: self.path.clone(), text: self.text.clone() }
    }
}

/// The options of a field.
#[derive(Debug)]
pub struct FieldAttributes {
    /// The expression that gives the field its value when no setter is called.
    pub default: Option<String>,
    /// Whether the setter takes anything that converts into the field's type.
    pub use_into: bool,
    /// The function that the setter hands its argument to before storing it.
    pub validator: Option<String>,
    /// The setter's name, where it is not the field's.
    pub setter: Option<String>,
    /// The annotations of the field, in the order they were written.
    pub documents: Vec<Attribute>,
    /// The generic parameters that the setter replaces.
    pub replace_generics: Vec<String>,
}

/// One field of a record.
#[derive(Debug)]
pub struct Field {
    pub vis: String,
    pub ident: String,
    pub ty: String,
    pub attrs: FieldAttributes,
}

/// The model of a [`Field`].
pub struct FieldModel {
    pub visibility: Seq<char>,
    pub name: Seq<char>,
    pub declared_type: Seq<char>,
    pub default_expr: Option<Seq<char>>,
    pub setter_override: Option<Seq<char>>,
    pub validator: Option<Seq<char>>,
    pub coercion_mode: CoercionMode,
    pub annotations: Seq<AttributeModel>,
    pub replace_generics: Seq<Seq<char>>,
}

/// One field as it was declared: its name, its type where it has one, and
/// its annotations as they were written.
#[derive(Debug)]
pub struct FieldSpec {
    pub vis: String,
    pub ident: String,
    pub ty: Option<String>,
    pub attrs: Vec<Attribute>,
    pub replace_generics: Vec<String>,
}

/// The model of a [`FieldSpec`].
pub struct FieldSpecModel {
    pub visibility: Seq<char>,
    pub name: Seq<char>,
    pub declared_type: Option<Seq<char>>,
    pub annotations: Seq<AttributeModel>,
    pub replace_generics: Seq<Seq<char>>,
}

impl DeepView for FieldSpec {
    type V = FieldSpecModel;

    open spec fn deep_view(&self) -> FieldSpecModel {
        FieldSpecModel {
            visibility: self.vis@,
            name: self.ident@,
            declared_type: self.ty.deep_view(),
            annotations: self.attrs.deep_view(),
            replace_generics: self.replace_generics.deep_view(),
        }
    }
}

impl View for FieldSpec {
    type V = FieldSpecModel;

    open spec fn view(&self) -> FieldSpecModel {
        self.deep_view()
    }
}

/// The text of the first annotation that names the option `key`.
pub open spec fn option_value(annotations: Seq<AttributeModel>, key: Seq<char>) -> Option<
    Seq<char>,
>
    decreases annotations.len(),
{
    if annotations.len() == 0 {
        None
    } else if annotations.first().path == key {
        Some(annotations.first().text)
    } else {
        option_value(annotations.drop_first(), key)
    }
}

/// Whether every name of the list is an identifier.
pub open spec fn all_identifiers(names: Seq<Seq<char>>) -> bool {
    forall|i: int| 0 <= i < names.len() ==> is_identifier(#[trigger] names[i])
}

/// The field that a declaration describes, or what is wrong with its options.
///
/// The options are `default` (the field is optional, with this expression as
/// its value), `setter-name`, `validator`, `into` (`true` or `false`: whether
/// the setter converts its argument) and `doc`. Where an option is given more
/// than once the first counts. Any other annotation is kept and passed over.
pub open spec fn field_of(raw: FieldSpecModel) -> Result<FieldModel, ConfigFault> {
    let flag = option_value(raw.annotations, "into"@);
    if raw.declared_type is None {
        Err(ConfigFault::MissingType)
    } else if flag is Some && flag->0 != "true"@ && flag->0 != "false"@ {
        Err(ConfigFault::InvalidFlag)
    } else if !all_identifiers(raw.replace_generics) {
        Err(ConfigFault::InvalidGeneric)
    } else {
        Ok(
            FieldModel {
                visibility: raw.visibility,
                name: raw.name,
                declared_type: raw.declared_type->0,
                default_expr: option_value(raw.annotations, "default"@),
                setter_override: option_value(raw.annotations, "setter-name"@),
                validator: option_value(raw.annotations, "validator"@),
                coercion_mode: if flag == Some("true"@) {
                    CoercionMode::Convertible
                } else {
                    CoercionMode::Exact
                },
                annotations: raw.annotations,
                replace_generics: raw.replace_generics,
            },
        )
    }
}

/// Each name followed by an underscore, and a comma after each.
pub open spec fn terminated_params(names: Seq<Seq<char>>) -> Seq<Seq<char>>
    decreases names.len(),
{
    if names.len() == 0 {
        Seq::empty()
    } else {
        terminated_params(names.drop_last()).push(names.last() + "_"@).push(","@)
    }
}

impl FieldModel {
    /// A field is required exactly when it has no default expression.
    pub open spec fn required(self) -> bool {
        self.default_expr is None
    }

    /// The name of the field's setter: the override where there is one, the
    /// field's name otherwise.
    pub open spec fn setter_name(self) -> Seq<char> {
        match self.setter_override {
            Some(name) => name,
            None => self.name,
        }
    }

    /// The field's type as documentation shows it.
    pub open spec fn display_type(self) -> Seq<char> {
        match self.coercion_mode {
            CoercionMode::Exact => self.declared_type,
            CoercionMode::Convertible => "Convertible<"@ + self.declared_type + ">"@,
        }
    }

    /// The text of the field's documentation annotations, in order.
    pub open spec fn documentation_block(self) -> Seq<Seq<char>> {
        self.annotations.filter(|a: AttributeModel| a.path == "doc"@).map_values(
            |a: AttributeModel| a.text,
        )
    }

    /// The tokens of the replaced generic parameters: nothing where there is
    /// none, else `<`, each parameter with an underscore behind it and a
    /// comma after it, and `>`.
    pub open spec fn replacement_tokens(self) -> Seq<Seq<char>> {
        if self.replace_generics.len() == 0 {
            Seq::empty()
        } else {
            seq!["<"@] + terminated_params(self.replace_generics) + seq![">"@]
        }
    }

    /// Every replaced generic parameter is an identifier.
    pub open spec fn wf(self) -> bool {
        all_identifiers(self.replace_generics)
    }
}

impl DeepView for Field {
    type V = FieldModel;

    open spec fn deep_view(&self) -> FieldModel {
        FieldModel {
            visibility: self.vis@,
            name: self.ident@,
            declared_type: self.ty@,
            default_expr: self.attrs.default.deep_view(),
            setter_override: self.attrs.setter.deep_view(),
            validator: self.attrs.validator.deep_view(),
            coercion_mode: if self.attrs.use_into {
                CoercionMode::Convertible
            } else {
                CoercionMode::Exact
            },
            annotations: self.attrs.documents.deep_view(),
            replace_generics: self.attrs.replace_generics.deep_view(),
        }
    }
}

impl View for Field {
    type V = FieldModel;

    open spec fn view(&self) -> FieldModel {
        self.deep_view()
    }
}

/// Copies a list of annotations.
pub fn clone_attributes(list: &Vec<Attribute>) -> (copy: Vec<Attribute>)
    ensures
        copy.deep_view() == list.deep_view(),
{
    let mut copy: Vec<Attribute> = Vec::new();
    let mut i: usize = 0;
    while i < list.len()
        invariant
            i <= list.len(),
            copy.len() == i,
            forall|j: int| 0 <= j < i ==> copy[j]@ == list[j]@,
        decreases list.len() - i,
    {
        copy.push(list[i].clone());
        i += 1;
    }
    assert(copy.deep_view() =~= list.deep_view());
    copy
}

/// Two fields are the same field where they have the same name.
impl PartialEq for Field {
    fn eq(&self, other: &Field) -> (same: bool) {
        self.ident == other.ident
    }
}

impl vstd::std_specs::cmp::PartialEqSpecImpl for Field {
    open spec fn obeys_eq_spec() -> bool {
        true
    }

    open spec fn eq_spec(&self, other: &Field) -> bool {
        self.ident@ == other.ident@
    }
}

/// Fields are ordered by their names, in the order of the dictionary.
impl PartialOrd for Field {
    fn partial_cmp(&self, other: &Field) -> (order: Option<Ordering>) {
        match compare_texts(self.ident.as_str(), other.ident.as_str()) {
            Rank::Before => Some(Ordering::Less),
            Rank::Same => Some(Ordering::Equal),
            Rank::After => Some(Ordering::Greater),
        }
    }
}

impl vstd::std_specs::cmp::PartialOrdSpecImpl for Field {
    open spec fn obeys_partial_cmp_spec() -> bool {
        true
    }

    open spec fn partial_cmp_spec(&self, other: &Field) -> Option<Ordering> {
        match rank(self.ident@, other.ident@) {
            Rank::Before => Some(Ordering::Less),
            Rank::Same => Some(Ordering::Equal),
            Rank::After => Some(Ordering::Greater),
        }
    }
}

impl Clone for Field {
    fn clone(&self) -> (copy: Field)
        ensures
            copy@ == self@,
    {
        Field {
            vis: self.vis.clone(),
            ident: self.ident.clone(),
            ty: self.ty.clone(),
            attrs: FieldAttributes {
                default: clone_optional(&self.attrs.default),
                use_into: self.attrs.use_into,
                validator: clone_optional(&self.attrs.validator),
                setter: clone_optional(&self.attrs.setter),
                documents: clone_attributes(&self.attrs.documents),
                replace_generics: clone_strings(&self.attrs.replace_generics),
            },
        }
    }
}

/// Looks up the text of the first annotation that names the option `key`.
pub fn find_option(annotations: &Vec<Attribute>, key: &str) -> (value: Option<String>)
    ensures
        value.deep_view() == option_value(annotations.deep_view(), key@),
{
    let wanted: String = String::from_str(key);
    let ghost all: Seq<AttributeModel> = annotations.deep_view();
    let mut value: Option<String> = None;
    let mut i: usize = annotations.len();
    while i > 0
        invariant
            i <= annotations.len(),
            wanted@ == key@,
            all == annotations.deep_view(),
            value.deep_view() == option_value(all.skip(i as int), key@),
        decreases i,
    {
        i -= 1;
        proof {
            assert(all.skip(i as int).drop_first() == all.skip(i + 1));
            assert(all.skip(i as int).first() == annotations[i as int]@);
        }
        if annotations[i].path == wanted {
            value = Some(annotations[i].text.clone());
        }
    }
    assert(all.skip(0) == all);
    value
}

/// Decides whether every name of the list is an identifier.
pub fn check_identifiers(names: &Vec<String>) -> (ok: bool)
    ensures
        ok == all_identifiers(names.deep_view()),
{
    let mut i: usize = 0;
    while i < names.len()
        invariant
            i <= names.len(),
            forall|j: int| 0 <= j < i ==> is_identifier(#[trigger] names.deep_view()[j]),
        decreases names.len() - i,
    {
        if !check_identifier(names[i].as_str()) {
            assert(!is_identifier(names.deep_view()[i as int]));
            return false;
        }
        i += 1;
    }
    true
}

impl Field {
    /// Reads a field from its declaration: the options are looked up among
    /// the annotations, and a declaration without a type, with a coercion
    /// flag that is no truth value or with a replaced generic parameter that
    /// is no identifier is refused.
    pub fn from_spec(raw: &FieldSpec) -> (result: Result<Field, ConfigFault>)
        ensures
            match result {
                Ok(field) => field_of(raw@) == Ok::<FieldModel, ConfigFault>(field@),
                Err(fault) => field_of(raw@) == Err::<FieldModel, ConfigFault>(fault),
            },
            result is Ok ==> result->Ok_0@.wf(),
    {
        let flag: Option<String> = find_option(&raw.attrs, "into");
        let ty: String = match &raw.ty {
            None => {
                return Err(ConfigFault::MissingType);
            },
            Some(ty) => ty.clone(),
        };
        let use_into: bool = match &flag {
            None => false,
            Some(text) => {
                if *text == String::from_str("true") {
                    true
                } else if *text == String::from_str("false") {
                    false
                } else {
                    return Err(ConfigFault::InvalidFlag);
                }
            },
        };
        if !check_identifiers(&raw.replace_generics) {
            return Err(ConfigFault::InvalidGeneric);
        }
        Ok(
            Field {
                vis: raw.vis.clone(),
                ident: raw.ident.clone(),
                ty,
                attrs: FieldAttributes {
                    default: find_option(&raw.attrs, "default"),
                    use_into,
                    validator: find_option(&raw.attrs, "validator"),
                    setter: find_option(&raw.attrs, "setter-name"),
                    documents: clone_attributes(&raw.attrs),
                    replace_generics: clone_strings(&raw.replace_generics),
                },
            },
        )
    }

    /// Whether the field must be set before the record can be built.
    pub fn is_required(&self) -> (required: bool)
        ensures
            required == self@.required(),
    {
        self.attrs.default.is_none()
    }

    /// The name of the field's setter.
    pub fn setter_name(&self) -> (name: String)
        ensures
            name@ == self@.setter_name(),
    {
        match &self.attrs.setter {
            Some(name) => name.clone(),
            None => self.ident.clone(),
        }
    }

    /// Whether the setter takes the field's type or what converts into it.
    pub fn coercion_mode(&self) -> (mode: CoercionMode)
        ensures
            mode == self@.coercion_mode,
    {
        if self.attrs.use_into {
            CoercionMode::Convertible
        } else {
            CoercionMode::Exact
        }
    }

    /// The field's type as documentation shows it: wrapped where the setter
    /// converts its argument, as it was declared otherwise.
    pub fn type_documents(&self) -> (text: String)
        ensures
            text@ == self@.display_type(),
    {
        if self.attrs.use_into {
            let mut text: String = String::from_str("Convertible<");
            text.append(self.ty.as_str());
            text.append(">");
            text
        } else {
            self.ty.clone()
        }
    }

    /// The text of the field's documentation annotations, in order. Any other
    /// annotation is passed over.
    pub fn documents(&self) -> (lines: Vec<String>)
        ensures
            lines.deep_view() == self@.documentation_block(),
    {
        let key: String = String::from_str("doc");
        let ghost all: Seq<AttributeModel> = self@.annotations;
        let ghost is_doc = |a: AttributeModel| a.path == "doc"@;
        let ghost text_of = |a: AttributeModel| a.text;
        let mut lines: Vec<String> = Vec::new();
        let mut i: usize = 0;
        while i < self.attrs.documents.len()
            invariant
                i <= self.attrs.documents.len(),
                key@ == "doc"@,
                all == self.attrs.documents.deep_view(),
                is_doc == |a: AttributeModel| a.path == "doc"@,
                text_of == |a: AttributeModel| a.text,
                lines.deep_view() == all.take(i as int).filter(is_doc).map_values(text_of),
            decreases self.attrs.documents.len() - i,
        {
            let a: &Attribute = &self.attrs.documents[i];
            proof {
                reveal(Seq::filter);
                assert(all.take(i + 1).drop_last() == all.take(i as int));
                assert(all.take(i + 1).last() == a@);
            }
            let ghost before = lines.deep_view();
            if a.path == key {
                lines.push(a.text.clone());
                assert(lines.deep_view() =~= before.push(a.text@));
                assert(all.take(i + 1).filter(is_doc) == all.take(i as int).filter(is_doc).push(
                    a@,
                ));
                assert(all.take(i + 1).filter(is_doc).map_values(text_of) =~= before.push(
                    a.text@,
                ));
            }
            i += 1;
        }
        assert(all.take(i as int) == all);
        lines
    }

    /// Decides whether every replaced generic parameter is an identifier.
    pub fn is_well_formed(&self) -> (ok: bool)
        ensures
            ok == self@.wf(),
    {
        check_identifiers(&self.attrs.replace_generics)
    }

    /// The replaced generic parameters as tokens: an empty stream where the
    /// field replaces none, else `<`, each parameter with an underscore
    /// behind it and a comma after it, and `>`. A field holds its parameters
    /// by name, so every token has the span of the call site.
    pub fn tokenize_replacement_params(&self) -> (stream: proc_macro2::TokenStream)
        requires
            self@.wf(),
        ensures
            stream_tokens(stream) == self@.replacement_tokens(),
    {
        let mut stream = new_stream();
        let n: usize = self.attrs.replace_generics.len();
        if n == 0 {
            return stream;
        }
        let ghost names: Seq<Seq<char>> = self@.replace_generics;
        push_lt(&mut stream);
        let mut i: usize = 0;
        while i < n
            invariant
                i <= n,
                n == self.attrs.replace_generics.len(),
                names == self.attrs.replace_generics.deep_view(),
                self@.wf(),
                stream_tokens(stream) == seq!["<"@] + terminated_params(names.take(i as int)),
            decreases n - i,
        {
            let mut name: String = self.attrs.replace_generics[i].clone();
            name.append("_");
            proof {
                reveal_strlit("_");
                let base = self@.replace_generics[i as int];
                assert(is_identifier(base));
                assert(is_identifier(name@)) by {
                    assert(name@ == base + "_"@);
                    assert(name@[0] == base[0]);
                    assert(name@.len() == base.len() + 1);
                    assert forall|k: int| 0 < k < name@.len() implies crate::text::is_ident_continue(
                        #[trigger] name@[k],
                    ) by {
                        if k < base.len() {
                            assert(name@[k] == base[k]);
                        } else {
                            assert(name@[k] == '_');
                        }
                    }
                }
                assert(names.take(i + 1).drop_last() == names.take(i as int));
                assert(names.take(i + 1).last() == base);
            }
            push_ident(&mut stream, name.as_str());
            push_comma(&mut stream);
            assert(stream_tokens(stream) =~= seq!["<"@] + terminated_params(names.take(i + 1)));
            i += 1;
        }
        assert(names.take(i as int) == names);
        push_gt(&mut stream);
        assert(stream_tokens(stream) =~= seq!["<"@] + terminated_params(names) + seq![">"@]);
        stream
    }
}

} // verus!
