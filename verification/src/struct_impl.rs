//! The constructor of a builder and its documentation.

use vstd::prelude::*;
use crate::builder::{ConstructorModel, ConstructorSpec, InitArg, InitArgModel};
use crate::field::{Field, FieldModel};
use crate::state::Marker;
use crate::structure::{StructModel, StructureInput};
use crate::text::clone_optional;

verus! {

/// The line that heads the documentation of a required field: its name and
/// its type as documentation shows it.
pub open spec fn required_heading(field: FieldModel) -> Seq<char> {
    " ### `"@ + field.name + "`\n - Type: "@ + field.display_type()
}

/// The line that heads the documentation of an optional field: its name, its
/// type as documentation shows it, and its default expression.
pub open spec fn optional_heading(field: FieldModel) -> Seq<char> {
    " ### `"@ + field.name + "`\n - Type: `"@ + field.display_type() + "`\n - Default: `"@
        + field.default_expr->0 + "`"@
}

/// The documentation of a required field: its heading, then its own
/// documentation lines.
pub open spec fn required_block(field: FieldModel) -> Seq<Seq<char>> {
    seq![required_heading(field)] + field.documentation_block()
}

/// The documentation of an optional field: its heading, then its own
/// documentation lines.
pub open spec fn optional_block(field: FieldModel) -> Seq<Seq<char>> {
    seq![optional_heading(field)] + field.documentation_block()
}

/// The documentation of the constructor: a title, the required fields in the
/// order of their declaration, then the optional fields in the order of
/// theirs. Every field, required or optional, is shown with the one type
/// that documentation shows for it.
pub open spec fn documentation(record: StructModel) -> Seq<Seq<char>> {
    seq![" Creating a builder."@, " ## Required Fields"@] + record.required_fields.flat_map(
        |f: FieldModel| required_block(f),
    ) + seq![" ## Optional Fields"@] + record.optional_fields.flat_map(
        |f: FieldModel| optional_block(f),
    )
}

/// The state that the type of a new builder records: every slot is empty.
/// The slot of an optional field holds its default from the start, yet its
/// marker starts empty like any other; no finalizer asks for it.
pub open spec fn initial_state(record: StructModel) -> Seq<Marker> {
    Seq::new(record.fields().len(), |k: int| Marker::Empty)
}

/// The state arguments in the type of a new builder: the unit type, once for
/// every field, required or optional.
pub open spec fn empty_types(record: StructModel) -> Seq<Seq<char>> {
    Seq::new(record.fields().len(), |k: int| "()"@)
}

/// The slot of a required field in a new builder: it holds nothing.
pub open spec fn empty_arg(field: FieldModel) -> InitArgModel {
    InitArgModel { name: field.name, value: None }
}

/// The slot of an optional field in a new builder: it holds the value of the
/// default expression.
pub open spec fn preset_arg(field: FieldModel) -> InitArgModel {
    InitArgModel { name: field.name, value: field.default_expr }
}

/// What a new builder holds: nothing for a required field, the default
/// expression for an optional one.
pub open spec fn initial_args(record: StructModel) -> Seq<InitArgModel> {
    record.required_fields.map_values(|f: FieldModel| empty_arg(f))
        + record.optional_fields.map_values(|f: FieldModel| preset_arg(f))
}

/// The constructor of the builder of `record`.
pub open spec fn constructor_of(record: StructModel) -> ConstructorModel {
    ConstructorModel {
        docs: documentation(record),
        state: initial_state(record),
        state_types: Seq::new(record.fields().len(), |k: int| "()"@),
        init_args: initial_args(record),
    }
}

/// Moves the lines of `more` behind those of `lines`.
fn extend_lines(lines: &mut Vec<String>, more: Vec<String>)
    ensures
        final(lines).deep_view() == old(lines).deep_view() + more.deep_view(),
{
    let mut more = more;
    let ghost added: Seq<Seq<char>> = more.deep_view();
    let ghost before: Seq<Seq<char>> = lines.deep_view();
    lines.append(&mut more);
    assert(lines.deep_view() =~= before + added);
}

/// Derives the constructor of a record's builder: the function `new` of the
/// record, which hands back a builder that holds nothing but the defaults.
pub struct StructImpl<'a> {
    pub input: &'a StructureInput,
}

impl<'a> View for StructImpl<'a> {
    type V = StructModel;

    open spec fn view(&self) -> StructModel {
        self.input@
    }
}

impl<'a> StructImpl<'a> {
    /// Derives the constructor of the builder of `input`.
    pub fn new(input: &'a StructureInput) -> (this: StructImpl<'a>)
        ensures
            this.input == input,
            this@ == input@,
    {
        StructImpl { input }
    }

    /// The state that the type of a new builder records, one marker per
    /// slot: every slot is empty.
    pub fn initial_state(&self) -> (state: Vec<Marker>)
        ensures
            state@ == initial_state(self@),
    {
        let mut state: Vec<Marker> = Vec::new();
        let required: usize = self.input.required_fields.len();
        let optional: usize = self.input.optional_fields.len();
        let mut i: usize = 0;
        while i < required
            invariant
                i <= required,
                state@ == Seq::new(i as nat, |k: int| Marker::Empty),
            decreases required - i,
        {
            state.push(Marker::Empty);
            assert(state@ =~= Seq::new((i + 1) as nat, |k: int| Marker::Empty));
            i += 1;
        }
        let mut j: usize = 0;
        while j < optional
            invariant
                j <= optional,
                state@ == Seq::new((required + j) as nat, |k: int| Marker::Empty),
            decreases optional - j,
        {
            state.push(Marker::Empty);
            assert(state@ =~= Seq::new((required + j + 1) as nat, |k: int| Marker::Empty));
            j += 1;
        }
        assert(state@ =~= initial_state(self@));
        state
    }

    /// The state arguments in the type of a new builder: the unit type, once
    /// for every field, required or optional.
    pub fn empty_generics(&self) -> (types: Vec<String>)
        ensures
            types.deep_view() == empty_types(self@),
    {
        let mut types: Vec<String> = Vec::new();
        let required: usize = self.input.required_fields.len();
        let optional: usize = self.input.optional_fields.len();
        let mut i: usize = 0;
        while i < required
            invariant
                i <= required,
                types.len() == i,
                forall|k: int| 0 <= k < i ==> types[k]@ == "()"@,
            decreases required - i,
        {
            types.push(String::from_str("()"));
            i += 1;
        }
        let mut j: usize = 0;
        while j < optional
            invariant
                j <= optional,
                types.len() == required + j,
                forall|k: int| 0 <= k < required + j ==> types[k]@ == "()"@,
            decreases optional - j,
        {
            types.push(String::from_str("()"));
            j += 1;
        }
        assert(types.deep_view() =~= empty_types(self@));
        types
    }

    /// What the constructor puts into each slot: nothing for a required
    /// field, the default expression for an optional one.
    pub fn builder_init_args(&self) -> (args: Vec<InitArg>)
        ensures
            args.deep_view() == initial_args(self@),
    {
        let ghost required: Seq<FieldModel> = self@.required_fields;
        let ghost optional: Seq<FieldModel> = self@.optional_fields;
        let ghost empty = |f: FieldModel| empty_arg(f);
        let ghost preset = |f: FieldModel| preset_arg(f);
        let mut args: Vec<InitArg> = Vec::new();
        let mut i: usize = 0;
        while i < self.input.required_fields.len()
            invariant
                i <= self.input.required_fields.len(),
                required == self.input.required_fields.deep_view(),
                empty == |f: FieldModel| empty_arg(f),
                args.deep_view() == required.take(i as int).map_values(empty),
            decreases self.input.required_fields.len() - i,
        {
            let field: &Field = &self.input.required_fields[i];
            let ghost before = args.deep_view();
            args.push(InitArg { name: field.ident.clone(), value: None });
            assert(args.deep_view() =~= before.push(empty(field@)));
            assert(required.take(i + 1).map_values(empty) =~= before.push(empty(field@)));
            i += 1;
        }
        assert(required.take(i as int) == required);
        let mut j: usize = 0;
        while j < self.input.optional_fields.len()
            invariant
                j <= self.input.optional_fields.len(),
                optional == self.input.optional_fields.deep_view(),
                preset == |f: FieldModel| preset_arg(f),
                args.deep_view() == required.map_values(empty) + optional.take(j as int).map_values(
                    preset,
                ),
            decreases self.input.optional_fields.len() - j,
        {
            let field: &Field = &self.input.optional_fields[j];
            let ghost before = args.deep_view();
            args.push(
                InitArg { name: field.ident.clone(), value: clone_optional(&field.attrs.default) },
            );
            assert(args.deep_view() =~= before.push(preset(field@)));
            assert(required.map_values(empty) + optional.take(j + 1).map_values(preset)
                =~= before.push(preset(field@)));
            j += 1;
        }
        assert(optional.take(j as int) == optional);
        args
    }

    /// The documentation of the constructor: a title, then under one heading
    /// each the required and the optional fields, every field with its name,
    /// its type, its default where it has one, and its own documentation.
    pub fn documents(&self) -> (docs: Vec<String>)
        requires
            self@.defaults_present(),
        ensures
            docs.deep_view() == documentation(self@),
    {
        let ghost required: Seq<FieldModel> = self@.required_fields;
        let ghost optional: Seq<FieldModel> = self@.optional_fields;
        let ghost required_part = |f: FieldModel| required_block(f);
        let ghost optional_part = |f: FieldModel| optional_block(f);
        let mut docs: Vec<String> = Vec::new();
        docs.push(String::from_str(" Creating a builder."));
        docs.push(String::from_str(" ## Required Fields"));
        let ghost title: Seq<Seq<char>> = seq![" Creating a builder."@, " ## Required Fields"@];
        assert(docs.deep_view() =~= title);
        assert(required.take(0).flat_map(required_part) =~= Seq::<Seq<char>>::empty());
        let mut i: usize = 0;
        while i < self.input.required_fields.len()
            invariant
                i <= self.input.required_fields.len(),
                required == self.input.required_fields.deep_view(),
                required_part == |f: FieldModel| required_block(f),
                title == seq![" Creating a builder."@, " ## Required Fields"@],
                docs.deep_view() == title + required.take(i as int).flat_map(required_part),
            decreases self.input.required_fields.len() - i,
        {
            let field: &Field = &self.input.required_fields[i];
            let ghost before = docs.deep_view();
            let mut heading: String = String::from_str(" ### `");
            heading.append(field.ident.as_str());
            heading.append("`\n - Type: ");
            heading.append(field.type_documents().as_str());
            docs.push(heading);
            assert(docs.deep_view() =~= before.push(required_heading(field@)));
            extend_lines(&mut docs, field.documents());
            proof {
                required.lemma_flat_map_take_append(required_part, i as int);
                assert(docs.deep_view() =~= before + required_block(field@));
            }
            i += 1;
        }
        assert(required.take(i as int) == required);
        let ghost upper: Seq<Seq<char>> = docs.deep_view();
        docs.push(String::from_str(" ## Optional Fields"));
        let ghost head: Seq<Seq<char>> = upper.push(" ## Optional Fields"@);
        assert(docs.deep_view() =~= head);
        assert(optional.take(0).flat_map(optional_part) =~= Seq::<Seq<char>>::empty());
        let mut j: usize = 0;
        while j < self.input.optional_fields.len()
            invariant
                j <= self.input.optional_fields.len(),
                optional == self.input.optional_fields.deep_view(),
                optional_part == |f: FieldModel| optional_block(f),
                self@.defaults_present(),
                docs.deep_view() == head + optional.take(j as int).flat_map(optional_part),
            decreases self.input.optional_fields.len() - j,
        {
            let field: &Field = &self.input.optional_fields[j];
            let ghost before = docs.deep_view();
            assert(self@.optional_fields[j as int].default_expr is Some);
            let mut heading: String = String::from_str(" ### `");
            heading.append(field.ident.as_str());
            heading.append("`\n - Type: `");
            heading.append(field.type_documents().as_str());
            heading.append("`\n - Default: `");
            match &field.attrs.default {
                Some(expr) => {
                    heading.append(expr.as_str());
                },
                None => {},
            }
            heading.append("`");
            docs.push(heading);
            assert(docs.deep_view() =~= before.push(optional_heading(field@)));
            extend_lines(&mut docs, field.documents());
            proof {
                optional.lemma_flat_map_take_append(optional_part, j as int);
                assert(docs.deep_view() =~= before + optional_block(field@));
            }
            j += 1;
        }
        assert(optional.take(j as int) == optional);
        assert(docs.deep_view() =~= documentation(self@));
        docs
    }

    /// The constructor of the builder: its documentation, the state that
    /// the type of the builder it hands back records, and what it puts into
    /// each slot.
    pub fn constructor(&self) -> (spec: ConstructorSpec)
        requires
            self@.defaults_present(),
        ensures
            spec@ == constructor_of(self@),
    {
        ConstructorSpec {
            docs: self.documents(),
            state: self.initial_state(),
            state_types: self.empty_generics(),
            init_args: self.builder_init_args(),
        }
    }
}

} // verus!
