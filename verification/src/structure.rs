//! The normalized description of a whole record.

use vstd::prelude::*;
use vstd::seq_lib::lemma_no_dup_in_concat;
use crate::builder::{BuilderDecl, BuilderDeclModel, SlotModel, SlotSpec};
use crate::error::{ConfigFault, SynthesisError, SynthesisErrorModel};
use crate::field::{Field, FieldModel, FieldSpec, FieldSpecModel, field_of};
use crate::text::{clone_optional, clone_strings, decimal, decimal_text};

verus! {

/// The shape of a declaration.
#[derive(Clone, Copy, PartialEq, Eq, Debug, Structural)]
pub enum Shape {
    /// A record of named fields: the one shape a builder is made for.
    NamedRecord,
    /// A record of positional fields.
    TupleRecord,
    /// A record without fields of its own.
    UnitRecord,
    /// A choice between variants.
    Variants,
    /// A union.
    Union,
}

/// The generic parameters of a record.
#[derive(Debug)]
pub struct Generics {
    /// The lifetime parameters, by name.
    pub lifetimes: Vec<String>,
    /// The type parameters, by name.
    pub types: Vec<String>,
    /// All parameters as they were declared, bounds included.
    pub params: Vec<String>,
    /// The `where` clause, where there is one.
    pub where_clause: Option<String>,
}

/// The model of [`Generics`].
pub struct GenericsModel {
    pub lifetimes: Seq<Seq<char>>,
    pub types: Seq<Seq<char>>,
    pub params: Seq<Seq<char>>,
    pub where_clause: Option<Seq<char>>,
}

impl DeepView for Generics {
    type V = GenericsModel;

    open spec fn deep_view(&self) -> GenericsModel {
        GenericsModel {
            lifetimes: self.lifetimes.deep_view(),
            types: self.types.deep_view(),
            params: self.params.deep_view(),
            where_clause: self.where_clause.deep_view(),
        }
    }
}

impl View for Generics {
    type V = GenericsModel;

    open spec fn view(&self) -> GenericsModel {
        self.deep_view()
    }
}

impl Clone for Generics {
    fn clone(&self) -> (copy: Generics)
        ensures
            copy@ == self@,
    {
        Generics {
            lifetimes: clone_strings(&self.lifetimes),
            types: clone_strings(&self.types),
            params: clone_strings(&self.params),
            where_clause: clone_optional(&self.where_clause),
        }
    }
}

/// A declaration as it was written: what the parser of the surrounding
/// language hands over.
#[derive(Debug)]
pub struct StructSpec {
    pub vis: String,
    pub ident: String,
    pub generics: Generics,
    pub shape: Shape,
    pub fields: Vec<FieldSpec>,
}

/// The model of a [`StructSpec`].
pub struct StructSpecModel {
    pub visibility: Seq<char>,
    pub name: Seq<char>,
    pub generics: GenericsModel,
    pub shape: Shape,
    pub fields: Seq<FieldSpecModel>,
}

impl DeepView for StructSpec {
    type V = StructSpecModel;

    open spec fn deep_view(&self) -> StructSpecModel {
        StructSpecModel {
            visibility: self.vis@,
            name: self.ident@,
            generics: self.generics@,
            shape: self.shape,
            fields: self.fields.deep_view(),
        }
    }
}

impl View for StructSpec {
    type V = StructSpecModel;

    open spec fn view(&self) -> StructSpecModel {
        self.deep_view()
    }
}

/// A record whose fields are parted into the required and the optional ones.
#[derive(Debug)]
pub struct StructureInput {
    pub vis: String,
    pub ident: String,
    pub generics: Generics,
    pub required_fields: Vec<Field>,
    pub optional_fields: Vec<Field>,
}

/// The model of a [`StructureInput`].
pub struct StructModel {
    pub visibility: Seq<char>,
    pub name: Seq<char>,
    pub generics: GenericsModel,
    pub required_fields: Seq<FieldModel>,
    pub optional_fields: Seq<FieldModel>,
}

impl DeepView for StructureInput {
    type V = StructModel;

    open spec fn deep_view(&self) -> StructModel {
        StructModel {
            visibility: self.vis@,
            name: self.ident@,
            generics: self.generics@,
            required_fields: self.required_fields.deep_view(),
            optional_fields: self.optional_fields.deep_view(),
        }
    }
}

impl View for StructureInput {
    type V = StructModel;

    open spec fn view(&self) -> StructModel {
        self.deep_view()
    }
}

/// The names of the fields, in order.
pub open spec fn names_of(fields: Seq<FieldModel>) -> Seq<Seq<char>> {
    fields.map_values(|f: FieldModel| f.name)
}

/// The declared types of the fields, in order.
pub open spec fn types_of(fields: Seq<FieldModel>) -> Seq<Seq<char>> {
    fields.map_values(|f: FieldModel| f.declared_type)
}

/// The setter names of the fields, in order.
pub open spec fn setters_of(fields: Seq<FieldModel>) -> Seq<Seq<char>> {
    fields.map_values(|f: FieldModel| f.setter_name())
}

impl StructModel {
    /// All fields in the order of the builder's slots: the required ones as
    /// they were declared, then the optional ones as they were declared.
    pub open spec fn fields(self) -> Seq<FieldModel> {
        self.required_fields + self.optional_fields
    }

    /// The name of the builder: the record's name and `Builder`.
    pub open spec fn builder_name(self) -> Seq<char> {
        self.name + "Builder"@
    }

    /// Every optional field has a default expression.
    pub open spec fn defaults_present(self) -> bool {
        forall|i: int|
            0 <= i < self.optional_fields.len() ==> (
            #[trigger] self.optional_fields[i]).default_expr is Some
    }

    /// The required fields are exactly those without a default expression,
    /// no two fields share a name or a setter name, and every field is well
    /// formed.
    pub open spec fn valid(self) -> bool {
        &&& forall|i: int|
            0 <= i < self.required_fields.len() ==> #[trigger] self.required_fields[i].required()
        &&& forall|i: int|
            0 <= i < self.optional_fields.len() ==> !#[trigger] self.optional_fields[i].required()
        &&& all_wf(self.fields())
        &&& unique(self.fields())
    }

    /// The record is valid, and its fields can be counted.
    pub open spec fn wf(self) -> bool {
        self.valid() && self.fields().len() <= usize::MAX
    }
}

/// The name of the state parameter of slot `k`: `T` and the slot's number,
/// counted from one.
pub open spec fn state_param(k: int) -> Seq<char> {
    "T"@ + decimal_text((k + 1) as nat)
}

/// The names of the state parameters of a builder with `n` slots.
pub open spec fn state_params(n: nat) -> Seq<Seq<char>> {
    Seq::new(n, |k: int| state_param(k))
}

/// The slot that holds the value of a field.
pub open spec fn slot_for(field: FieldModel) -> SlotModel {
    SlotModel { visibility: field.visibility, name: field.name, ty: field.declared_type }
}

/// The builder type of a record: it is named after the record, takes the
/// record's generic parameters and one state parameter per field, and has one
/// slot per field, in the order of the fields.
pub open spec fn builder_decl_of(record: StructModel) -> BuilderDeclModel {
    BuilderDeclModel {
        visibility: record.visibility,
        name: record.builder_name(),
        generics: record.generics,
        state_params: state_params(record.fields().len()),
        slots: record.fields().map_values(|f: FieldModel| slot_for(f)),
    }
}

/// The fields read so far and one more declaration: the fields with the new
/// one behind them, unless its options are at fault or an earlier field has
/// its name or its setter name.
pub open spec fn admit_field(fields: Seq<FieldModel>, raw: FieldSpecModel) -> Result<
    Seq<FieldModel>,
    SynthesisErrorModel,
> {
    match field_of(raw) {
        Err(fault) => Err(SynthesisErrorModel::FieldConfig { field: raw.name, fault }),
        Ok(field) => if names_of(fields).contains(field.name) {
            Err(
                SynthesisErrorModel::FieldConfig {
                    field: field.name,
                    fault: ConfigFault::DuplicateField,
                },
            )
        } else if setters_of(fields).contains(field.setter_name()) {
            Err(
                SynthesisErrorModel::FieldConfig {
                    field: field.name,
                    fault: ConfigFault::AmbiguousSetter,
                },
            )
        } else {
            Ok(fields.push(field))
        },
    }
}

/// The fields that a list of declarations describes, in the order they were
/// declared, or the first error met in that order.
pub open spec fn collect_fields(raws: Seq<FieldSpecModel>) -> Result<
    Seq<FieldModel>,
    SynthesisErrorModel,
>
    decreases raws.len(),
{
    if raws.len() == 0 {
        Ok(Seq::empty())
    } else {
        match collect_fields(raws.drop_last()) {
            Err(error) => Err(error),
            Ok(fields) => admit_field(fields, raws.last()),
        }
    }
}

/// The record that a declaration describes. Anything but a record of named
/// fields is refused; so is a declaration with a field at fault. The fields
/// without a default expression become the required ones, the others the
/// optional ones, each list in the order of the declaration.
pub open spec fn parse_model(spec: StructSpecModel) -> Result<StructModel, SynthesisErrorModel> {
    if spec.shape != Shape::NamedRecord {
        Err(SynthesisErrorModel::StructShape { name: spec.name })
    } else {
        match collect_fields(spec.fields) {
            Err(error) => Err(error),
            Ok(fields) => Ok(
                StructModel {
                    visibility: spec.visibility,
                    name: spec.name,
                    generics: spec.generics,
                    required_fields: fields.filter(|f: FieldModel| f.required()),
                    optional_fields: fields.filter(|f: FieldModel| !f.required()),
                },
            ),
        }
    }
}

/// An error met among the first declarations is the error of the whole list.
proof fn lemma_error_stays(raws: Seq<FieldSpecModel>, k: int)
    requires
        0 <= k <= raws.len(),
        collect_fields(raws.take(k)) is Err,
    ensures
        collect_fields(raws) == collect_fields(raws.take(k)),
    decreases raws.len() - k,
{
    if k < raws.len() {
        assert(raws.take(k + 1).drop_last() == raws.take(k));
        lemma_error_stays(raws, k + 1);
    } else {
        assert(raws.take(k) == raws);
    }
}

/// The slots of a list of fields are as many as the fields, and each is the
/// slot of its field.
proof fn lemma_slots(slots: Vec<SlotSpec>, fields: Seq<FieldModel>)
    requires
        slots.deep_view() == fields.map_values(|f: FieldModel| slot_for(f)),
    ensures
        slots.len() == fields.len(),
        forall|j: int| 0 <= j < slots.len() ==> slots[j]@ == slot_for(fields[j]),
{
    let wanted = fields.map_values(|f: FieldModel| slot_for(f));
    assert(slots.deep_view().len() == wanted.len());
    assert forall|j: int| 0 <= j < slots.len() implies slots[j]@ == slot_for(fields[j]) by {
        assert(slots.deep_view()[j] == wanted[j]);
    }
}

/// Decides whether a text occurs in a list.
pub fn contains_text(list: &Vec<String>, text: &String) -> (found: bool)
    ensures
        found == list.deep_view().contains(text@),
{
    let mut i: usize = 0;
    while i < list.len()
        invariant
            i <= list.len(),
            forall|j: int| 0 <= j < i ==> list.deep_view()[j] != text@,
        decreases list.len() - i,
    {
        if list[i] == *text {
            assert(list.deep_view()[i as int] == text@);
            return true;
        }
        i += 1;
    }
    false
}

/// Decides whether no text occurs twice in a list.
pub fn all_distinct(list: &Vec<String>) -> (distinct: bool)
    ensures
        distinct == list.deep_view().no_duplicates(),
{
    let ghost texts: Seq<Seq<char>> = list.deep_view();
    let mut i: usize = 0;
    while i < list.len()
        invariant
            i <= list.len(),
            texts == list.deep_view(),
            forall|a: int, b: int| 0 <= a < b < i ==> texts[a] != texts[b],
        decreases list.len() - i,
    {
        let mut j: usize = 0;
        while j < i
            invariant
                j <= i,
                i < list.len(),
                texts == list.deep_view(),
                forall|a: int| 0 <= a < j ==> texts[a] != texts[i as int],
            decreases i - j,
        {
            if list[j] == list[i] {
                assert(texts[j as int] == texts[i as int]);
                return false;
            }
            j += 1;
        }
        i += 1;
    }
    assert forall|a: int, b: int|
        0 <= a < texts.len() && 0 <= b < texts.len() && a != b implies texts[a] != texts[b] by {
        if a < b {
            assert(texts[a] != texts[b]);
        } else {
            assert(texts[b] != texts[a]);
        }
    }
    true
}

/// Decides whether every field of a list is well formed, and required or
/// not as `required` says.
fn check_fields(list: &Vec<Field>, required: bool) -> (ok: bool)
    ensures
        ok == (all_wf(list.deep_view()) && forall|k: int|
            0 <= k < list.len() ==> (#[trigger] list.deep_view()[k]).required() == required),
{
    let mut i: usize = 0;
    while i < list.len()
        invariant
            i <= list.len(),
            forall|k: int| 0 <= k < i ==> (#[trigger] list.deep_view()[k]).wf(),
            forall|k: int| 0 <= k < i ==> (#[trigger] list.deep_view()[k]).required() == required,
        decreases list.len() - i,
    {
        assert(list.deep_view()[i as int] == list[i as int]@);
        if !list[i].is_well_formed() || list[i].is_required() != required {
            return false;
        }
        i += 1;
    }
    true
}

impl StructureInput {
    /// Decides whether the record is well formed: the required fields are
    /// those without a default expression, no two fields share a name or a
    /// setter name, every field is well formed, and the fields can be
    /// counted.
    pub fn is_well_formed(&self) -> (ok: bool)
        ensures
            ok == self@.wf(),
    {
        let ghost record: StructModel = self@;
        if !check_fields(&self.required_fields, true) {
            proof {
                if all_wf(record.fields()) {
                    assert forall|k: int| 0 <= k < record.required_fields.len() implies (
                    #[trigger] record.required_fields[k]).wf() by {
                        assert(record.fields()[k] == record.required_fields[k]);
                    }
                }
            }
            return false;
        }
        if !check_fields(&self.optional_fields, false) {
            proof {
                if all_wf(record.fields()) {
                    assert forall|k: int| 0 <= k < record.optional_fields.len() implies (
                    #[trigger] record.optional_fields[k]).wf() by {
                        assert(record.fields()[record.required_fields.len() + k]
                            == record.optional_fields[k]);
                    }
                }
            }
            return false;
        }
        proof {
            assert forall|k: int| 0 <= k < record.fields().len() implies (
            #[trigger] record.fields()[k]).wf() by {
                if k < record.required_fields.len() {
                    assert(record.fields()[k] == record.required_fields[k]);
                } else {
                    assert(record.fields()[k] == record.optional_fields[k
                        - record.required_fields.len()]);
                }
            }
        }
        if self.required_fields.len().checked_add(self.optional_fields.len()).is_none() {
            return false;
        }
        all_distinct(&self.field_names()) && all_distinct(&self.setter_names())
    }

    /// Decides whether every optional field has a default expression.
    pub fn has_defaults(&self) -> (ok: bool)
        ensures
            ok == self@.defaults_present(),
    {
        let mut i: usize = 0;
        while i < self.optional_fields.len()
            invariant
                i <= self.optional_fields.len(),
                forall|k: int|
                    0 <= k < i ==> (#[trigger] self@.optional_fields[k]).default_expr is Some,
            decreases self.optional_fields.len() - i,
        {
            assert(self@.optional_fields[i as int] == self.optional_fields[i as int]@);
            if self.optional_fields[i].is_required() {
                return false;
            }
            i += 1;
        }
        true
    }

    /// The name of the builder: the record's name and `Builder`.
    pub fn builder_name(&self) -> (name: String)
        ensures
            name@ == self@.builder_name(),
    {
        let mut name: String = self.ident.clone();
        name.append("Builder");
        name
    }

    /// The names of the builder's state parameters, one per field: `T1`,
    /// `T2` and so on.
    pub fn all_generics(&self) -> (params: Vec<String>)
        requires
            self@.fields().len() <= usize::MAX,
        ensures
            params.deep_view() == state_params(self@.fields().len()),
    {
        let mut params: Vec<String> = Vec::new();
        let required: usize = self.required_fields.len();
        let optional: usize = self.optional_fields.len();
        let mut i: usize = 0;
        while i < required
            invariant
                i <= required,
                params.len() == i,
                forall|k: int| 0 <= k < i ==> params[k]@ == state_param(k),
            decreases required - i,
        {
            let mut name: String = String::from_str("T");
            name.append(decimal(i + 1).as_str());
            params.push(name);
            i += 1;
        }
        let mut j: usize = 0;
        while j < optional
            invariant
                j <= optional,
                required + optional <= usize::MAX,
                params.len() == required + j,
                forall|k: int| 0 <= k < required + j ==> params[k]@ == state_param(k),
            decreases optional - j,
        {
            let mut name: String = String::from_str("T");
            name.append(decimal(params.len() + 1).as_str());
            params.push(name);
            j += 1;
        }
        assert(params.deep_view() =~= state_params(self@.fields().len()));
        params
    }

    /// The slot of the field whose setter is called `setter`, if there is
    /// such a field: the first one, in the order of the slots.
    pub fn slot_of(&self, setter: &str) -> (slot: Option<usize>)
        requires
            self@.fields().len() <= usize::MAX,
        ensures
            match slot {
                Some(k) => k < self@.fields().len() && setters_of(self@.fields())[k as int]
                    == setter@ && forall|j: int|
                    0 <= j < k ==> setters_of(self@.fields())[j] != setter@,
                None => !setters_of(self@.fields()).contains(setter@),
            },
    {
        let wanted: String = String::from_str(setter);
        let ghost required: Seq<FieldModel> = self@.required_fields;
        let ghost optional: Seq<FieldModel> = self@.optional_fields;
        let ghost all: Seq<Seq<char>> = setters_of(self@.fields());
        let mut i: usize = 0;
        while i < self.required_fields.len()
            invariant
                i <= self.required_fields.len(),
                wanted@ == setter@,
                required == self.required_fields.deep_view(),
                optional == self.optional_fields.deep_view(),
                all == setters_of(required + optional),
                forall|j: int| 0 <= j < i ==> all[j] != setter@,
            decreases self.required_fields.len() - i,
        {
            assert(all[i as int] == required[i as int].setter_name());
            if self.required_fields[i].setter_name() == wanted {
                return Some(i);
            }
            i += 1;
        }
        let mut j: usize = 0;
        while j < self.optional_fields.len()
            invariant
                j <= self.optional_fields.len(),
                wanted@ == setter@,
                required == self.required_fields.deep_view(),
                optional == self.optional_fields.deep_view(),
                all == setters_of(required + optional),
                self.required_fields.len() == required.len(),
                self.optional_fields.len() == optional.len(),
                required.len() + optional.len() <= usize::MAX,
                forall|k: int| 0 <= k < required.len() + j ==> all[k] != setter@,
            decreases self.optional_fields.len() - j,
        {
            assert(all[required.len() + j] == optional[j as int].setter_name());
            if self.optional_fields[j].setter_name() == wanted {
                return Some(self.required_fields.len() + j);
            }
            j += 1;
        }
        None
    }

    /// The names of the fields, in the order of the builder's slots.
    pub fn field_names(&self) -> (names: Vec<String>)
        ensures
            names.deep_view() == names_of(self@.fields()),
    {
        let slots: Vec<SlotSpec> = self.builder_fields();
        let ghost fields: Seq<FieldModel> = self@.fields();
        proof {
            lemma_slots(slots, fields);
        }
        let mut names: Vec<String> = Vec::new();
        let mut k: usize = 0;
        while k < slots.len()
            invariant
                k <= slots.len(),
                slots.len() == fields.len(),
                forall|j: int| 0 <= j < slots.len() ==> slots[j]@ == slot_for(fields[j]),
                names.len() == k,
                forall|j: int| 0 <= j < k ==> names[j]@ == fields[j].name,
            decreases slots.len() - k,
        {
            names.push(slots[k].name.clone());
            k += 1;
        }
        assert(names.deep_view() =~= names_of(self@.fields()));
        names
    }

    /// The declared types of the fields, in the order of the builder's
    /// slots.
    pub fn field_types(&self) -> (types: Vec<String>)
        ensures
            types.deep_view() == types_of(self@.fields()),
    {
        let slots: Vec<SlotSpec> = self.builder_fields();
        let ghost fields: Seq<FieldModel> = self@.fields();
        proof {
            lemma_slots(slots, fields);
        }
        let mut types: Vec<String> = Vec::new();
        let mut k: usize = 0;
        while k < slots.len()
            invariant
                k <= slots.len(),
                slots.len() == fields.len(),
                forall|j: int| 0 <= j < slots.len() ==> slots[j]@ == slot_for(fields[j]),
                types.len() == k,
                forall|j: int| 0 <= j < k ==> types[j]@ == fields[j].declared_type,
            decreases slots.len() - k,
        {
            types.push(slots[k].ty.clone());
            k += 1;
        }
        assert(types.deep_view() =~= types_of(self@.fields()));
        types
    }

    /// The setter names of the fields, in the order of the builder's slots.
    pub fn setter_names(&self) -> (names: Vec<String>)
        ensures
            names.deep_view() == setters_of(self@.fields()),
    {
        let ghost required: Seq<FieldModel> = self@.required_fields;
        let ghost optional: Seq<FieldModel> = self@.optional_fields;
        let mut names: Vec<String> = Vec::new();
        let mut i: usize = 0;
        while i < self.required_fields.len()
            invariant
                i <= self.required_fields.len(),
                required == self.required_fields.deep_view(),
                names.len() == i,
                forall|k: int| 0 <= k < i ==> names[k]@ == required[k].setter_name(),
            decreases self.required_fields.len() - i,
        {
            names.push(self.required_fields[i].setter_name());
            i += 1;
        }
        let mut j: usize = 0;
        while j < self.optional_fields.len()
            invariant
                j <= self.optional_fields.len(),
                required == self.required_fields.deep_view(),
                optional == self.optional_fields.deep_view(),
                names.len() == required.len() + j,
                forall|k: int| 0 <= k < required.len() ==> names[k]@ == required[k].setter_name(),
                forall|k: int|
                    0 <= k < j ==> names[required.len() + k]@ == (
                    #[trigger] optional[k]).setter_name(),
            decreases self.optional_fields.len() - j,
        {
            names.push(self.optional_fields[j].setter_name());
            j += 1;
        }
        proof {
            let wanted = setters_of(self@.fields());
            assert forall|k: int| 0 <= k < wanted.len() implies names.deep_view()[k]
                == wanted[k] by {
                if k >= required.len() {
                    assert(names[required.len() + (k - required.len())]@ == optional[k
                        - required.len()].setter_name());
                }
            }
            assert(names.deep_view() =~= wanted);
        }
        names
    }

    /// The slots of the builder, one per field: first those of the required
    /// fields, then those of the optional ones.
    pub fn builder_fields(&self) -> (slots: Vec<SlotSpec>)
        ensures
            slots.deep_view() == self@.fields().map_values(|f: FieldModel| slot_for(f)),
    {
        let ghost required: Seq<FieldModel> = self@.required_fields;
        let ghost optional: Seq<FieldModel> = self@.optional_fields;
        let mut slots: Vec<SlotSpec> = Vec::new();
        let mut i: usize = 0;
        while i < self.required_fields.len()
            invariant
                i <= self.required_fields.len(),
                required == self.required_fields.deep_view(),
                slots.len() == i,
                forall|k: int| 0 <= k < i ==> slots[k]@ == slot_for(required[k]),
            decreases self.required_fields.len() - i,
        {
            let field: &Field = &self.required_fields[i];
            slots.push(
                SlotSpec { vis: field.vis.clone(), name: field.ident.clone(), ty: field.ty.clone() },
            );
            i += 1;
        }
        let mut j: usize = 0;
        while j < self.optional_fields.len()
            invariant
                j <= self.optional_fields.len(),
                required == self.required_fields.deep_view(),
                optional == self.optional_fields.deep_view(),
                slots.len() == required.len() + j,
                forall|k: int| 0 <= k < required.len() ==> slots[k]@ == slot_for(required[k]),
                forall|k: int|
                    0 <= k < j ==> slots[required.len() + k]@ == slot_for(#[trigger] optional[k]),
            decreases self.optional_fields.len() - j,
        {
            let field: &Field = &self.optional_fields[j];
            slots.push(
                SlotSpec { vis: field.vis.clone(), name: field.ident.clone(), ty: field.ty.clone() },
            );
            j += 1;
        }
        proof {
            let wanted = self@.fields().map_values(|f: FieldModel| slot_for(f));
            assert forall|k: int| 0 <= k < wanted.len() implies slots.deep_view()[k]
                == wanted[k] by {
                if k >= required.len() {
                    assert(slots[required.len() + (k - required.len())]@ == slot_for(
                        optional[k - required.len()],
                    ));
                }
            }
            assert(slots.deep_view() =~= wanted);
        }
        slots
    }

    /// The builder type: its name, the record's generic parameters, its
    /// state parameters and its slots.
    pub fn builder_decl(&self) -> (decl: BuilderDecl)
        requires
            self@.fields().len() <= usize::MAX,
        ensures
            decl@ == builder_decl_of(self@),
    {
        BuilderDecl {
            vis: self.vis.clone(),
            name: self.builder_name(),
            generics: self.generics.clone(),
            state_params: self.all_generics(),
            slots: self.builder_fields(),
        }
    }

    /// Reads a record from its declaration.
    ///
    /// Anything but a record of named fields is refused with
    /// [`SynthesisError::StructShape`]. The fields are read in the order of
    /// the declaration, and the first one that cannot be read, or that has
    /// the name or the setter name of an earlier field, is refused with
    /// [`SynthesisError::FieldConfig`]. Otherwise the fields are parted by
    /// whether they have a default expression, and the result is well formed.
    pub fn parse(spec: &StructSpec) -> (result: Result<StructureInput, SynthesisError>)
        ensures
            match result {
                Ok(input) => parse_model(spec@) == Ok::<StructModel, SynthesisErrorModel>(input@),
                Err(error) => parse_model(spec@) == Err::<StructModel, SynthesisErrorModel>(
                    error@,
                ),
            },
            result is Ok ==> result->Ok_0@.wf(),
    {
        if spec.shape != Shape::NamedRecord {
            return Err(SynthesisError::StructShape { name: spec.ident.clone() });
        }
        let ghost raws: Seq<FieldSpecModel> = spec@.fields;
        let ghost is_required = |f: FieldModel| f.required();
        let ghost is_optional = |f: FieldModel| !f.required();
        let ghost mut fields: Seq<FieldModel> = Seq::empty();
        let mut required: Vec<Field> = Vec::new();
        let mut optional: Vec<Field> = Vec::new();
        let mut names: Vec<String> = Vec::new();
        let mut setters: Vec<String> = Vec::new();
        let mut i: usize = 0;
        while i < spec.fields.len()
            invariant
                i <= spec.fields.len(),
                spec.shape == Shape::NamedRecord,
                raws == spec@.fields,
                is_required == |f: FieldModel| f.required(),
                is_optional == |f: FieldModel| !f.required(),
                collect_fields(raws.take(i as int)) == Ok::<Seq<FieldModel>, SynthesisErrorModel>(
                    fields,
                ),
                fields.len() == i,
                required.deep_view() == fields.filter(is_required),
                optional.deep_view() == fields.filter(is_optional),
                names.deep_view() == names_of(fields),
                setters.deep_view() == setters_of(fields),
            decreases spec.fields.len() - i,
        {
            let raw: &FieldSpec = &spec.fields[i];
            proof {
                assert(raws.take(i + 1).drop_last() == raws.take(i as int));
                assert(raws.take(i + 1).last() == raw@);
            }
            let field: Field = match Field::from_spec(raw) {
                Ok(field) => field,
                Err(fault) => {
                    proof {
                        lemma_error_stays(raws, i + 1);
                    }
                    return Err(SynthesisError::FieldConfig { field: raw.ident.clone(), fault });
                },
            };
            let setter: String = field.setter_name();
            if contains_text(&names, &field.ident) {
                proof {
                    lemma_error_stays(raws, i + 1);
                }
                return Err(
                    SynthesisError::FieldConfig {
                        field: field.ident.clone(),
                        fault: ConfigFault::DuplicateField,
                    },
                );
            }
            if contains_text(&setters, &setter) {
                proof {
                    lemma_error_stays(raws, i + 1);
                }
                return Err(
                    SynthesisError::FieldConfig {
                        field: field.ident.clone(),
                        fault: ConfigFault::AmbiguousSetter,
                    },
                );
            }
            let ghost model: FieldModel = field@;
            let ghost before: Seq<FieldModel> = fields;
            let ghost required_before: Seq<FieldModel> = required.deep_view();
            let ghost optional_before: Seq<FieldModel> = optional.deep_view();
            proof {
                fields = before.push(model);
                before.lemma_filter_push(model, is_required);
                before.lemma_filter_push(model, is_optional);
                assert(names_of(fields) =~= names_of(before).push(model.name));
                assert(setters_of(fields) =~= setters_of(before).push(model.setter_name()));
            }
            names.push(field.ident.clone());
            setters.push(setter);
            assert(names.deep_view() =~= names_of(fields));
            assert(setters.deep_view() =~= setters_of(fields));
            if field.is_required() {
                required.push(field);
                assert(required.deep_view() =~= required_before.push(model));
            } else {
                optional.push(field);
                assert(optional.deep_view() =~= optional_before.push(model));
            }
            i += 1;
        }
        let input = StructureInput {
            vis: spec.vis.clone(),
            ident: spec.ident.clone(),
            generics: spec.generics.clone(),
            required_fields: required,
            optional_fields: optional,
        };
        proof {
            assert(raws.take(i as int) == raws);
            parsed_record_is_valid(spec@);
        }
        Ok(input)
    }
}

/// Every field of the list is well formed.
pub open spec fn all_wf(list: Seq<FieldModel>) -> bool {
    forall|k: int| 0 <= k < list.len() ==> #[trigger] list[k].wf()
}

/// No two fields of the list share a name or a setter name.
pub open spec fn unique(list: Seq<FieldModel>) -> bool {
    names_of(list).no_duplicates() && setters_of(list).no_duplicates()
}

/// No field of the one list shares a name or a setter name with a field of
/// the other.
spec fn apart(a: Seq<FieldModel>, b: Seq<FieldModel>) -> bool {
    forall|i: int, j: int|
        0 <= i < a.len() && 0 <= j < b.len() ==> (#[trigger] a[i]).name != (#[trigger] b[j]).name
            && a[i].setter_name() != b[j].setter_name()
}

/// The name and the setter name of every field of `list` occur among those
/// of `fields`.
spec fn known(list: Seq<FieldModel>, fields: Seq<FieldModel>) -> bool {
    forall|k: int|
        0 <= k < list.len() ==> names_of(fields).contains((#[trigger] list[k]).name) && setters_of(
            fields,
        ).contains(list[k].setter_name())
}

/// Neither the name nor the setter name of `field` occurs among those of
/// `fields`.
spec fn fresh(field: FieldModel, fields: Seq<FieldModel>) -> bool {
    !names_of(fields).contains(field.name) && !setters_of(fields).contains(field.setter_name())
}

proof fn lemma_apart_symmetric(a: Seq<FieldModel>, b: Seq<FieldModel>)
    requires
        apart(a, b),
    ensures
        apart(b, a),
{
    assert forall|i: int, j: int| 0 <= i < b.len() && 0 <= j < a.len() implies (#[trigger] b[i]).name
        != (#[trigger] a[j]).name && b[i].setter_name() != a[j].setter_name() by {
        assert(a[j].name != b[i].name);
    }
}

/// A field that is new among `fields` can join `a`, one of two lists drawn
/// from `fields`: the lists stay free of repeated names and apart from each
/// other, and stay drawn from the longer list.
proof fn lemma_admit(
    a: Seq<FieldModel>,
    b: Seq<FieldModel>,
    fields: Seq<FieldModel>,
    field: FieldModel,
)
    requires
        all_wf(a),
        field.wf(),
        unique(a),
        apart(a, b),
        known(a, fields),
        known(b, fields),
        fresh(field, fields),
    ensures
        all_wf(a.push(field)),
        unique(a.push(field)),
        apart(a.push(field), b),
        known(a.push(field), fields.push(field)),
        known(b, fields.push(field)),
{
    let longer = fields.push(field);
    let grown = a.push(field);
    let last = fields.len() as int;
    assert(names_of(longer)[last] == field.name);
    assert(setters_of(longer)[last] == field.setter_name());
    assert forall|x: Seq<char>| names_of(fields).contains(x) implies names_of(longer).contains(
        x,
    ) by {
        let k = choose|k: int| 0 <= k < fields.len() && names_of(fields)[k] == x;
        assert(names_of(longer)[k] == x);
    }
    assert forall|x: Seq<char>| setters_of(fields).contains(x) implies setters_of(
        longer,
    ).contains(x) by {
        let k = choose|k: int| 0 <= k < fields.len() && setters_of(fields)[k] == x;
        assert(setters_of(longer)[k] == x);
    }
    assert forall|k: int| 0 <= k < b.len() implies names_of(longer).contains(
        (#[trigger] b[k]).name,
    ) && setters_of(longer).contains(b[k].setter_name()) by {
        assert(names_of(fields).contains(b[k].name));
        assert(setters_of(fields).contains(b[k].setter_name()));
    }
    assert forall|k: int| 0 <= k < grown.len() implies names_of(longer).contains(
        (#[trigger] grown[k]).name,
    ) && setters_of(longer).contains(grown[k].setter_name()) by {
        if k < a.len() {
            assert(grown[k] == a[k]);
            assert(names_of(fields).contains(a[k].name));
            assert(setters_of(fields).contains(a[k].setter_name()));
        }
    }
    assert forall|i: int, j: int| 0 <= i < grown.len() && 0 <= j < b.len() implies (
    #[trigger] grown[i]).name != (#[trigger] b[j]).name && grown[i].setter_name()
        != b[j].setter_name() by {
        assert(names_of(fields).contains(b[j].name));
        assert(setters_of(fields).contains(b[j].setter_name()));
        if i < a.len() {
            assert(grown[i] == a[i]);
        }
    }
    assert forall|i: int, j: int|
        0 <= i < grown.len() && 0 <= j < grown.len() && i != j implies names_of(grown)[i]
        != names_of(grown)[j] && setters_of(grown)[i] != setters_of(grown)[j] by {
        if i < a.len() {
            assert(names_of(fields).contains(a[i].name));
            assert(setters_of(fields).contains(a[i].setter_name()));
            assert(names_of(a)[i] == a[i].name);
            assert(setters_of(a)[i] == a[i].setter_name());
        }
        if j < a.len() {
            assert(names_of(fields).contains(a[j].name));
            assert(setters_of(fields).contains(a[j].setter_name()));
            assert(names_of(a)[j] == a[j].name);
            assert(setters_of(a)[j] == a[j].setter_name());
        }
    }
    assert forall|k: int| 0 <= k < grown.len() implies #[trigger] grown[k].wf() by {
        if k < a.len() {
            assert(grown[k] == a[k]);
        }
    }
}

/// Two lists that are free of repeated names and apart from each other make
/// one such list, and its fields are well formed where theirs are.
proof fn lemma_joined(a: Seq<FieldModel>, b: Seq<FieldModel>)
    requires
        unique(a),
        unique(b),
        apart(a, b),
        all_wf(a),
        all_wf(b),
    ensures
        unique(a + b),
        all_wf(a + b),
{
    assert(names_of(a + b) =~= names_of(a) + names_of(b));
    assert(setters_of(a + b) =~= setters_of(a) + setters_of(b));
    assert forall|i: int, j: int| 0 <= i < a.len() && 0 <= j < b.len() implies names_of(a)[i]
        != names_of(b)[j] && setters_of(a)[i] != setters_of(b)[j] by {
        assert(a[i].name != b[j].name);
    }
    lemma_no_dup_in_concat(names_of(a), names_of(b));
    lemma_no_dup_in_concat(setters_of(a), setters_of(b));
    assert forall|k: int| 0 <= k < (a + b).len() implies #[trigger] (a + b)[k].wf() by {
        if k < a.len() {
            assert((a + b)[k] == a[k]);
        } else {
            assert((a + b)[k] == b[k - a.len()]);
        }
    }
}

/// The fields that were read from a list of declarations are as many as the
/// declarations, each is the field of its declaration, and they are well
/// formed and free of repeated names.
proof fn lemma_collected(raws: Seq<FieldSpecModel>)
    requires
        collect_fields(raws) is Ok,
    ensures
        collect_fields(raws)->Ok_0.len() == raws.len(),
        forall|k: int|
            0 <= k < raws.len() ==> field_of(#[trigger] raws[k]) == Ok::<FieldModel, ConfigFault>(
                collect_fields(raws)->Ok_0[k],
            ),
        all_wf(collect_fields(raws)->Ok_0),
        unique(collect_fields(raws)->Ok_0),
    decreases raws.len(),
{
    if raws.len() > 0 {
        let earlier = collect_fields(raws.drop_last())->Ok_0;
        let field = field_of(raws.last())->Ok_0;
        lemma_collected(raws.drop_last());
        assert forall|k: int| 0 <= k < earlier.len() implies names_of(earlier).contains(
            (#[trigger] earlier[k]).name,
        ) && setters_of(earlier).contains(earlier[k].setter_name()) by {
            assert(names_of(earlier)[k] == earlier[k].name);
            assert(setters_of(earlier)[k] == earlier[k].setter_name());
        }
        lemma_admit(earlier, Seq::empty(), earlier, field);
        assert forall|k: int| 0 <= k < raws.len() implies field_of(#[trigger] raws[k]) == Ok::<
            FieldModel,
            ConfigFault,
        >(collect_fields(raws)->Ok_0[k]) by {
            if k < raws.len() - 1 {
                assert(raws.drop_last()[k] == raws[k]);
            }
        }
    }
}

/// A list of well-formed fields without repeated names parts into two such
/// lists that are apart from each other.
proof fn lemma_parted(fields: Seq<FieldModel>)
    requires
        all_wf(fields),
        unique(fields),
    ensures
        all_wf(fields.filter(|f: FieldModel| f.required())),
        all_wf(fields.filter(|f: FieldModel| !f.required())),
        unique(fields.filter(|f: FieldModel| f.required())),
        unique(fields.filter(|f: FieldModel| !f.required())),
        apart(fields.filter(|f: FieldModel| f.required()), fields.filter(|f: FieldModel| !f.required())),
        known(fields.filter(|f: FieldModel| f.required()), fields),
        known(fields.filter(|f: FieldModel| !f.required()), fields),
    decreases fields.len(),
{
    let is_required = |f: FieldModel| f.required();
    let is_optional = |f: FieldModel| !f.required();
    reveal(Seq::filter);
    if fields.len() > 0 {
        let earlier = fields.drop_last();
        let field = fields.last();
        assert(fields == earlier.push(field));
        assert forall|k: int| 0 <= k < earlier.len() implies #[trigger] earlier[k].wf() by {
            assert(earlier[k] == fields[k]);
        }
        assert(names_of(earlier) =~= names_of(fields).drop_last());
        assert(setters_of(earlier) =~= setters_of(fields).drop_last());
        assert forall|i: int, j: int|
            0 <= i < earlier.len() && 0 <= j < earlier.len() && i != j implies names_of(
            earlier,
        )[i] != names_of(earlier)[j] && setters_of(earlier)[i] != setters_of(earlier)[j] by {
            assert(names_of(fields)[i] != names_of(fields)[j]);
            assert(setters_of(fields)[i] != setters_of(fields)[j]);
        }
        assert(fresh(field, earlier)) by {
            let last = fields.len() - 1;
            assert(names_of(fields)[last] == field.name);
            assert(setters_of(fields)[last] == field.setter_name());
            assert forall|k: int| 0 <= k < earlier.len() implies names_of(earlier)[k]
                != field.name && setters_of(earlier)[k] != field.setter_name() by {
                assert(names_of(fields)[k] != names_of(fields)[last]);
                assert(setters_of(fields)[k] != setters_of(fields)[last]);
            }
        }
        lemma_parted(earlier);
        let required = earlier.filter(is_required);
        let optional = earlier.filter(is_optional);
        assert(field.wf());
        if field.required() {
            lemma_admit(required, optional, earlier, field);
        } else {
            lemma_apart_symmetric(required, optional);
            lemma_admit(optional, required, earlier, field);
            lemma_apart_symmetric(optional.push(field), required);
        }
    }
}

/// The required and the optional fields of a list are as many as the list.
proof fn lemma_partition_len(fields: Seq<FieldModel>)
    ensures
        fields.filter(|f: FieldModel| f.required()).len() + fields.filter(
            |f: FieldModel| !f.required(),
        ).len() == fields.len(),
    decreases fields.len(),
{
    reveal(Seq::filter);
    if fields.len() > 0 {
        lemma_partition_len(fields.drop_last());
    }
}

/// The fields that a declaration describes, in the order they were declared.
pub open spec fn declared_fields(spec: StructSpecModel) -> Seq<FieldModel> {
    collect_fields(spec.fields)->Ok_0
}

/// Whether `first` occurs in `all` at a place before one where `second`
/// occurs.
pub open spec fn comes_before<A>(all: Seq<A>, first: A, second: A) -> bool {
    exists|i: int, j: int|
        0 <= i < j < all.len() && #[trigger] all[i] == first && #[trigger] all[j] == second
}

/// Every item of `part` occurs in `all`, and any two of them occur there in
/// the order they have in `part`.
pub open spec fn in_order_of<A>(part: Seq<A>, all: Seq<A>) -> bool {
    &&& forall|a: int| 0 <= a < part.len() ==> all.contains(#[trigger] part[a])
    &&& forall|a: int, b: int|
        0 <= a < b < part.len() ==> #[trigger] comes_before(all, part[a], part[b])
}

/// What is picked out of a list stands in the order of the list.
proof fn lemma_filter_in_order<A>(all: Seq<A>, pick: spec_fn(A) -> bool)
    ensures
        in_order_of(all.filter(pick), all),
    decreases all.len(),
{
    reveal(Seq::filter);
    let part = all.filter(pick);
    if all.len() > 0 {
        let earlier = all.drop_last();
        let before = earlier.filter(pick);
        let end = all.len() - 1;
        lemma_filter_in_order(earlier, pick);
        assert forall|a: int| 0 <= a < part.len() implies all.contains(#[trigger] part[a]) by {
            if a < before.len() {
                assert(part[a] == before[a]);
                assert(earlier.contains(before[a]));
                let i = choose|i: int| 0 <= i < earlier.len() && earlier[i] == before[a];
                assert(all[i] == part[a]);
            } else {
                assert(all[end] == part[a]);
            }
        }
        assert forall|a: int, b: int| 0 <= a < b < part.len() implies #[trigger] comes_before(
            all,
            part[a],
            part[b],
        ) by {
            assert(part[a] == before[a]);
            if b < before.len() {
                assert(part[b] == before[b]);
                assert(comes_before(earlier, before[a], before[b]));
                let (i, j) = choose|i: int, j: int|
                    0 <= i < j < earlier.len() && #[trigger] earlier[i] == before[a]
                        && #[trigger] earlier[j] == before[b];
                assert(all[i] == part[a] && all[j] == part[b]);
            } else {
                assert(earlier.contains(before[a]));
                let i = choose|i: int| 0 <= i < earlier.len() && earlier[i] == before[a];
                assert(all[i] == part[a] && all[end] == part[b]);
            }
        }
    }
}

/// Whatever is read from a declaration is a valid record that holds every
/// declared field once. The fields are read in the order of the declaration,
/// the k-th from the k-th declaration. The required fields are those without
/// a default expression and the optional fields the others, each list in the
/// order of the declaration. No two fields share a name or a setter name.
pub proof fn parsed_record_is_valid(spec: StructSpecModel)
    requires
        parse_model(spec) is Ok,
    ensures
        parse_model(spec)->Ok_0.valid(),
        parse_model(spec)->Ok_0.fields().len() == spec.fields.len(),
        declared_fields(spec).len() == spec.fields.len(),
        forall|k: int|
            0 <= k < spec.fields.len() ==> field_of(#[trigger] spec.fields[k]) == Ok::<
                FieldModel,
                ConfigFault,
            >(declared_fields(spec)[k]),
        parse_model(spec)->Ok_0.required_fields == declared_fields(spec).filter(
            |f: FieldModel| f.required(),
        ),
        parse_model(spec)->Ok_0.optional_fields == declared_fields(spec).filter(
            |f: FieldModel| !f.required(),
        ),
        in_order_of(parse_model(spec)->Ok_0.required_fields, declared_fields(spec)),
        in_order_of(parse_model(spec)->Ok_0.optional_fields, declared_fields(spec)),
{
    let record = parse_model(spec)->Ok_0;
    let fields = declared_fields(spec);
    let is_required = |f: FieldModel| f.required();
    let is_optional = |f: FieldModel| !f.required();
    lemma_collected(spec.fields);
    lemma_parted(fields);
    lemma_partition_len(fields);
    lemma_joined(record.required_fields, record.optional_fields);
    assert forall|k: int| 0 <= k < record.required_fields.len() implies (
    #[trigger] record.required_fields[k]).required() by {
        fields.lemma_filter_pred(is_required, k);
    }
    assert forall|k: int| 0 <= k < record.optional_fields.len() implies !(
    #[trigger] record.optional_fields[k]).required() by {
        fields.lemma_filter_pred(is_optional, k);
    }
    lemma_filter_in_order(fields, is_required);
    lemma_filter_in_order(fields, is_optional);
}

} // verus!
