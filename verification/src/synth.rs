//! The synthesis of a builder: one setter per field, which can be called in
//! any state and fills its own slot, and a finalizer, which is defined only
//! where every required slot is filled.

use vstd::prelude::*;
use crate::builder::{
    BuilderModel,
    BuilderSpec,
    FinalizerModel,
    FinalizerSpec,
    SetterModel,
    SetterSpec,
    ValidationPolicy,
};
use crate::error::{SynthesisError, SynthesisErrorModel};
use crate::field::Field;
use crate::state::{free_params, open_pattern, pattern_types, write_pattern, Marker, StateArg};
use crate::struct_impl::{constructor_of, StructImpl};
use crate::structure::{
    builder_decl_of,
    names_of,
    parse_model,
    state_params,
    types_of,
    StructModel,
    StructSpec,
    StructSpecModel,
    StructureInput,
};
use crate::text::clone_optional;

verus! {

/// The pattern over `n` slots that names slot `slot` as filled and leaves
/// every other slot open.
pub open spec fn filling(n: nat, slot: int) -> Seq<StateArg> {
    Seq::new(
        n,
        |k: int|
            if k == slot {
                StateArg::Is(Marker::Filled)
            } else {
                StateArg::Any
            },
    )
}

/// The pattern over `n` slots that names the first `required` slots as
/// filled and leaves the others open.
pub open spec fn complete(n: nat, required: nat) -> Seq<StateArg> {
    Seq::new(
        n,
        |k: int|
            if k < required {
                StateArg::Is(Marker::Filled)
            } else {
                StateArg::Any
            },
    )
}

/// The setter of the field in slot `slot`: it is named by the field, takes
/// the field's type, is defined in every state, and hands back the state it
/// was called in but for its own slot, which is filled.
pub open spec fn setter_of(record: StructModel, slot: int) -> SetterModel {
    let field = record.fields()[slot];
    let n = record.fields().len();
    SetterModel {
        slot,
        field: field.name,
        name: field.setter_name(),
        param_type: field.declared_type,
        coercion: field.coercion_mode,
        validator: field.validator,
        input_state: open_pattern(n),
        output_state: filling(n, slot),
        free_params: free_params(open_pattern(n), state_params(n)),
        input_types: pattern_types(open_pattern(n), state_params(n), types_of(record.fields())),
        output_types: pattern_types(filling(n, slot), state_params(n), types_of(record.fields())),
        carried: names_of(record.fields()).remove(slot),
    }
}

/// The setters of a record, one per field, in the order of the slots.
pub open spec fn setters_for(record: StructModel) -> Seq<SetterModel> {
    Seq::new(record.fields().len(), |k: int| setter_of(record, k))
}

/// The finalizer of a record: it is defined where every required slot is
/// filled, whatever the optional slots hold, and moves every field out of its
/// slot.
pub open spec fn finalizer_of(record: StructModel) -> FinalizerModel {
    let n = record.fields().len();
    let pattern = complete(n, record.required_fields.len());
    FinalizerModel {
        input_state: pattern,
        free_params: free_params(pattern, state_params(n)),
        input_types: pattern_types(pattern, state_params(n), types_of(record.fields())),
        fields: names_of(record.fields()),
    }
}

/// The builder of a record.
pub open spec fn builder_of(record: StructModel, on_reject: ValidationPolicy) -> BuilderModel {
    BuilderModel {
        target: record.name,
        decl: builder_decl_of(record),
        constructor: constructor_of(record),
        setters: setters_for(record),
        finalizer: finalizer_of(record),
        on_reject,
    }
}

/// The builder of a declaration, or the error that its record cannot be read
/// for.
pub open spec fn derive_model(spec: StructSpecModel, on_reject: ValidationPolicy) -> Result<
    BuilderModel,
    SynthesisErrorModel,
> {
    match parse_model(spec) {
        Ok(record) => Ok(builder_of(record, on_reject)),
        Err(error) => Err(error),
    }
}

/// The pattern over `n` slots that names the first `fixed` slots as filled,
/// and slot `slot` too, and leaves the others open.
fn pattern(n: usize, fixed: usize, slot: Option<usize>) -> (states: Vec<StateArg>)
    ensures
        states@.len() == n,
        forall|k: int|
            0 <= k < n ==> states@[k] == if k < fixed || slot == Some(k as usize) {
                StateArg::Is(Marker::Filled)
            } else {
                StateArg::Any
            },
{
    let mut states: Vec<StateArg> = Vec::new();
    let mut k: usize = 0;
    while k < n
        invariant
            k <= n,
            states.len() == k,
            forall|j: int|
                0 <= j < k ==> states@[j] == if j < fixed || slot == Some(j as usize) {
                    StateArg::Is(Marker::Filled)
                } else {
                    StateArg::Any
                },
        decreases n - k,
    {
        let named: bool = k < fixed || match slot {
            Some(s) => s == k,
            None => false,
        };
        if named {
            states.push(StateArg::Is(Marker::Filled));
        } else {
            states.push(StateArg::Any);
        }
        k += 1;
    }
    states
}

/// The names of a list but the one at `slot`.
fn without(names: &Vec<String>, slot: usize) -> (others: Vec<String>)
    requires
        slot < names.len(),
    ensures
        others.deep_view() == names.deep_view().remove(slot as int),
{
    let mut others: Vec<String> = Vec::new();
    let mut k: usize = 0;
    while k < names.len()
        invariant
            k <= names.len(),
            slot < names.len(),
            others.len() == if k <= slot {
                k as int
            } else {
                k - 1
            },
            forall|j: int| 0 <= j < k && j < slot ==> others[j]@ == names[j]@,
            forall|j: int| slot < j < k ==> others[j - 1]@ == names[j]@,
        decreases names.len() - k,
    {
        if k != slot {
            others.push(names[k].clone());
        }
        k += 1;
    }
    assert(others.deep_view() =~= names.deep_view().remove(slot as int));
    others
}

/// The setter of `field`, which stands in slot `slot`, where `params`,
/// `types` and `names` are the state parameters, the types and the names of
/// all fields.
fn setter_for(
    field: &Field,
    slot: usize,
    params: &Vec<String>,
    types: &Vec<String>,
    names: &Vec<String>,
) -> (setter: SetterSpec)
    requires
        slot < params.len(),
        params.len() == types.len(),
        params.len() == names.len(),
    ensures
        setter@ == (SetterModel {
            slot: slot as int,
            field: field@.name,
            name: field@.setter_name(),
            param_type: field@.declared_type,
            coercion: field@.coercion_mode,
            validator: field@.validator,
            input_state: open_pattern(params.len() as nat),
            output_state: filling(params.len() as nat, slot as int),
            free_params: free_params(open_pattern(params.len() as nat), params.deep_view()),
            input_types: pattern_types(
                open_pattern(params.len() as nat),
                params.deep_view(),
                types.deep_view(),
            ),
            output_types: pattern_types(
                filling(params.len() as nat, slot as int),
                params.deep_view(),
                types.deep_view(),
            ),
            carried: names.deep_view().remove(slot as int),
        }),
{
    let n: usize = params.len();
    let input_state: Vec<StateArg> = pattern(n, 0, None);
    let output_state: Vec<StateArg> = pattern(n, 0, Some(slot));
    assert(input_state@ =~= open_pattern(n as nat));
    assert(output_state@ =~= filling(n as nat, slot as int));
    let (free_params, input_types) = write_pattern(&input_state, params, types);
    let (_, output_types) = write_pattern(&output_state, params, types);
    SetterSpec {
        slot,
        field: field.ident.clone(),
        name: field.setter_name(),
        param_type: field.ty.clone(),
        coercion: field.coercion_mode(),
        validator: clone_optional(&field.attrs.validator),
        input_state,
        output_state,
        free_params,
        input_types,
        output_types,
        carried: without(names, slot),
    }
}

/// Synthesizes builders. How a setter fails when its validator refuses a
/// value is decided here, once for every setter.
#[derive(Clone, Copy, Debug)]
pub struct BuilderSynthesizer {
    pub on_reject: ValidationPolicy,
}

impl BuilderSynthesizer {
    /// A synthesizer whose setters fail as `on_reject` says.
    pub fn new(on_reject: ValidationPolicy) -> (this: BuilderSynthesizer)
        ensures
            this.on_reject == on_reject,
    {
        BuilderSynthesizer { on_reject }
    }

    /// The setters of a record, one per field, in the order of the slots.
    pub fn setters(&self, input: &StructureInput) -> (setters: Vec<SetterSpec>)
        requires
            input@.fields().len() <= usize::MAX,
        ensures
            setters.deep_view() == setters_for(input@),
    {
        let required: usize = input.required_fields.len();
        let optional: usize = input.optional_fields.len();
        let n: usize = required + optional;
        let ghost record: StructModel = input@;
        let params: Vec<String> = input.all_generics();
        let types: Vec<String> = input.field_types();
        let names: Vec<String> = input.field_names();
        assert(params.deep_view().len() == n);
        assert(types.deep_view().len() == n);
        assert(names.deep_view().len() == n);
        let mut setters: Vec<SetterSpec> = Vec::new();
        let mut i: usize = 0;
        while i < required
            invariant
                i <= required,
                required == input.required_fields.len(),
                n == required + optional,
                record == input@,
                n == record.fields().len(),
                params.len() == n,
                types.len() == n,
                names.len() == n,
                params.deep_view() == state_params(n as nat),
                types.deep_view() == types_of(record.fields()),
                names.deep_view() == names_of(record.fields()),
                setters.len() == i,
                forall|k: int| 0 <= k < i ==> setters[k]@ == setter_of(record, k),
            decreases required - i,
        {
            let setter: SetterSpec = setter_for(
                &input.required_fields[i],
                i,
                &params,
                &types,
                &names,
            );
            assert(record.fields()[i as int] == input.required_fields[i as int]@);
            setters.push(setter);
            i += 1;
        }
        let mut j: usize = 0;
        while j < optional
            invariant
                j <= optional,
                required == input.required_fields.len(),
                optional == input.optional_fields.len(),
                n == required + optional,
                record == input@,
                n == record.fields().len(),
                params.len() == n,
                types.len() == n,
                names.len() == n,
                params.deep_view() == state_params(n as nat),
                types.deep_view() == types_of(record.fields()),
                names.deep_view() == names_of(record.fields()),
                setters.len() == required + j,
                forall|k: int| 0 <= k < required + j ==> setters[k]@ == setter_of(record, k),
            decreases optional - j,
        {
            let setter: SetterSpec = setter_for(
                &input.optional_fields[j],
                required + j,
                &params,
                &types,
                &names,
            );
            assert(record.fields()[required + j] == input.optional_fields[j as int]@);
            setters.push(setter);
            j += 1;
        }
        assert(setters.deep_view() =~= setters_for(record));
        setters
    }

    /// The finalizer of a record.
    pub fn finalizer(&self, input: &StructureInput) -> (finalizer: FinalizerSpec)
        requires
            input@.fields().len() <= usize::MAX,
        ensures
            finalizer@ == finalizer_of(input@),
    {
        let required: usize = input.required_fields.len();
        let optional: usize = input.optional_fields.len();
        let input_state: Vec<StateArg> = pattern(required + optional, required, None);
        assert(input_state@ =~= complete(input@.fields().len(), required as nat));
        let params: Vec<String> = input.all_generics();
        let types: Vec<String> = input.field_types();
        assert(params.deep_view().len() == required + optional);
        assert(types.deep_view().len() == required + optional);
        let (free_params, input_types) = write_pattern(&input_state, &params, &types);
        let fields: Vec<String> = input.field_names();
        FinalizerSpec { input_state, free_params, input_types, fields }
    }

    /// The builder of a record: its type, its constructor, its setters and
    /// its finalizer.
    pub fn synthesize(&self, input: &StructureInput) -> (builder: BuilderSpec)
        requires
            input@.wf(),
        ensures
            builder@ == builder_of(input@, self.on_reject),
    {
        proof {
            assert forall|i: int| 0 <= i < input@.optional_fields.len() implies (
            #[trigger] input@.optional_fields[i]).default_expr is Some by {
                assert(!input@.optional_fields[i].required());
            }
        }
        BuilderSpec {
            target: input.ident.clone(),
            decl: input.builder_decl(),
            constructor: StructImpl::new(input).constructor(),
            setters: self.setters(input),
            finalizer: self.finalizer(input),
            on_reject: self.on_reject,
        }
    }
}

/// Derives the builder of a declaration: the declaration is read, and the
/// builder of its record is synthesized. Nothing is synthesized where the
/// declaration is refused.
pub fn derive_builder(spec: &StructSpec, on_reject: ValidationPolicy) -> (result: Result<
    BuilderSpec,
    SynthesisError,
>)
    ensures
        match result {
            Ok(builder) => derive_model(spec@, on_reject) == Ok::<
                BuilderModel,
                SynthesisErrorModel,
            >(builder@),
            Err(error) => derive_model(spec@, on_reject) == Err::<
                BuilderModel,
                SynthesisErrorModel,
            >(error@),
        },
{
    match StructureInput::parse(spec) {
        Ok(input) => Ok(BuilderSynthesizer::new(on_reject).synthesize(&input)),
        Err(error) => Err(error),
    }
}

} // verus!
