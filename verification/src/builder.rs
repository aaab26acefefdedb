//! The description of a generated builder: what a renderer needs to write it
//! down in the surrounding language.

use vstd::prelude::*;
use crate::field::CoercionMode;
use crate::state::{accepts, apply_pattern, check_accepts, resulting, Marker, StateArg};
use crate::structure::{Generics, GenericsModel};

verus! {

/// What a setter does when its validator refuses a value.
#[derive(Clone, Copy, PartialEq, Eq, Debug, Structural)]
pub enum ValidationPolicy {
    /// The setter hands back a result, which holds the failure.
    ReturnResult,
    /// The setter does not return.
    Raise,
}

/// One storage slot of the builder: it holds a value of the field's type, or
/// nothing.
#[derive(Debug)]
pub struct SlotSpec {
    pub vis: String,
    pub name: String,
    pub ty: String,
}

/// The model of a [`SlotSpec`].
pub struct SlotModel {
    pub visibility: Seq<char>,
    pub name: Seq<char>,
    pub ty: Seq<char>,
}

impl DeepView for SlotSpec {
    type V = SlotModel;

    open spec fn deep_view(&self) -> SlotModel {
        SlotModel { visibility: self.vis@, name: self.name@, ty: self.ty@ }
    }
}

impl View for SlotSpec {
    type V = SlotModel;

    open spec fn view(&self) -> SlotModel {
        self.deep_view()
    }
}

/// The builder type: its name, the record's generic parameters, one state
/// parameter per field and one slot per field.
#[derive(Debug)]
pub struct BuilderDecl {
    pub vis: String,
    pub name: String,
    pub generics: Generics,
    pub state_params: Vec<String>,
    pub slots: Vec<SlotSpec>,
}

/// The model of a [`BuilderDecl`].
pub struct BuilderDeclModel {
    pub visibility: Seq<char>,
    pub name: Seq<char>,
    pub generics: GenericsModel,
    pub state_params: Seq<Seq<char>>,
    pub slots: Seq<SlotModel>,
}

impl DeepView for BuilderDecl {
    type V = BuilderDeclModel;

    open spec fn deep_view(&self) -> BuilderDeclModel {
        BuilderDeclModel {
            visibility: self.vis@,
            name: self.name@,
            generics: self.generics@,
            state_params: self.state_params.deep_view(),
            slots: self.slots.deep_view(),
        }
    }
}

impl View for BuilderDecl {
    type V = BuilderDeclModel;

    open spec fn view(&self) -> BuilderDeclModel {
        self.deep_view()
    }
}

/// What the constructor puts into one slot: nothing, or the value of an
/// expression.
#[derive(Debug)]
pub struct InitArg {
    pub name: String,
    pub value: Option<String>,
}

/// The model of an [`InitArg`].
pub struct InitArgModel {
    pub name: Seq<char>,
    pub value: Option<Seq<char>>,
}

impl DeepView for InitArg {
    type V = InitArgModel;

    open spec fn deep_view(&self) -> InitArgModel {
        InitArgModel { name: self.name@, value: self.value.deep_view() }
    }
}

impl View for InitArg {
    type V = InitArgModel;

    open spec fn view(&self) -> InitArgModel {
        self.deep_view()
    }
}

/// The constructor: the state that the type of the builder it hands back
/// records, what it puts into each slot, and its documentation.
#[derive(Debug)]
pub struct ConstructorSpec {
    pub docs: Vec<String>,
    pub state: Vec<Marker>,
    /// The type arguments that stand for `state`.
    pub state_types: Vec<String>,
    /// What each slot holds from the start.
    pub init_args: Vec<InitArg>,
}

/// The model of a [`ConstructorSpec`].
pub struct ConstructorModel {
    pub docs: Seq<Seq<char>>,
    pub state: Seq<Marker>,
    pub state_types: Seq<Seq<char>>,
    pub init_args: Seq<InitArgModel>,
}

impl DeepView for ConstructorSpec {
    type V = ConstructorModel;

    open spec fn deep_view(&self) -> ConstructorModel {
        ConstructorModel {
            docs: self.docs.deep_view(),
            state: self.state@,
            state_types: self.state_types.deep_view(),
            init_args: self.init_args.deep_view(),
        }
    }
}

impl View for ConstructorSpec {
    type V = ConstructorModel;

    open spec fn view(&self) -> ConstructorModel {
        self.deep_view()
    }
}

/// The setter of one field: the slot it fills, its name, what it takes, and
/// the states it is defined on and hands back.
#[derive(Debug)]
pub struct SetterSpec {
    pub slot: usize,
    /// The name of the field.
    pub field: String,
    /// The name of the setter.
    pub name: String,
    pub param_type: String,
    pub coercion: CoercionMode,
    pub validator: Option<String>,
    pub input_state: Vec<StateArg>,
    pub output_state: Vec<StateArg>,
    /// The state parameters that the setter is generic in.
    pub free_params: Vec<String>,
    /// The type arguments that stand for `input_state`.
    pub input_types: Vec<String>,
    /// The type arguments that stand for `output_state`.
    pub output_types: Vec<String>,
    /// The fields whose slots the setter hands on as they are.
    pub carried: Vec<String>,
}

/// The model of a [`SetterSpec`].
pub struct SetterModel {
    pub slot: int,
    pub field: Seq<char>,
    pub name: Seq<char>,
    pub param_type: Seq<char>,
    pub coercion: CoercionMode,
    pub validator: Option<Seq<char>>,
    pub input_state: Seq<StateArg>,
    pub output_state: Seq<StateArg>,
    pub free_params: Seq<Seq<char>>,
    pub input_types: Seq<Seq<char>>,
    pub output_types: Seq<Seq<char>>,
    pub carried: Seq<Seq<char>>,
}

impl DeepView for SetterSpec {
    type V = SetterModel;

    open spec fn deep_view(&self) -> SetterModel {
        SetterModel {
            slot: self.slot as int,
            field: self.field@,
            name: self.name@,
            param_type: self.param_type@,
            coercion: self.coercion,
            validator: self.validator.deep_view(),
            input_state: self.input_state@,
            output_state: self.output_state@,
            free_params: self.free_params.deep_view(),
            input_types: self.input_types.deep_view(),
            output_types: self.output_types.deep_view(),
            carried: self.carried.deep_view(),
        }
    }
}

impl View for SetterSpec {
    type V = SetterModel;

    open spec fn view(&self) -> SetterModel {
        self.deep_view()
    }
}

impl SetterModel {
    /// Whether the setter can be called on a builder in `state`: what it
    /// asks for and what it promises speak of the same slots, and the state
    /// is one it asks for.
    pub open spec fn defined_on(self, state: Seq<Marker>) -> bool {
        self.output_state.len() == self.input_state.len() && accepts(self.input_state, state)
    }

    /// The state of the builder that the setter hands back.
    pub open spec fn next(self, state: Seq<Marker>) -> Seq<Marker> {
        resulting(self.output_state, state)
    }
}

/// The finalizer: the states it is defined on, and the fields it moves out
/// of the slots, in the order of the slots.
#[derive(Debug)]
pub struct FinalizerSpec {
    pub input_state: Vec<StateArg>,
    /// The state parameters that the finalizer is generic in.
    pub free_params: Vec<String>,
    /// The type arguments that stand for `input_state`.
    pub input_types: Vec<String>,
    pub fields: Vec<String>,
}

/// The model of a [`FinalizerSpec`].
pub struct FinalizerModel {
    pub input_state: Seq<StateArg>,
    pub free_params: Seq<Seq<char>>,
    pub input_types: Seq<Seq<char>>,
    pub fields: Seq<Seq<char>>,
}

impl DeepView for FinalizerSpec {
    type V = FinalizerModel;

    open spec fn deep_view(&self) -> FinalizerModel {
        FinalizerModel {
            input_state: self.input_state@,
            free_params: self.free_params.deep_view(),
            input_types: self.input_types.deep_view(),
            fields: self.fields.deep_view(),
        }
    }
}

impl View for FinalizerSpec {
    type V = FinalizerModel;

    open spec fn view(&self) -> FinalizerModel {
        self.deep_view()
    }
}

impl FinalizerModel {
    /// Whether the finalizer can be called on a builder in `state`.
    pub open spec fn defined_on(self, state: Seq<Marker>) -> bool {
        accepts(self.input_state, state)
    }
}

impl SetterSpec {
    /// Calls the setter on a builder in `state`: the state of the builder it
    /// hands back, or nothing where the setter is not defined on `state`.
    pub fn call(&self, state: &Vec<Marker>) -> (next: Option<Vec<Marker>>)
        ensures
            match next {
                Some(next) => self@.defined_on(state@) && next@ == self@.next(state@),
                None => !self@.defined_on(state@),
            },
    {
        if self.output_state.len() == self.input_state.len() && check_accepts(
            &self.input_state,
            state,
        ) {
            Some(apply_pattern(&self.output_state, state))
        } else {
            None
        }
    }
}

impl FinalizerSpec {
    /// Decides whether the finalizer can be called on a builder in `state`.
    pub fn is_defined_on(&self, state: &Vec<Marker>) -> (defined: bool)
        ensures
            defined == self@.defined_on(state@),
    {
        check_accepts(&self.input_state, state)
    }
}

/// A whole generated builder.
#[derive(Debug)]
pub struct BuilderSpec {
    /// The name of the record that the builder builds.
    pub target: String,
    pub decl: BuilderDecl,
    pub constructor: ConstructorSpec,
    pub setters: Vec<SetterSpec>,
    pub finalizer: FinalizerSpec,
    /// What every setter with a validator does when the value is refused.
    pub on_reject: ValidationPolicy,
}

/// The model of a [`BuilderSpec`].
pub struct BuilderModel {
    pub target: Seq<char>,
    pub decl: BuilderDeclModel,
    pub constructor: ConstructorModel,
    pub setters: Seq<SetterModel>,
    pub finalizer: FinalizerModel,
    pub on_reject: ValidationPolicy,
}

impl DeepView for BuilderSpec {
    type V = BuilderModel;

    open spec fn deep_view(&self) -> BuilderModel {
        BuilderModel {
            target: self.target@,
            decl: self.decl@,
            constructor: self.constructor@,
            setters: self.setters.deep_view(),
            finalizer: self.finalizer@,
            on_reject: self.on_reject,
        }
    }
}

impl View for BuilderSpec {
    type V = BuilderModel;

    open spec fn view(&self) -> BuilderModel {
        self.deep_view()
    }
}

} // verus!
