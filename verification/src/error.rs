//! What stops the synthesis of a builder.

use vstd::prelude::*;

verus! {

/// What is wrong with the options of one field.
#[derive(Clone, Copy, PartialEq, Eq, Debug, Structural)]
pub enum ConfigFault {
    /// The field has no explicit type.
    MissingType,
    /// The coercion flag is neither `true` nor `false`.
    InvalidFlag,
    /// A replaced generic parameter is no identifier.
    InvalidGeneric,
    /// An earlier field has the same name.
    DuplicateField,
    /// An earlier field has the same setter name.
    AmbiguousSetter,
}

/// An error found before anything is generated.
#[derive(Debug)]
pub enum SynthesisError {
    /// The declaration is not a record of named fields.
    StructShape { name: String },
    /// The options of a field are inconsistent or ambiguous.
    FieldConfig { field: String, fault: ConfigFault },
}

/// The model of a [`SynthesisError`].
pub enum SynthesisErrorModel {
    StructShape { name: Seq<char> },
    FieldConfig { field: Seq<char>, fault: ConfigFault },
}

impl DeepView for SynthesisError {
    type V = SynthesisErrorModel;

    open spec fn deep_view(&self) -> SynthesisErrorModel {
        match self {
            SynthesisError::StructShape { name } => SynthesisErrorModel::StructShape { name: name@ },
            SynthesisError::FieldConfig { field, fault } => SynthesisErrorModel::FieldConfig {
                field: field@,
                fault: *fault,
            },
        }
    }
}

impl View for SynthesisError {
    type V = SynthesisErrorModel;

    open spec fn view(&self) -> SynthesisErrorModel {
        self.deep_view()
    }
}

/// What a fault is called in a message.
pub open spec fn fault_text(fault: ConfigFault) -> Seq<char> {
    match fault {
        ConfigFault::MissingType => "has no explicit type"@,
        ConfigFault::InvalidFlag => "has a coercion flag that is neither true nor false"@,
        ConfigFault::InvalidGeneric => "replaces a generic parameter that is no identifier"@,
        ConfigFault::DuplicateField => "has the name of an earlier field"@,
        ConfigFault::AmbiguousSetter => "has the setter name of an earlier field"@,
    }
}

impl SynthesisErrorModel {
    /// The message of the error, which names the declaration or the field.
    pub open spec fn message(self) -> Seq<char> {
        match self {
            SynthesisErrorModel::StructShape { name } => "`"@ + name
                + "` is not a record of named fields"@,
            SynthesisErrorModel::FieldConfig { field, fault } => "field `"@ + field + "` "@
                + fault_text(fault),
        }
    }
}

fn fault_message(fault: ConfigFault) -> (text: &'static str)
    ensures
        text@ == fault_text(fault),
{
    match fault {
        ConfigFault::MissingType => "has no explicit type",
        ConfigFault::InvalidFlag => "has a coercion flag that is neither true nor false",
        ConfigFault::InvalidGeneric => "replaces a generic parameter that is no identifier",
        ConfigFault::DuplicateField => "has the name of an earlier field",
        ConfigFault::AmbiguousSetter => "has the setter name of an earlier field",
    }
}

impl SynthesisError {
    /// The message of the error, which names the declaration or the field.
    pub fn message(&self) -> (text: String)
        ensures
            text@ == self@.message(),
    {
        match self {
            SynthesisError::StructShape { name } => {
                let mut text: String = String::from_str("`");
                text.append(name.as_str());
                text.append("` is not a record of named fields");
                text
            },
            SynthesisError::FieldConfig { field, fault } => {
                let mut text: String = String::from_str("field `");
                text.append(field.as_str());
                text.append("` ");
                text.append(fault_message(*fault));
                text
            },
        }
    }
}

} // verus!
