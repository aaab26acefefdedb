//! A builder that holds values and checks at the finalizer that every
//! required field was set: what a generated builder does, for hosts that
//! cannot check it before the program runs.

use vstd::prelude::*;
use vstd::std_specs::convert::IntoSpec;
use crate::state::Marker;
use crate::structure::{names_of, StructModel, StructureInput};
use crate::text::{decimal, decimal_text};

verus! {

/// Why a builder refuses an operation.
#[derive(Debug)]
pub enum BuildError {
    /// The defaults given are not as many as the optional fields.
    DefaultsMismatch { expected: usize, given: usize },
    /// The builder has no such slot.
    UnknownSlot { slot: usize },
    /// The validator of a field refused the value.
    ValidationFailure { field: String, reason: String },
    /// The finalizer was called while required fields were not set.
    MissingRequiredFields { fields: Vec<String> },
}

/// The model of a [`BuildError`].
pub enum BuildErrorModel {
    DefaultsMismatch { expected: usize, given: usize },
    UnknownSlot { slot: usize },
    ValidationFailure { field: Seq<char>, reason: Seq<char> },
    MissingRequiredFields { fields: Seq<Seq<char>> },
}

impl DeepView for BuildError {
    type V = BuildErrorModel;

    open spec fn deep_view(&self) -> BuildErrorModel {
        match self {
            BuildError::DefaultsMismatch { expected, given } => BuildErrorModel::DefaultsMismatch {
                expected: *expected,
                given: *given,
            },
            BuildError::UnknownSlot { slot } => BuildErrorModel::UnknownSlot { slot: *slot },
            BuildError::ValidationFailure { field, reason } => BuildErrorModel::ValidationFailure {
                field: field@,
                reason: reason@,
            },
            BuildError::MissingRequiredFields { fields } => BuildErrorModel::MissingRequiredFields {
                fields: fields.deep_view(),
            },
        }
    }
}

impl View for BuildError {
    type V = BuildErrorModel;

    open spec fn view(&self) -> BuildErrorModel {
        self.deep_view()
    }
}

/// The texts of a list in one line, with a comma and a blank between each
/// two.
pub open spec fn listed(texts: Seq<Seq<char>>) -> Seq<char>
    decreases texts.len(),
{
    if texts.len() == 0 {
        Seq::empty()
    } else if texts.len() == 1 {
        texts[0]
    } else {
        listed(texts.drop_last()) + ", "@ + texts.last()
    }
}

impl BuildErrorModel {
    /// The message of the error.
    pub open spec fn message(self) -> Seq<char> {
        match self {
            BuildErrorModel::DefaultsMismatch { expected, given } => "expected "@ + decimal_text(
                expected as nat,
            ) + " default values, got "@ + decimal_text(given as nat),
            BuildErrorModel::UnknownSlot { slot } => "no field stands in slot "@ + decimal_text(
                slot as nat,
            ),
            BuildErrorModel::ValidationFailure { field, reason } => "validation of field `"@
                + field + "` failed: "@ + reason,
            BuildErrorModel::MissingRequiredFields { fields } => "missing required fields: "@
                + listed(fields),
        }
    }
}

/// Writes the texts of a list in one line, with a comma and a blank between
/// each two.
pub fn list_texts(texts: &Vec<String>) -> (line: String)
    ensures
        line@ == listed(texts.deep_view()),
{
    let ghost all: Seq<Seq<char>> = texts.deep_view();
    let mut line: String = String::new();
    let mut i: usize = 0;
    while i < texts.len()
        invariant
            i <= texts.len(),
            all == texts.deep_view(),
            line@ == listed(all.take(i as int)),
        decreases texts.len() - i,
    {
        proof {
            assert(all.take(i + 1).drop_last() == all.take(i as int));
            assert(all.take(i + 1).last() == texts[i as int]@);
        }
        if i > 0 {
            line.append(", ");
        }
        line.append(texts[i].as_str());
        assert(line@ =~= listed(all.take(i + 1)));
        i += 1;
    }
    assert(all.take(i as int) == all);
    line
}

impl BuildError {
    /// The message of the error.
    pub fn message(&self) -> (text: String)
        ensures
            text@ == self@.message(),
    {
        match self {
            BuildError::DefaultsMismatch { expected, given } => {
                let mut text: String = String::from_str("expected ");
                text.append(decimal(*expected).as_str());
                text.append(" default values, got ");
                text.append(decimal(*given).as_str());
                text
            },
            BuildError::UnknownSlot { slot } => {
                let mut text: String = String::from_str("no field stands in slot ");
                text.append(decimal(*slot).as_str());
                text
            },
            BuildError::ValidationFailure { field, reason } => {
                let mut text: String = String::from_str("validation of field `");
                text.append(field.as_str());
                text.append("` failed: ");
                text.append(reason.as_str());
                text
            },
            BuildError::MissingRequiredFields { fields } => {
                let mut text: String = String::from_str("missing required fields: ");
                text.append(list_texts(fields).as_str());
                text
            },
        }
    }
}

/// The model of a [`Builder`]: the names of the fields, how many of them are
/// required, and what each slot holds. The required fields come first.
pub struct BuilderState<T> {
    pub names: Seq<Seq<char>>,
    pub required: nat,
    pub slots: Seq<Option<T>>,
}

/// The names of the first `k` fields whose slots are empty, in order.
pub open spec fn missing_among<T>(names: Seq<Seq<char>>, slots: Seq<Option<T>>, k: nat) -> Seq<
    Seq<char>,
>
    decreases k,
{
    if k == 0 {
        Seq::empty()
    } else {
        let earlier = missing_among(names, slots, (k - 1) as nat);
        if slots[k - 1] is None {
            earlier.push(names[k - 1])
        } else {
            earlier
        }
    }
}

impl<T> BuilderState<T> {
    /// Every slot has a name, the required slots come first, and every
    /// optional slot is filled.
    pub open spec fn wf(self) -> bool {
        &&& self.names.len() == self.slots.len()
        &&& self.required <= self.slots.len()
        &&& forall|k: int| self.required <= k < self.slots.len() ==> self.slots[k] is Some
    }

    /// The builder that the constructor hands back: the slots of the
    /// required fields are empty, and the slot of each optional field holds
    /// the value of its default expression.
    pub open spec fn initial(record: StructModel, defaults: Seq<T>) -> BuilderState<T> {
        BuilderState {
            names: names_of(record.fields()),
            required: record.required_fields.len(),
            slots: Seq::new(
                record.required_fields.len() + defaults.len(),
                |k: int|
                    if k < record.required_fields.len() {
                        None
                    } else {
                        Some(defaults[k - record.required_fields.len()])
                    },
            ),
        }
    }

    /// The builder after the setter of slot `slot` was called with `value`:
    /// the slot holds the value, whatever it held before, and nothing else
    /// has changed.
    pub open spec fn set(self, slot: int, value: T) -> BuilderState<T> {
        BuilderState { slots: self.slots.update(slot, Some(value)), ..self }
    }

    /// The builder after a run of setter calls, each given by its slot and
    /// its value.
    pub open spec fn apply(self, calls: Seq<(int, T)>) -> BuilderState<T>
        decreases calls.len(),
    {
        if calls.len() == 0 {
            self
        } else {
            self.apply(calls.drop_last()).set(calls.last().0, calls.last().1)
        }
    }

    /// Which slots hold a value: a slot is filled where it does.
    pub open spec fn occupancy(self) -> Seq<Marker> {
        Seq::new(
            self.slots.len(),
            |k: int|
                if self.slots[k] is Some {
                    Marker::Filled
                } else {
                    Marker::Empty
                },
        )
    }

    /// Whether the builder holds a value in every slot that `state` records
    /// as filled: whether the state is true of it.
    pub open spec fn fills(self, state: Seq<Marker>) -> bool {
        &&& state.len() == self.slots.len()
        &&& forall|k: int|
            0 <= k < state.len() && #[trigger] state[k] == Marker::Filled ==> self.slots[k] is Some
    }

    /// Whether every required slot is filled.
    pub open spec fn complete(self) -> bool {
        forall|k: int| 0 <= k < self.required ==> self.slots[k] is Some
    }

    /// The names of the required fields whose slots are empty, in order.
    pub open spec fn missing(self) -> Seq<Seq<char>> {
        missing_among(self.names, self.slots, self.required)
    }

    /// The values of the fields, in the order of the slots.
    pub open spec fn values(self) -> Seq<T> {
        Seq::new(self.slots.len(), |k: int| self.slots[k]->0)
    }
}

/// Turns a list around.
fn reversed<T>(items: Vec<T>) -> (turned: Vec<T>)
    ensures
        turned@.len() == items@.len(),
        forall|k: int| 0 <= k < items@.len() ==> turned@[k] == items@[items@.len() - 1 - k],
{
    let mut items = items;
    let ghost all: Seq<T> = items@;
    let mut turned: Vec<T> = Vec::new();
    while items.len() > 0
        invariant
            items@.len() + turned@.len() == all.len(),
            items@ == all.take(items@.len() as int),
            forall|k: int| 0 <= k < turned@.len() ==> turned@[k] == all[all.len() - 1 - k],
        decreases items.len(),
    {
        let item: Option<T> = items.pop();
        turned.push(item.unwrap());
    }
    turned
}

/// Puts every value of a list into a filled slot.
fn filled_slots<T>(values: Vec<T>) -> (slots: Vec<Option<T>>)
    ensures
        slots@.len() == values@.len(),
        forall|k: int| 0 <= k < values@.len() ==> slots@[k] == Some(values@[k]),
{
    let ghost all: Seq<T> = values@;
    let mut turned: Vec<T> = reversed(values);
    let ghost back: Seq<T> = turned@;
    let mut slots: Vec<Option<T>> = Vec::new();
    while turned.len() > 0
        invariant
            back.len() == all.len(),
            forall|k: int| 0 <= k < all.len() ==> back[k] == all[all.len() - 1 - k],
            turned@.len() + slots@.len() == all.len(),
            turned@ == back.take(turned@.len() as int),
            forall|k: int| 0 <= k < slots@.len() ==> slots@[k] == Some(all[k]),
        decreases turned.len(),
    {
        let item: Option<T> = turned.pop();
        slots.push(Some(item.unwrap()));
    }
    slots
}

/// Takes the value out of every slot of a list of filled slots.
fn emptied_slots<T>(slots: Vec<Option<T>>) -> (values: Vec<T>)
    requires
        forall|k: int| 0 <= k < slots@.len() ==> slots@[k] is Some,
    ensures
        values@.len() == slots@.len(),
        forall|k: int| 0 <= k < slots@.len() ==> values@[k] == slots@[k]->0,
{
    let ghost all: Seq<Option<T>> = slots@;
    let mut turned: Vec<Option<T>> = reversed(slots);
    let ghost back: Seq<Option<T>> = turned@;
    let mut values: Vec<T> = Vec::new();
    while turned.len() > 0
        invariant
            back.len() == all.len(),
            forall|k: int| 0 <= k < all.len() ==> all[k] is Some,
            forall|k: int| 0 <= k < all.len() ==> back[k] == all[all.len() - 1 - k],
            turned@.len() + values@.len() == all.len(),
            turned@ == back.take(turned@.len() as int),
            forall|k: int| 0 <= k < values@.len() ==> values@[k] == all[k]->0,
        decreases turned.len(),
    {
        let item: Option<Option<T>> = turned.pop();
        let slot: Option<T> = item.unwrap();
        assert(slot == all[values@.len() as int]);
        values.push(slot.unwrap());
    }
    values
}

/// A builder that holds values of type `T`.
pub struct Builder<T> {
    names: Vec<String>,
    required: usize,
    slots: Vec<Option<T>>,
}

impl<T> View for Builder<T> {
    type V = BuilderState<T>;

    closed spec fn view(&self) -> BuilderState<T> {
        BuilderState {
            names: self.names.deep_view(),
            required: self.required as nat,
            slots: self.slots@,
        }
    }
}

impl<T> Builder<T> {
    #[verifier::type_invariant]
    spec fn well_formed(self) -> bool {
        self@.wf()
    }

    /// The builder that the constructor of a record's builder hands back.
    /// `defaults` holds the values of the default expressions of the optional
    /// fields, in the order of those fields; a list of another length is
    /// refused.
    pub fn new(input: &StructureInput, defaults: Vec<T>) -> (result: Result<Builder<T>, BuildError>)
        ensures
            match result {
                Ok(builder) => defaults@.len() == input@.optional_fields.len() && builder@
                    == BuilderState::initial(input@, defaults@) && builder@.wf(),
                Err(error) => defaults@.len() != input@.optional_fields.len() && error@ == (
                BuildErrorModel::DefaultsMismatch {
                    expected: input.optional_fields.len(),
                    given: defaults.len(),
                }),
            },
    {
        if defaults.len() != input.optional_fields.len() {
            return Err(
                BuildError::DefaultsMismatch {
                    expected: input.optional_fields.len(),
                    given: defaults.len(),
                },
            );
        }
        let ghost given: Seq<T> = defaults@;
        let names: Vec<String> = input.field_names();
        let required: usize = input.required_fields.len();
        let mut slots: Vec<Option<T>> = Vec::new();
        let mut k: usize = 0;
        while k < required
            invariant
                k <= required,
                slots@.len() == k,
                forall|j: int| 0 <= j < k ==> slots@[j] is None,
            decreases required - k,
        {
            slots.push(None);
            k += 1;
        }
        let mut preset: Vec<Option<T>> = filled_slots(defaults);
        slots.append(&mut preset);
        let builder = Builder { names, required, slots };
        assert(builder@.slots =~= BuilderState::initial(input@, given).slots);
        Ok(builder)
    }

    /// Whether every required slot is filled.
    pub fn is_complete(&self) -> (complete: bool)
        ensures
            complete == self@.complete(),
    {
        proof {
            use_type_invariant(self);
        }
        let mut k: usize = 0;
        while k < self.required
            invariant
                k <= self.required,
                self.required <= self.slots@.len(),
                forall|j: int| 0 <= j < k ==> self.slots@[j] is Some,
            decreases self.required - k,
        {
            if self.slots[k].is_none() {
                return false;
            }
            k += 1;
        }
        true
    }

    /// Which slots hold a value, one marker per slot.
    pub fn occupancy(&self) -> (markers: Vec<Marker>)
        ensures
            markers@ == self@.occupancy(),
    {
        let mut markers: Vec<Marker> = Vec::new();
        let mut k: usize = 0;
        while k < self.slots.len()
            invariant
                k <= self.slots.len(),
                markers@.len() == k,
                forall|j: int| 0 <= j < k ==> markers@[j] == self@.occupancy()[j],
            decreases self.slots.len() - k,
        {
            if self.slots[k].is_some() {
                markers.push(Marker::Filled);
            } else {
                markers.push(Marker::Empty);
            }
            k += 1;
        }
        assert(markers@ =~= self@.occupancy());
        markers
    }

    /// What the slot holds, if the builder has the slot and it is filled.
    pub fn get(&self, slot: usize) -> (value: Option<&T>)
        ensures
            match value {
                Some(v) => slot < self@.slots.len() && self@.slots[slot as int] == Some(*v),
                None => slot >= self@.slots.len() || self@.slots[slot as int] is None,
            },
    {
        if slot < self.slots.len() {
            self.slots[slot].as_ref()
        } else {
            None
        }
    }

    /// The setter of slot `slot`: the slot then holds `value`, whatever it
    /// held before, and no other slot has changed. A slot that the builder
    /// does not have is refused.
    pub fn set(self, slot: usize, value: T) -> (result: Result<Builder<T>, BuildError>)
        ensures
            match result {
                Ok(builder) => slot < self@.slots.len() && builder@ == self@.set(
                    slot as int,
                    value,
                ),
                Err(error) => slot >= self@.slots.len() && error@ == (BuildErrorModel::UnknownSlot {
                    slot,
                }),
            },
    {
        proof {
            use_type_invariant(&self);
        }
        let Builder { names, required, mut slots } = self;
        if slot >= slots.len() {
            return Err(BuildError::UnknownSlot { slot });
        }
        slots.set(slot, Some(value));
        Ok(Builder { names, required, slots })
    }

    /// The setter of slot `slot` for a field that takes whatever converts
    /// into its type: the slot then holds what `value` converts into.
    pub fn set_into<U: Into<T>>(self, slot: usize, value: U) -> (result: Result<
        Builder<T>,
        BuildError,
    >)
        ensures
            match result {
                Ok(builder) => slot < self@.slots.len() && exists|converted: T|
                    call_ensures(U::into, (value,), converted) && builder@ == self@.set(
                        slot as int,
                        converted,
                    ),
                Err(error) => slot >= self@.slots.len() && error@ == (BuildErrorModel::UnknownSlot {
                    slot,
                }),
            },
            result is Ok && <U as IntoSpec<T>>::obeys_into_spec() ==> result->Ok_0@ == self@.set(
                slot as int,
                value.into_spec(),
            ),
    {
        if slot >= self.slots.len() {
            return Err(BuildError::UnknownSlot { slot });
        }
        let converted: T = value.into();
        self.set(slot, converted)
    }

    /// What the setter of slot `slot` does with the answer of its validator:
    /// the slot then holds the value that the validator handed back, or the
    /// setter fails with the validator's reason, and names the field.
    pub fn store_validated(self, slot: usize, outcome: Result<T, String>) -> (result: Result<
        Builder<T>,
        BuildError,
    >)
        ensures
            match result {
                Ok(builder) => slot < self@.slots.len() && outcome is Ok && builder@ == self@.set(
                    slot as int,
                    outcome->Ok_0,
                ),
                Err(error) => if slot >= self@.slots.len() {
                    error@ == (BuildErrorModel::UnknownSlot { slot })
                } else {
                    outcome is Err && error@ == (BuildErrorModel::ValidationFailure {
                        field: self@.names[slot as int],
                        reason: outcome->Err_0@,
                    })
                },
            },
    {
        proof {
            use_type_invariant(&self);
        }
        if slot >= self.slots.len() {
            return Err(BuildError::UnknownSlot { slot });
        }
        match outcome {
            Ok(value) => self.set(slot, value),
            Err(reason) => Err(
                BuildError::ValidationFailure { field: self.names[slot].clone(), reason },
            ),
        }
    }

    /// The setter of slot `slot` for a field with a validator: the validator
    /// is called with `value`, and the slot then holds what it handed back,
    /// unless it refused the value. The validator is not called for a slot
    /// that the builder does not have.
    pub fn set_validated<F: FnOnce(T) -> Result<T, String>>(
        self,
        slot: usize,
        value: T,
        validator: F,
    ) -> (result: Result<Builder<T>, BuildError>)
        requires
            call_requires(validator, (value,)),
        ensures
            match result {
                Ok(builder) => slot < self@.slots.len() && exists|checked: T|
                    call_ensures(validator, (value,), Ok::<T, String>(checked)) && builder@
                        == self@.set(slot as int, checked),
                Err(error) => if slot >= self@.slots.len() {
                    error@ == (BuildErrorModel::UnknownSlot { slot })
                } else {
                    exists|reason: String|
                        call_ensures(validator, (value,), Err::<T, String>(reason)) && error@ == (
                        BuildErrorModel::ValidationFailure {
                            field: self@.names[slot as int],
                            reason: reason@,
                        })
                },
            },
    {
        if slot >= self.slots.len() {
            return Err(BuildError::UnknownSlot { slot });
        }
        let outcome: Result<T, String> = validator(value);
        self.store_validated(slot, outcome)
    }

    /// The finalizer: the values of the fields, in the order of the slots,
    /// where every required slot is filled. Otherwise it fails, and names
    /// the required fields that were not set.
    pub fn build(self) -> (result: Result<Vec<T>, BuildError>)
        ensures
            match result {
                Ok(values) => self@.complete() && values@ == self@.values(),
                Err(error) => !self@.complete() && error@ == (
                BuildErrorModel::MissingRequiredFields { fields: self@.missing() }),
            },
    {
        proof {
            use_type_invariant(&self);
        }
        let ghost state: BuilderState<T> = self@;
        let Builder { names, required, slots } = self;
        let mut missing: Vec<String> = Vec::new();
        let mut k: usize = 0;
        while k < required
            invariant
                k <= required,
                state.wf(),
                state.names == names.deep_view(),
                state.required == required,
                state.slots == slots@,
                missing.deep_view() == missing_among(state.names, state.slots, k as nat),
                missing@.len() == 0 <==> forall|j: int| 0 <= j < k ==> state.slots[j] is Some,
            decreases required - k,
        {
            let ghost before = missing.deep_view();
            if slots[k].is_none() {
                missing.push(names[k].clone());
                assert(missing.deep_view() =~= before.push(state.names[k as int]));
            }
            k += 1;
        }
        if missing.len() > 0 {
            return Err(BuildError::MissingRequiredFields { fields: missing });
        }
        let values: Vec<T> = emptied_slots(slots);
        assert(values@ =~= state.values());
        Ok(values)
    }
}

} // verus!
