//! What holds of every builder that this crate synthesizes, and of every run
//! of it.

use vstd::prelude::*;
use crate::field::FieldModel;
use crate::runtime::BuilderState;
use crate::state::Marker;
use crate::state::state_types;
use crate::struct_impl::{
    constructor_of,
    documentation,
    initial_state,
    optional_block,
    optional_heading,
    required_block,
    required_heading,
};
use crate::structure::{names_of, types_of, StructModel};
use crate::synth::{finalizer_of, setter_of};

verus! {

/// A setter can be called on a builder in any state, and hands back a
/// builder in the same state but for its own slot, which is filled whatever
/// it was before.
pub proof fn setter_fills_own_slot(record: StructModel, slot: int, state: Seq<Marker>)
    requires
        0 <= slot < record.fields().len(),
        state.len() == record.fields().len(),
    ensures
        setter_of(record, slot).defined_on(state),
        setter_of(record, slot).next(state) == state.update(slot, Marker::Filled),
{
    assert(setter_of(record, slot).next(state) =~= state.update(slot, Marker::Filled));
}

/// The finalizer can be called exactly on the builders whose required slots
/// are all filled: the optional slots do not count.
pub proof fn finalizer_needs_required(record: StructModel, state: Seq<Marker>)
    requires
        state.len() == record.fields().len(),
    ensures
        finalizer_of(record).defined_on(state) <==> forall|k: int|
            0 <= k < record.required_fields.len() ==> state[k] == Marker::Filled,
{
    let pattern = finalizer_of(record).input_state;
    if finalizer_of(record).defined_on(state) {
        assert forall|k: int| 0 <= k < record.required_fields.len() implies state[k]
            == Marker::Filled by {
            assert(pattern[k] == crate::state::StateArg::Is(Marker::Filled));
        }
    }
}

/// The state of a new builder after the setters of the slots `calls` were
/// called on it, in that order.
pub open spec fn state_after(record: StructModel, calls: Seq<int>) -> Seq<Marker>
    decreases calls.len(),
{
    if calls.len() == 0 {
        initial_state(record)
    } else {
        setter_of(record, calls.last()).next(state_after(record, calls.drop_last()))
    }
}

proof fn lemma_state_after(record: StructModel, calls: Seq<int>)
    requires
        forall|j: int| 0 <= j < calls.len() ==> 0 <= #[trigger] calls[j] < record.fields().len(),
    ensures
        state_after(record, calls).len() == record.fields().len(),
        forall|k: int|
            0 <= k < record.fields().len() ==> (#[trigger] state_after(record, calls)[k]
                == Marker::Filled <==> calls.contains(k)),
    decreases calls.len(),
{
    if calls.len() > 0 {
        let earlier = calls.drop_last();
        lemma_state_after(record, earlier);
        setter_fills_own_slot(record, calls.last(), state_after(record, earlier));
        assert forall|k: int| 0 <= k < record.fields().len() implies (#[trigger] state_after(
            record,
            calls,
        )[k] == Marker::Filled <==> calls.contains(k)) by {
            if k == calls.last() {
                assert(calls[calls.len() - 1] == k);
            } else if earlier.contains(k) {
                let j = choose|j: int| 0 <= j < earlier.len() && earlier[j] == k;
                assert(calls[j] == k);
            } else if calls.contains(k) {
                let j = choose|j: int| 0 <= j < calls.len() && calls[j] == k;
                assert(earlier[j] == k);
            }
        }
    }
}

/// After any run of setter calls on a new builder the finalizer can be
/// called if and only if the setter of every required field was among them.
/// Neither the order of the calls counts nor how often a setter was called,
/// and no setter of an optional field is needed.
pub proof fn completeness_gating(record: StructModel, calls: Seq<int>)
    requires
        forall|j: int| 0 <= j < calls.len() ==> 0 <= #[trigger] calls[j] < record.fields().len(),
    ensures
        finalizer_of(record).defined_on(state_after(record, calls)) <==> forall|r: int|
            0 <= r < record.required_fields.len() ==> calls.contains(r),
{
    lemma_state_after(record, calls);
    finalizer_needs_required(record, state_after(record, calls));
    let state = state_after(record, calls);
    if forall|r: int| 0 <= r < record.required_fields.len() ==> calls.contains(r) {
        assert forall|k: int| 0 <= k < record.required_fields.len() implies state[k]
            == Marker::Filled by {
            assert(calls.contains(k));
        }
    }
    if finalizer_of(record).defined_on(state) {
        assert forall|r: int| 0 <= r < record.required_fields.len() implies calls.contains(r) by {
            assert(state[r] == Marker::Filled);
        }
    }
}

/// No two calls of the run fill the same slot.
pub open spec fn distinct_slots<T>(calls: Seq<(int, T)>) -> bool {
    forall|i: int, j: int|
        0 <= i < calls.len() && 0 <= j < calls.len() && i != j ==> (#[trigger] calls[i]).0 != (
        #[trigger] calls[j]).0
}

/// Every call of the run fills one of the first `n` slots.
pub open spec fn within<T>(calls: Seq<(int, T)>, n: nat) -> bool {
    forall|i: int| 0 <= i < calls.len() ==> 0 <= (#[trigger] calls[i]).0 < n
}

/// `order` lists every number below `n` once.
pub open spec fn is_permutation(order: Seq<int>, n: nat) -> bool {
    &&& order.len() == n
    &&& forall|i: int| 0 <= i < n ==> 0 <= #[trigger] order[i] < n
    &&& order.no_duplicates()
    &&& forall|j: int| 0 <= j < n ==> order.contains(j)
}

/// The calls of a run in another order: call `order[i]` comes at place `i`.
pub open spec fn reordered<T>(calls: Seq<(int, T)>, order: Seq<int>) -> Seq<(int, T)> {
    Seq::new(order.len(), |i: int| calls[order[i]])
}

proof fn lemma_apply<T>(start: BuilderState<T>, calls: Seq<(int, T)>)
    requires
        within(calls, start.slots.len()),
        distinct_slots(calls),
    ensures
        start.apply(calls).names == start.names,
        start.apply(calls).required == start.required,
        start.apply(calls).slots.len() == start.slots.len(),
        forall|j: int|
            0 <= j < calls.len() ==> start.apply(calls).slots[(#[trigger] calls[j]).0] == Some(
                calls[j].1,
            ),
        forall|k: int|
            0 <= k < start.slots.len() && (forall|j: int|
                0 <= j < calls.len() ==> (#[trigger] calls[j]).0 != k) ==> #[trigger] start.apply(
                calls,
            ).slots[k] == start.slots[k],
    decreases calls.len(),
{
    if calls.len() > 0 {
        let earlier = calls.drop_last();
        let last = calls.last();
        assert forall|i: int, j: int|
            0 <= i < earlier.len() && 0 <= j < earlier.len() && i != j implies (
        #[trigger] earlier[i]).0 != (#[trigger] earlier[j]).0 by {
            assert(calls[i].0 != calls[j].0);
        }
        assert forall|i: int| 0 <= i < earlier.len() implies 0 <= (#[trigger] earlier[i]).0
            < start.slots.len() by {
            assert(earlier[i] == calls[i]);
        }
        lemma_apply(start, earlier);
        let before = start.apply(earlier);
        let after = start.apply(calls);
        assert(after.slots == before.slots.update(last.0, Some(last.1)));
        assert(calls[calls.len() - 1] == last);
        assert forall|j: int| 0 <= j < calls.len() implies after.slots[(#[trigger] calls[j]).0]
            == Some(calls[j].1) by {
            if j < calls.len() - 1 {
                assert(earlier[j] == calls[j]);
                assert(calls[j].0 != calls[calls.len() - 1].0);
            }
        }
        assert forall|k: int|
            0 <= k < start.slots.len() && (forall|j: int|
                0 <= j < calls.len() ==> (#[trigger] calls[j]).0 != k) implies #[trigger] after.slots[k]
            == start.slots[k] by {
            assert(calls[calls.len() - 1].0 != k);
            assert forall|j: int| 0 <= j < earlier.len() implies (#[trigger] earlier[j]).0
                != k by {
                assert(earlier[j] == calls[j]);
            }
        }
    }
}

/// The order of the setter calls does not count: where no two of them fill
/// the same slot, the same calls in any other order leave the builder with
/// the same values, and so the finalizer hands back the same record.
pub proof fn order_independence<T>(start: BuilderState<T>, calls: Seq<(int, T)>, order: Seq<int>)
    requires
        within(calls, start.slots.len()),
        distinct_slots(calls),
        is_permutation(order, calls.len()),
    ensures
        start.apply(reordered(calls, order)) == start.apply(calls),
        start.apply(reordered(calls, order)).complete() == start.apply(calls).complete(),
        start.apply(reordered(calls, order)).values() == start.apply(calls).values(),
{
    let other = reordered(calls, order);
    assert forall|i: int, j: int|
        0 <= i < other.len() && 0 <= j < other.len() && i != j implies (#[trigger] other[i]).0 != (
    #[trigger] other[j]).0 by {
        assert(order[i] != order[j]);
        assert(calls[order[i]].0 != calls[order[j]].0);
    }
    assert forall|i: int| 0 <= i < other.len() implies 0 <= (#[trigger] other[i]).0
        < start.slots.len() by {
        assert(other[i] == calls[order[i]]);
    }
    lemma_apply(start, calls);
    lemma_apply(start, other);
    let a = start.apply(calls);
    let b = start.apply(other);
    assert forall|k: int| 0 <= k < start.slots.len() implies a.slots[k] == b.slots[k] by {
        if exists|j: int| 0 <= j < calls.len() && (#[trigger] calls[j]).0 == k {
            let j = choose|j: int| 0 <= j < calls.len() && (#[trigger] calls[j]).0 == k;
            assert(order.contains(j));
            let i = choose|i: int| 0 <= i < order.len() && order[i] == j;
            assert(other[i] == calls[j]);
            assert(a.slots[calls[j].0] == Some(calls[j].1));
            assert(b.slots[other[i].0] == Some(other[i].1));
        } else {
            assert forall|i: int| 0 <= i < other.len() implies (#[trigger] other[i]).0 != k by {
                assert(other[i] == calls[order[i]]);
            }
        }
    }
    assert(a.slots =~= b.slots);
}

/// Setting a field again overwrites it: after the setter was called with one
/// value and then with another, the builder is as if only the second call
/// had been made, and the field holds the second value.
pub proof fn resetting_overwrites<T>(start: BuilderState<T>, slot: int, first: T, second: T)
    requires
        0 <= slot < start.slots.len(),
    ensures
        start.set(slot, first).set(slot, second) == start.set(slot, second),
        start.set(slot, first).set(slot, second).values()[slot] == second,
{
    assert(start.set(slot, first).set(slot, second).slots =~= start.set(slot, second).slots);
}

/// A new builder holds the default of every optional field, so the finalizer
/// hands it back where the field's setter was not called; once the setter
/// was called, the field holds the value it was called with instead. The
/// state that the type of a new builder records, every slot empty, is true of
/// it.
pub proof fn defaults_apply<T>(record: StructModel, defaults: Seq<T>, field: int, value: T)
    requires
        defaults.len() == record.optional_fields.len(),
        0 <= field < record.optional_fields.len(),
    ensures
        BuilderState::initial(record, defaults).wf(),
        BuilderState::initial(record, defaults).fills(initial_state(record)),
        BuilderState::initial(record, defaults).values()[record.required_fields.len() + field]
            == defaults[field],
        BuilderState::initial(record, defaults).set(
            record.required_fields.len() + field,
            value,
        ).values()[record.required_fields.len() + field] == value,
{
    assert(names_of(record.fields()).len() == record.fields().len());
}

/// The type of a new builder has the unit type for every slot: it is the
/// type that stands for the state in which every slot is empty.
pub proof fn new_builder_is_empty_in_type(record: StructModel)
    ensures
        constructor_of(record).state == Seq::new(record.fields().len(), |k: int| Marker::Empty),
        constructor_of(record).state_types == Seq::new(record.fields().len(), |k: int| "()"@),
        constructor_of(record).state_types == state_types(
            initial_state(record),
            types_of(record.fields()),
        ),
{
    assert(constructor_of(record).state_types =~= state_types(
        initial_state(record),
        types_of(record.fields()),
    ));
}

/// The slots that a run of setter calls fills, in the order of the calls.
pub open spec fn slots_of<T>(calls: Seq<(int, T)>) -> Seq<int> {
    calls.map_values(|call: (int, T)| call.0)
}

proof fn lemma_run<T>(record: StructModel, defaults: Seq<T>, calls: Seq<(int, T)>)
    requires
        defaults.len() == record.optional_fields.len(),
        within(calls, record.fields().len()),
    ensures
        BuilderState::initial(record, defaults).apply(calls).wf(),
        BuilderState::initial(record, defaults).apply(calls).slots.len() == record.fields().len(),
        BuilderState::initial(record, defaults).apply(calls).required
            == record.required_fields.len(),
        forall|k: int|
            0 <= k < record.fields().len() ==> (#[trigger] BuilderState::initial(
                record,
                defaults,
            ).apply(calls).slots[k] is Some <==> k >= record.required_fields.len() || slots_of(
                calls,
            ).contains(k)),
    decreases calls.len(),
{
    let start = BuilderState::initial(record, defaults);
    assert(names_of(record.fields()).len() == record.fields().len());
    if calls.len() > 0 {
        let earlier = calls.drop_last();
        let last = calls.last();
        assert forall|i: int| 0 <= i < earlier.len() implies 0 <= (#[trigger] earlier[i]).0
            < record.fields().len() by {
            assert(earlier[i] == calls[i]);
        }
        lemma_run(record, defaults, earlier);
        assert(calls[calls.len() - 1] == last);
        assert(slots_of(earlier) =~= slots_of(calls).drop_last());
        let before = start.apply(earlier);
        let after = start.apply(calls);
        assert(after.slots == before.slots.update(last.0, Some(last.1)));
        assert forall|k: int| 0 <= k < record.fields().len() implies (#[trigger] after.slots[k] is Some
            <==> k >= record.required_fields.len() || slots_of(calls).contains(k)) by {
            if k == last.0 {
                assert(slots_of(calls)[calls.len() - 1] == k);
            } else if slots_of(earlier).contains(k) {
                let j = choose|j: int| 0 <= j < earlier.len() && slots_of(earlier)[j] == k;
                assert(slots_of(calls)[j] == k);
            } else if slots_of(calls).contains(k) {
                let j = choose|j: int| 0 <= j < calls.len() && slots_of(calls)[j] == k;
                assert(slots_of(earlier)[j] == k);
            }
        }
    }
}

/// The state that the types record is sound. After any run of setter calls
/// on a new builder, every slot that the type of the builder records as
/// filled holds a value; and the finalizer is defined on that type exactly
/// where every required slot holds a value, so that a finalizer that can be
/// called never finds a required value missing.
pub proof fn type_state_is_sound<T>(record: StructModel, defaults: Seq<T>, calls: Seq<(int, T)>)
    requires
        defaults.len() == record.optional_fields.len(),
        within(calls, record.fields().len()),
    ensures
        BuilderState::initial(record, defaults).apply(calls).fills(
            state_after(record, slots_of(calls)),
        ),
        finalizer_of(record).defined_on(state_after(record, slots_of(calls)))
            <==> BuilderState::initial(record, defaults).apply(calls).complete(),
{
    let builder = BuilderState::initial(record, defaults).apply(calls);
    let slots = slots_of(calls);
    let state = state_after(record, slots);
    assert forall|j: int| 0 <= j < slots.len() implies 0 <= #[trigger] slots[j]
        < record.fields().len() by {
        assert(slots[j] == calls[j].0);
    }
    lemma_run(record, defaults, calls);
    lemma_state_after(record, slots);
    completeness_gating(record, slots);
    assert forall|k: int| 0 <= k < state.len() && #[trigger] state[k]
        == Marker::Filled implies builder.slots[k] is Some by {
        assert(slots.contains(k));
    }
    if builder.complete() {
        assert forall|r: int| 0 <= r < record.required_fields.len() implies slots.contains(r) by {
            assert(builder.slots[r] is Some);
        }
    }
    if finalizer_of(record).defined_on(state) {
        assert forall|k: int| 0 <= k < builder.required implies builder.slots[k] is Some by {
            assert(slots.contains(k));
        }
    }
}

/// What a builder holds changes as the synthesized signatures say: a setter
/// call takes the slots that hold a value to the state that the setter's
/// signature promises of them, and the finalizer of the builder succeeds
/// exactly where the synthesized finalizer is defined on the slots that hold
/// a value.
pub proof fn values_follow_signatures<T>(
    record: StructModel,
    builder: BuilderState<T>,
    slot: int,
    value: T,
)
    requires
        builder.slots.len() == record.fields().len(),
        builder.required == record.required_fields.len(),
        0 <= slot < builder.slots.len(),
    ensures
        setter_of(record, slot).defined_on(builder.occupancy()),
        builder.set(slot, value).occupancy() == setter_of(record, slot).next(builder.occupancy()),
        builder.complete() <==> finalizer_of(record).defined_on(builder.occupancy()),
{
    setter_fills_own_slot(record, slot, builder.occupancy());
    assert(builder.set(slot, value).occupancy() =~= builder.occupancy().update(slot, Marker::Filled));
    finalizer_needs_required(record, builder.occupancy());
    if builder.complete() {
        assert forall|k: int| 0 <= k < record.required_fields.len() implies builder.occupancy()[k]
            == Marker::Filled by {
            assert(builder.slots[k] is Some);
        }
    }
    if finalizer_of(record).defined_on(builder.occupancy()) {
        assert forall|k: int| 0 <= k < builder.required implies builder.slots[k] is Some by {
            assert(builder.occupancy()[k] == Marker::Filled);
        }
    }
}

/// The line of the documentation at which the part on required field `k`
/// begins.
pub open spec fn required_offset(record: StructModel, k: int) -> int {
    2int + record.required_fields.take(k).flat_map(|f: FieldModel| required_block(f)).len()
}

/// The line of the documentation at which the part on optional field `k`
/// begins.
pub open spec fn optional_offset(record: StructModel, k: int) -> int {
    3int + record.required_fields.flat_map(|f: FieldModel| required_block(f)).len()
        + record.optional_fields.take(k).flat_map(|f: FieldModel| optional_block(f)).len()
}

proof fn lemma_flat_map_split<A, B>(list: Seq<A>, part: spec_fn(A) -> Seq<B>, k: int)
    requires
        0 <= k <= list.len(),
    ensures
        list.flat_map(part) == list.take(k).flat_map(part) + list.skip(k).flat_map(part),
{
    assert(list.map_values(part) =~= list.take(k).map_values(part) + list.skip(k).map_values(
        part,
    ));
    vstd::seq_lib::lemma_flatten_concat(
        list.take(k).map_values(part),
        list.skip(k).map_values(part),
    );
}

proof fn lemma_flat_map_head<A, B>(list: Seq<A>, part: spec_fn(A) -> Seq<B>, k: int)
    requires
        0 <= k < list.len(),
        part(list[k]).len() > 0,
    ensures
        list.take(k).flat_map(part).len() + part(list[k]).len() <= list.flat_map(part).len(),
        list.flat_map(part)[list.take(k).flat_map(part).len() as int] == part(list[k])[0],
        list.take(k + 1).flat_map(part).len() == list.take(k).flat_map(part).len() + part(
            list[k],
        ).len(),
{
    lemma_flat_map_split(list, part, k + 1);
    list.lemma_flat_map_take_append(part, k);
}

/// The documentation is a function of the record's fields alone, so
/// generating it again gives the same text; and it follows the order of the
/// fields: the part on each required field begins with the field's heading,
/// these parts stand in the order of the declaration, and they all stand
/// before the parts on the optional fields, which stand in the order of the
/// declaration too.
pub proof fn documentation_is_determined(record: StructModel, again: StructModel)
    requires
        again.required_fields == record.required_fields,
        again.optional_fields == record.optional_fields,
    ensures
        documentation(again) == documentation(record),
        forall|k: int|
            0 <= k < record.required_fields.len() ==> #[trigger] documentation(
                record,
            )[required_offset(record, k)] == required_heading(record.required_fields[k]),
        forall|k: int|
            0 <= k < record.optional_fields.len() ==> #[trigger] documentation(
                record,
            )[optional_offset(record, k)] == optional_heading(record.optional_fields[k]),
        forall|i: int, j: int|
            0 <= i < j < record.required_fields.len() ==> #[trigger] required_offset(record, i)
                < #[trigger] required_offset(record, j),
        forall|i: int, j: int|
            0 <= i < j < record.optional_fields.len() ==> #[trigger] optional_offset(record, i)
                < #[trigger] optional_offset(record, j),
        forall|i: int, j: int|
            0 <= i < record.required_fields.len() && 0 <= j < record.optional_fields.len()
                ==> #[trigger] required_offset(record, i) < #[trigger] optional_offset(record, j),
{
    let required = record.required_fields;
    let optional = record.optional_fields;
    let required_part = |f: FieldModel| required_block(f);
    let optional_part = |f: FieldModel| optional_block(f);
    let upper = required.flat_map(required_part);
    let lower = optional.flat_map(optional_part);
    let docs = documentation(record);
    assert(docs.len() == 3 + upper.len() + lower.len());
    assert forall|k: int| 0 <= k < required.len() implies #[trigger] docs[required_offset(
        record,
        k,
    )] == required_heading(required[k]) && required_offset(record, k) < 2 + upper.len() by {
        lemma_flat_map_head(required, required_part, k);
    }
    assert forall|k: int| 0 <= k < optional.len() implies #[trigger] docs[optional_offset(
        record,
        k,
    )] == optional_heading(optional[k]) by {
        lemma_flat_map_head(optional, optional_part, k);
    }
    assert forall|i: int, j: int| 0 <= i < j < required.len() implies #[trigger] required_offset(
        record,
        i,
    ) < #[trigger] required_offset(record, j) by {
        lemma_offsets_grow(required, required_part, i, j);
    }
    assert forall|i: int, j: int| 0 <= i < j < optional.len() implies #[trigger] optional_offset(
        record,
        i,
    ) < #[trigger] optional_offset(record, j) by {
        lemma_offsets_grow(optional, optional_part, i, j);
    }
    assert forall|i: int, j: int|
        0 <= i < required.len() && 0 <= j < optional.len() implies #[trigger] required_offset(
        record,
        i,
    ) < #[trigger] optional_offset(record, j) by {
        lemma_flat_map_head(required, required_part, i);
    }
}

proof fn lemma_offsets_grow<A, B>(list: Seq<A>, part: spec_fn(A) -> Seq<B>, i: int, j: int)
    requires
        0 <= i < j <= list.len(),
        forall|k: int| 0 <= k < list.len() ==> (#[trigger] part(list[k])).len() > 0,
    ensures
        list.take(i).flat_map(part).len() < list.take(j).flat_map(part).len(),
    decreases j - i,
{
    list.lemma_flat_map_take_append(part, j - 1);
    assert(part(list[j - 1]).len() > 0);
    if i < j - 1 {
        lemma_offsets_grow(list, part, i, j - 1);
    }
}

} // verus!
