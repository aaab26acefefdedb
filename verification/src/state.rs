//! The state that the type of a builder records: one marker per field, in the
//! order of the slots. A slot's marker is filled once its setter was
//! called.

use vstd::prelude::*;

verus! {

/// What the type of a builder records of one slot: whether its setter was
/// called.
#[derive(Clone, Copy, PartialEq, Eq, Debug, Structural)]
pub enum Marker {
    Empty,
    Filled,
}

/// What the signature of an operation says of one slot: `Any` stands for the
/// slot's own state parameter, whatever marker it holds, and `Is` for one
/// marker.
#[derive(Clone, Copy, PartialEq, Eq, Debug, Structural)]
pub enum StateArg {
    Any,
    Is(Marker),
}

/// Whether an operation whose signature asks for `pattern` is defined on a
/// builder in `state`: both have one entry per slot, and wherever the pattern
/// names a marker the state holds it.
pub open spec fn accepts(pattern: Seq<StateArg>, state: Seq<Marker>) -> bool {
    &&& pattern.len() == state.len()
    &&& forall|k: int|
        0 <= k < pattern.len() ==> (#[trigger] pattern[k] matches StateArg::Is(marker)
            ==> state[k] == marker)
}

/// The state of the builder that an operation hands back, where its
/// signature promises `pattern` and it was called in `state`: a slot that the
/// pattern leaves open keeps its marker.
pub open spec fn resulting(pattern: Seq<StateArg>, state: Seq<Marker>) -> Seq<Marker> {
    Seq::new(
        pattern.len(),
        |k: int|
            match pattern[k] {
                StateArg::Any => state[k],
                StateArg::Is(marker) => marker,
            },
    )
}

/// The type that stands for a marker in the type of a builder: the unit type
/// for an empty slot, the field's type for a filled one.
pub open spec fn marker_type(marker: Marker, ty: Seq<char>) -> Seq<char> {
    match marker {
        Marker::Empty => "()"@,
        Marker::Filled => ty,
    }
}

/// The type argument that stands for one slot in a signature: the slot's
/// state parameter where the signature leaves the slot open, else the type
/// of the marker it names.
pub open spec fn arg_type(arg: StateArg, param: Seq<char>, ty: Seq<char>) -> Seq<char> {
    match arg {
        StateArg::Any => param,
        StateArg::Is(marker) => marker_type(marker, ty),
    }
}

/// The type arguments that stand for a state, where `types` are the types of
/// the fields.
pub open spec fn state_types(state: Seq<Marker>, types: Seq<Seq<char>>) -> Seq<Seq<char>> {
    Seq::new(state.len(), |k: int| marker_type(state[k], types[k]))
}

/// The type arguments that stand for a pattern, where `params` are the state
/// parameters of the slots and `types` the types of the fields.
pub open spec fn pattern_types(
    pattern: Seq<StateArg>,
    params: Seq<Seq<char>>,
    types: Seq<Seq<char>>,
) -> Seq<Seq<char>> {
    Seq::new(pattern.len(), |k: int| arg_type(pattern[k], params[k], types[k]))
}

/// The state parameters that a signature with this pattern is generic in:
/// those of the slots it leaves open, in the order of the slots.
pub open spec fn free_params(pattern: Seq<StateArg>, params: Seq<Seq<char>>) -> Seq<Seq<char>>
    decreases pattern.len(),
{
    if pattern.len() == 0 {
        Seq::empty()
    } else {
        let earlier = free_params(pattern.drop_last(), params);
        if pattern.last() is Any {
            earlier.push(params[pattern.len() - 1])
        } else {
            earlier
        }
    }
}

/// The pattern that leaves every one of `n` slots open.
pub open spec fn open_pattern(n: nat) -> Seq<StateArg> {
    Seq::new(n, |k: int| StateArg::Any)
}

/// Decides whether an operation whose signature asks for `pattern` is
/// defined on a builder in `state`.
pub fn check_accepts(pattern: &Vec<StateArg>, state: &Vec<Marker>) -> (ok: bool)
    ensures
        ok == accepts(pattern@, state@),
{
    if pattern.len() != state.len() {
        return false;
    }
    let mut k: usize = 0;
    while k < pattern.len()
        invariant
            k <= pattern.len(),
            pattern.len() == state.len(),
            forall|j: int|
                0 <= j < k ==> (#[trigger] pattern@[j] matches StateArg::Is(marker) ==> state@[j]
                    == marker),
        decreases pattern.len() - k,
    {
        match pattern[k] {
            StateArg::Any => {},
            StateArg::Is(marker) => {
                if state[k] != marker {
                    return false;
                }
            },
        }
        k += 1;
    }
    true
}

/// The state of the builder that an operation hands back, where its
/// signature promises `pattern` and it was called in `state`.
pub(crate) fn apply_pattern(pattern: &Vec<StateArg>, state: &Vec<Marker>) -> (next: Vec<Marker>)
    requires
        pattern.len() == state.len(),
    ensures
        next@ == resulting(pattern@, state@),
{
    let mut next: Vec<Marker> = Vec::new();
    let mut k: usize = 0;
    while k < pattern.len()
        invariant
            k <= pattern.len(),
            pattern.len() == state.len(),
            next.len() == k,
            forall|j: int| 0 <= j < k ==> next@[j] == resulting(pattern@, state@)[j],
        decreases pattern.len() - k,
    {
        let marker: Marker = match pattern[k] {
            StateArg::Any => state[k],
            StateArg::Is(marker) => marker,
        };
        next.push(marker);
        k += 1;
    }
    assert(next@ =~= resulting(pattern@, state@));
    next
}

/// Writes the state parameters that a signature with this pattern is generic
/// in, and the type arguments that stand for the pattern.
pub(crate) fn write_pattern(
    pattern: &Vec<StateArg>,
    params: &Vec<String>,
    types: &Vec<String>,
) -> (written: (Vec<String>, Vec<String>))
    requires
        pattern.len() == params.len(),
        pattern.len() == types.len(),
    ensures
        written.0.deep_view() == free_params(pattern@, params.deep_view()),
        written.1.deep_view() == pattern_types(pattern@, params.deep_view(), types.deep_view()),
{
    let mut free: Vec<String> = Vec::new();
    let mut args: Vec<String> = Vec::new();
    let mut k: usize = 0;
    while k < pattern.len()
        invariant
            k <= pattern.len(),
            pattern.len() == params.len(),
            pattern.len() == types.len(),
            free.deep_view() == free_params(pattern@.take(k as int), params.deep_view()),
            args.len() == k,
            forall|j: int|
                0 <= j < k ==> args[j]@ == arg_type(
                    pattern@[j],
                    params.deep_view()[j],
                    types.deep_view()[j],
                ),
        decreases pattern.len() - k,
    {
        let ghost before = free.deep_view();
        proof {
            assert(pattern@.take(k + 1).drop_last() == pattern@.take(k as int));
            assert(pattern@.take(k + 1).last() == pattern@[k as int]);
        }
        match pattern[k] {
            StateArg::Any => {
                free.push(params[k].clone());
                assert(free.deep_view() =~= before.push(params.deep_view()[k as int]));
                args.push(params[k].clone());
            },
            StateArg::Is(Marker::Empty) => {
                args.push(String::from_str("()"));
            },
            StateArg::Is(Marker::Filled) => {
                args.push(types[k].clone());
            },
        }
        k += 1;
    }
    assert(pattern@.take(k as int) == pattern@);
    assert(args.deep_view() =~= pattern_types(
        pattern@,
        params.deep_view(),
        types.deep_view(),
    ));
    (free, args)
}

} // verus!
