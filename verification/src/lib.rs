//! Synthesis of type-state builders.
//!
//! Given the description of a record (its fields, their types and their
//! per-field options) this crate derives the description of a companion
//! builder: one state slot per field, a constructor, one setter per field and
//! a finalizer that is only defined once every required field has been set.
//!
//! Every type has a mathematical model, its view, and every function states
//! over these models what it hands back. Verus proves each function against
//! what it states, with one exception: the functions of [`tokens`] call
//! `proc_macro2`, `quote` and `syn`, and what they state of those calls is
//! taken on trust.
//!
//! - [`field`] and [`structure`] read a declaration into a record whose
//!   fields are parted into the required and the optional ones.
//! - [`struct_impl`] and [`synth`] derive the builder of a record, which
//!   [`builder`] describes; [`state`] says what its signatures mean.
//! - [`runtime`] is a builder that holds values, and [`laws`] proves what
//!   holds of every builder.

pub mod builder;
pub mod error;
pub mod field;
pub mod laws;
pub mod runtime;
pub mod state;
pub mod struct_impl;
pub mod structure;
pub mod synth;
pub mod text;
pub mod tokens;
