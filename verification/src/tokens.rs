//! Token streams of `proc_macro2`, filled one token at a time.
//!
//! Nothing in this module is proved. A stream is opaque to the verifier:
//! [`stream_tokens`] names what it holds, and each function states what the
//! call in its body does to that.

use vstd::prelude::*;
use crate::text::is_identifier;
use quote::ToTokens;

verus! {

/// `proc_macro2::TokenStream`, carried through as an opaque value.
#[verifier::external_type_specification]
#[verifier::external_body]
pub struct ExTokenStream(proc_macro2::TokenStream);

/// The token trees that a stream holds, in order, each by the text it is
/// written with: an identifier by its name, a punctuation mark by its
/// character.
pub uninterp spec fn stream_tokens(stream: proc_macro2::TokenStream) -> Seq<Seq<char>>;

/// `proc_macro2::TokenStream::new`, which returns an empty stream: the
/// stream holds no token tree.
#[verifier::external_body]
pub(crate) fn new_stream() -> (stream: proc_macro2::TokenStream)
    ensures
        stream_tokens(stream) == Seq::<Seq<char>>::empty(),
{
    proc_macro2::TokenStream::new()
}

/// `proc_macro2::Ident::new` with the span of the call site, and `quote`'s
/// `to_tokens` for the identifier, which appends it to the stream.
/// `Ident::new` panics unless its argument is a keyword or a legal variable
/// name; what [`is_identifier`] accepts is one of the two, whatever letters
/// the language admits beyond the ASCII ones. The stream then holds one more
/// token tree, the last one: the identifier `name`.
#[verifier::external_body]
pub(crate) fn push_ident(stream: &mut proc_macro2::TokenStream, name: &str)
    requires
        is_identifier(name@),
    ensures
        stream_tokens(*final(stream)) == stream_tokens(*old(stream)).push(name@),
{
    proc_macro2::Ident::new(name, proc_macro2::Span::call_site()).to_tokens(stream);
}

/// `to_tokens` of `syn::token::Lt`, which appends the one punctuation mark
/// `<` to the stream.
#[verifier::external_body]
pub(crate) fn push_lt(stream: &mut proc_macro2::TokenStream)
    ensures
        stream_tokens(*final(stream)) == stream_tokens(*old(stream)).push("<"@),
{
    syn::token::Lt::default().to_tokens(stream);
}

/// `to_tokens` of `syn::token::Gt`, which appends the one punctuation mark
/// `>` to the stream.
#[verifier::external_body]
pub(crate) fn push_gt(stream: &mut proc_macro2::TokenStream)
    ensures
        stream_tokens(*final(stream)) == stream_tokens(*old(stream)).push(">"@),
{
    syn::token::Gt::default().to_tokens(stream);
}

/// `to_tokens` of `syn::token::Comma`, which appends the one punctuation
/// mark `,` to the stream.
#[verifier::external_body]
pub(crate) fn push_comma(stream: &mut proc_macro2::TokenStream)
    ensures
        stream_tokens(*final(stream)) == stream_tokens(*old(stream)).push(","@),
{
    syn::token::Comma::default().to_tokens(stream);
}

} // verus!
