//! What the syntax crates read in the tokens of an option.
//!
//! Telling a string literal or a comma from other tokens, unescaping a
//! literal and reading attribute arguments are the work of `syn` on tokens of
//! `proc-macro2`. Nothing in this module is proved. Each function gives what
//! its one call returns a name, and claims only that the call returns what the
//! name stands for: that the same tokens always read the same.

use proc_macro2::{TokenStream, TokenTree};
use syn::parse::Parser;
use syn::punctuated::Punctuated;
use syn::token::Comma;
use syn::{LitStr, Meta};
use vstd::prelude::*;

verus! {

/// The error of `syn`: why some tokens could not be read.
#[verifier::external_type_specification]
#[verifier::external_body]
pub struct ExSyntaxError(syn::Error);

/// A sequence of tokens, as `proc-macro2` holds it.
#[verifier::external_type_specification]
#[verifier::external_body]
pub struct ExTokenStream(proc_macro2::TokenStream);

/// One token, or one delimited group of tokens.
#[verifier::external_type_specification]
#[verifier::external_body]
pub struct ExTokenTree(proc_macro2::TokenTree);

/// One string literal, as `syn` reads it.
#[verifier::external_type_specification]
#[verifier::external_body]
pub struct ExLitStr(syn::LitStr);

/// One attribute argument, as `syn` reads it.
#[verifier::external_type_specification]
#[verifier::external_body]
pub struct ExMeta(syn::Meta);

/// The token trees that `TokenStream::into_iter` hands out of `tokens`, in
/// order.
pub uninterp spec fn trees_in(tokens: TokenStream) -> Seq<TokenTree>;

/// Whether `syn::parse2::<Comma>` accepts the one token `tree`.
pub uninterp spec fn comma_in(tree: TokenTree) -> bool;

/// The string literal that `syn::parse2::<LitStr>` reads in the one token
/// `tree`, if it reads one.
pub uninterp spec fn literal_in(tree: TokenTree) -> Option<LitStr>;

/// What `LitStr::value` gives for `literal`: its text without the quotes,
/// with the escapes resolved.
pub uninterp spec fn value_of(literal: LitStr) -> Seq<char>;

/// The attribute arguments that `Punctuated::<Meta, Comma>::parse_terminated`
/// reads in `tokens`, in order, if it accepts them.
pub uninterp spec fn metas_in(tokens: TokenStream) -> Option<Seq<Meta>>;

/// Walks a copy of `tokens` with `TokenStream::into_iter`. The contract
/// claims that what is handed out is `trees_in` of the tokens.
#[verifier::external_body]
pub(crate) fn trees_of(tokens: &TokenStream) -> (r: Vec<TokenTree>)
    ensures
        r@ == trees_in(*tokens),
{
    tokens.clone().into_iter().collect()
}

/// Calls `syn::parse2::<Comma>` on the one token `tree`. The contract claims
/// that it succeeds exactly where `comma_in` of the token holds.
#[verifier::external_body]
pub(crate) fn read_comma(tree: &TokenTree) -> (r: Result<(), syn::Error>)
    ensures
        r is Ok <==> comma_in(*tree),
{
    syn::parse2::<Comma>(TokenStream::from(tree.clone()))?;
    Ok(())
}

/// Calls `syn::parse2::<LitStr>` on the one token `tree`. The contract claims
/// that the outcome is `literal_in` of the token, and an error where that is
/// nothing.
#[verifier::external_body]
pub(crate) fn read_literal(tree: &TokenTree) -> (r: Result<LitStr, syn::Error>)
    ensures
        match r {
            Ok(literal) => literal_in(*tree) == Some(literal),
            Err(_) => literal_in(*tree) is None,
        },
{
    syn::parse2::<LitStr>(TokenStream::from(tree.clone()))
}

/// Calls `LitStr::value`. The contract claims that the string is `value_of`
/// the literal.
#[verifier::external_body]
pub(crate) fn literal_value(literal: &LitStr) -> (r: String)
    ensures
        r@ == value_of(*literal),
{
    literal.value()
}

/// Calls `Punctuated::<Meta, Comma>::parse_terminated` on a copy of `tokens`,
/// through `Parser::parse2`, and hands out the items in order. The contract
/// claims that the outcome is `metas_in` of the tokens, and an error where
/// that is nothing.
#[verifier::external_body]
pub(crate) fn read_meta_list(tokens: &TokenStream) -> (r: Result<Vec<Meta>, syn::Error>)
    ensures
        match r {
            Ok(items) => metas_in(*tokens) == Some(items@),
            Err(_) => metas_in(*tokens) is None,
        },
{
    let items = Punctuated::<Meta, Comma>::parse_terminated.parse2(tokens.clone())?;
    Ok(items.into_iter().collect())
}

} // verus!
