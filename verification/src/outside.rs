use crate::models::opt_chars;
use convert_case::{Case, Casing};
use quote::ToTokens;
use vstd::prelude::*;

verus! {

/// What `convert_case` makes of `name` when it is asked for snake case.
pub uninterp spec fn snake_case(name: Seq<char>) -> Seq<char>;

/// `Casing::to_case` of `convert_case`, with `Case::Snake`: it cuts the name into words at
/// its default boundaries, lowers each word and joins them with underscores. Nothing is
/// proved of the words; the result is only given its name.
#[verifier::external_body]
pub(crate) fn to_snake_case(name: &str) -> (r: String)
    ensures
        r@ == snake_case(name@),
{
    name.to_case(Case::Snake)
}

/// Whether `c` has the Unicode property XID_Start, by the tables of `unicode-ident`.
pub uninterp spec fn xid_start(c: char) -> bool;

/// Whether `c` has the Unicode property XID_Continue, by the tables of `unicode-ident`.
pub uninterp spec fn xid_continue(c: char) -> bool;

/// `unicode_ident::is_xid_start`: a lookup in the crate's tables, named and not stated.
#[verifier::external_body]
pub(crate) fn is_xid_start(c: char) -> (r: bool)
    ensures
        r == xid_start(c),
{
    unicode_ident::is_xid_start(c)
}

/// `unicode_ident::is_xid_continue`: a lookup in the crate's tables, named and not stated.
#[verifier::external_body]
pub(crate) fn is_xid_continue(c: char) -> (r: bool)
    ensures
        r == xid_continue(c),
{
    unicode_ident::is_xid_continue(c)
}

/// The tokens that `proc_macro2` reads in `source`, written out again as it prints a token
/// stream; `None` where it does not read `source` as tokens.
pub uninterp spec fn lexed_tokens(source: Seq<char>) -> Option<Seq<char>>;

/// `str::parse` into a `proc_macro2::TokenStream`, and that stream's `to_string`. The lexer
/// gives an error where the text is no sequence of Rust tokens with balanced brackets; this
/// wrapper turns the error into `None`. What the tokens are is not stated.
#[verifier::external_body]
pub(crate) fn lex_tokens(source: &str) -> (r: Option<String>)
    ensures
        opt_chars(r) == lexed_tokens(source@),
{
    match source.parse::<proc_macro2::TokenStream>() {
        Ok(tokens) => Some(tokens.to_string()),
        Err(_) => None,
    }
}

/// The path that `syn` reads in `source`, written out again as tokens; `None` where it does
/// not read the whole of `source` as one path.
pub uninterp spec fn parsed_path(source: Seq<char>) -> Option<Seq<char>>;

/// `syn::parse_str` for a `syn::Path`, and the path's tokens through `to_token_stream` and
/// `to_string`. The parser gives an error unless all of the text is one path; this wrapper
/// turns the error into `None`. What the path is is not stated.
#[verifier::external_body]
pub(crate) fn parse_path(source: &str) -> (r: Option<String>)
    ensures
        opt_chars(r) == parsed_path(source@),
{
    match syn::parse_str::<syn::Path>(source) {
        Ok(path) => Some(path.to_token_stream().to_string()),
        Err(_) => None,
    }
}

/// The string literal that `proc_macro2` writes for `value`: the text between double quotes,
/// with its escapes.
pub uninterp spec fn string_literal(value: Seq<char>) -> Seq<char>;

/// `proc_macro2::Literal::string`, and the literal's `to_string`. Which characters are
/// escaped, and how, is not stated.
#[verifier::external_body]
pub(crate) fn quote_string(value: &str) -> (r: String)
    ensures
        r@ == string_literal(value@),
{
    proc_macro2::Literal::string(value).to_string()
}

} // verus!
