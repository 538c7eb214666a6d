//! What `syn` makes of the text of a token.
//!
//! Two questions are put to `syn`: what the value of a literal is, and
//! whether an identifier can be a name. Its answers are taken on trust.

use vstd::prelude::*;

verus! {

/// The error type of `syn`. Nothing is known of a value of it.
#[verifier::external_type_specification]
#[verifier::external_body]
pub struct ExSynError(syn::Error);

/// The identifier type of `proc_macro2`, which is also that of `syn`. Nothing
/// is known of a value of it.
#[verifier::external_type_specification]
#[verifier::external_body]
pub struct ExIdent(proc_macro2::Ident);

/// What `syn` makes of the text of a literal: its value where the text is an
/// integer literal of Rust whose value fits in 128 bits, and nothing
/// otherwise. The text alone decides.
pub uninterp spec fn int_literal_value(text: Seq<char>) -> Option<u128>;

/// Whether `syn` takes the text for an identifier: it does not where the text
/// is a keyword of Rust or a lone underscore. The text alone decides.
pub uninterp spec fn is_identifier(text: Seq<char>) -> bool;

/// Reads `text` as an integer literal with `syn::parse_str::<syn::LitInt>` and
/// takes its value with `syn::LitInt::base10_parse::<u128>`. Either call can
/// fail, and neither panics. Not proved: that the outcome depends on the text
/// alone, which is what naming it [`int_literal_value`] claims.
#[verifier::external_body]
pub(crate) fn literal_value(text: &str) -> (value: Result<u128, syn::Error>)
    ensures
        match value {
            Ok(v) => int_literal_value(text@) == Some(v),
            Err(_) => int_literal_value(text@) is None,
        },
{
    syn::parse_str::<syn::LitInt>(text)?.base10_parse::<u128>()
}

/// Reads `text` as an identifier with `syn::parse_str::<syn::Ident>`, which
/// fails where the text is no identifier to `syn`, and does not panic. Not
/// proved: that the outcome depends on the text alone, which is what naming
/// it [`is_identifier`] claims.
#[verifier::external_body]
pub(crate) fn identifier(text: &str) -> (ident: Result<proc_macro2::Ident, syn::Error>)
    ensures
        ident is Ok <==> is_identifier(text@),
{
    syn::parse_str::<syn::Ident>(text)
}

} // verus!
