//! The calls into `proc_macro2` that code generation makes.
//!
//! Nothing in this file is proved. `proc_macro2` works through the
//! compiler's implementation or through its own, whichever the process has,
//! and what the two print is not fixed: so nothing is stated of what a call
//! returns.

use vstd::prelude::*;

verus! {

#[verifier::external_type_specification]
#[verifier::external_body]
pub struct ExTokenStream(proc_macro2::TokenStream);

#[verifier::external_type_specification]
#[verifier::external_body]
pub struct ExLexError(proc_macro2::LexError);

/// `<proc_macro2::TokenStream as FromStr>::from_str`: lexes `source` into a
/// stream, or fails where `source` is no sequence of Rust tokens.
#[verifier::external_body]
pub(crate) fn lex(source: &str) -> Result<proc_macro2::TokenStream, proc_macro2::LexError> {
    source.parse::<proc_macro2::TokenStream>()
}

/// `proc_macro2::Literal::string`, printed: a Rust string literal that
/// denotes `value`.
#[verifier::external_body]
pub(crate) fn string_literal(value: &str) -> String {
    proc_macro2::Literal::string(value).to_string()
}

} // verus!
