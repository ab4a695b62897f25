//! Turns the names of a description into the casings of the bindings: Pascal
//! case for type names, snake case for function and field names.
//!
//! A name is split into words and joined again; no character is taken out or
//! replaced, so a name that holds what no identifier may hold gives a binding
//! name that is no identifier either.

use vstd::prelude::*;
use convert_case::{Case, Casing};

verus! {

/// The casings that the bindings are written in.
#[derive(Debug, Clone, Copy, PartialEq, Eq)]
pub enum CaseStyle {
    /// Words capitalised and joined: `ExampleTwo`.
    Pascal,
    /// Words in lower case, joined by underscores: `example_two`.
    Snake,
}

/// A name put into a casing.
pub uninterp spec fn recased(name: Seq<char>, style: CaseStyle) -> Seq<char>;

/// `convert_case::Casing::to_case` on a string slice, with `Case::Pascal` or
/// `Case::Snake`: the name split into words at the default boundaries and
/// joined again in the casing asked for. Trusted, not proved: that the
/// outcome depends on the name and the casing alone, which [`recased`] names.
#[verifier::external_body]
fn to_case(name: &str, style: CaseStyle) -> (out: String)
    ensures
        out@ == recased(name@, style),
{
    let case = match style {
        CaseStyle::Pascal => Case::Pascal,
        CaseStyle::Snake => Case::Snake,
    };
    name.to_case(case)
}

/// The name in Pascal case, as type names are written.
pub fn to_pascal_case(name: &str) -> (out: String)
    ensures
        out@ == recased(name@, CaseStyle::Pascal),
{
    to_case(name, CaseStyle::Pascal)
}

/// The name in snake case, as function and field names are written.
pub fn to_snake_case(name: &str) -> (out: String)
    ensures
        out@ == recased(name@, CaseStyle::Snake),
{
    to_case(name, CaseStyle::Snake)
}

} // verus!
