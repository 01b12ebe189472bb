//! Identifier forms derived from a declaration name.

use vstd::prelude::*;
use convert_case::{Case, Casing};

verus! {

/// The lowercase-underscore form of a name (`MyMessage` to `my_message`).
pub uninterp spec fn snake_of(name: Seq<char>) -> Seq<char>;

/// The lower-camel form of a name (`MyMessage` to `myMessage`).
pub uninterp spec fn camel_of(name: Seq<char>) -> Seq<char>;

/// Relies on convert_case's `Casing::to_case` with `Case::Snake`: the
/// lowercase-underscore form, which depends on the characters alone.
#[verifier::external_body]
pub(crate) fn to_snake_case(name: &str) -> (r: String)
    ensures
        r@ == snake_of(name@),
{
    name.to_case(Case::Snake)
}

/// Relies on convert_case's `Casing::to_case` with `Case::Camel`: the
/// lower-camel form, which depends on the characters alone.
#[verifier::external_body]
pub(crate) fn to_camel_case(name: &str) -> (r: String)
    ensures
        r@ == camel_of(name@),
{
    name.to_case(Case::Camel)
}

} // verus!
