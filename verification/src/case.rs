//! Case conversion, as the `heck` crate does it.

use vstd::prelude::*;

verus! {

/// What `heck` makes of a text in `UpperCamelCase`.
pub uninterp spec fn upper_camel_case(s: Seq<char>) -> Seq<char>;

/// What `heck` makes of a text in `snake_case`.
pub uninterp spec fn snake_case(s: Seq<char>) -> Seq<char>;

/// Calls `heck::ToUpperCamelCase::to_upper_camel_case`. Its result is trusted to depend on the
/// characters of `s` alone; what it is stays unsaid.
#[verifier::external_body]
pub(crate) fn to_upper_camel_case(s: &str) -> (r: String)
    ensures
        r@ == upper_camel_case(s@),
{
    heck::ToUpperCamelCase::to_upper_camel_case(s)
}

/// Calls `heck::ToSnakeCase::to_snake_case`. Its result is trusted to depend on the characters of
/// `s` alone; what it is stays unsaid.
#[verifier::external_body]
pub(crate) fn to_snake_case(s: &str) -> (r: String)
    ensures
        r@ == snake_case(s@),
{
    heck::ToSnakeCase::to_snake_case(s)
}

} // verus!
