//! Validation of resource locators.
//!
//! A tab renders one external resource, addressed by a locator string. A
//! locator is accepted exactly when it parses as an absolute URL; the
//! parsing itself is delegated to the `url` crate.

use vstd::prelude::*;

verus! {

/// Whether the WHATWG URL parser accepts the string as an absolute URL.
/// The full grammar is not restated here; the result is a function of the
/// characters alone.
pub uninterp spec fn locator_is_well_formed(s: Seq<char>) -> bool;

/// Relies on url::Url::parse: it returns `Ok` exactly when the input parses
/// as an absolute URL, and its outcome depends on the input characters alone.
#[verifier::external_body]
pub(crate) fn locator_is_valid(s: &str) -> (r: bool)
    ensures
        r == locator_is_well_formed(s@),
{
    url::Url::parse(s).is_ok()
}

} // verus!
