//! Absolute-URL validation for submitted links.
//!
//! A submitted link is accepted exactly when it parses as an absolute URL;
//! what is stored is the parser's serialization of it, never the raw input.

use vstd::prelude::*;

verus! {

/// The serialization of the absolute URL that a string parses to, or `None`
/// where the string is not an absolute URL.
pub uninterp spec fn parsed_url(s: Seq<char>) -> Option<Seq<char>>;

/// Whether a string is the serialization of some absolute URL, and so may
/// stand as a stored link.
pub open spec fn is_stored_link(l: Seq<char>) -> bool {
    exists|s: Seq<char>| parsed_url(s) == Some(l)
}

/// Relies on `url::Url::parse`: parsing succeeds exactly for absolute URLs,
/// the serialization returned by `as_str` depends on the input string alone,
/// and both are deterministic.
#[verifier::external_body]
pub(crate) fn parse_absolute_url(s: &str) -> (r: Option<String>)
    ensures
        r is Some <==> parsed_url(s@) is Some,
        r matches Some(u) ==> parsed_url(s@) == Some(u@),
{
    match url::Url::parse(s) {
        Ok(u) => Some(u.as_str().to_owned()),
        Err(_) => None,
    }
}

} // verus!
