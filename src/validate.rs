use vstd::prelude::*;
use validator::{ValidateEmail, ValidateLength, ValidateUrl};

verus! {

/// Whether the `url` crate parses the text as an absolute URL.
pub uninterp spec fn url_parses(s: Seq<char>) -> bool;

/// Whether the text is an e-mail address in the HTML5 sense (with internationalised domains).
pub uninterp spec fn email_accepted(s: Seq<char>) -> bool;

/// Relies on validator's `ValidateLength` for `str`: it counts the characters
/// (`chars().count()`) and checks them against the inclusive bounds.
#[verifier::external_body]
pub(crate) fn length_within(s: &str, min: u64, max: u64) -> (r: bool)
    ensures
        r == (min <= s@.len() && s@.len() <= max),
{
    s.validate_length(Some(min), Some(max), None)
}

/// Relies on validator's `ValidateUrl` for `str`, which answers whether
/// `url::Url::parse` accepts the text.
#[verifier::external_body]
pub(crate) fn url_valid(s: &str) -> (r: bool)
    ensures
        r == url_parses(s@),
{
    s.validate_url()
}

/// Relies on validator's `ValidateEmail` for `str`; an empty text is never an address.
#[verifier::external_body]
pub(crate) fn email_valid(s: &str) -> (r: bool)
    ensures
        r == email_accepted(s@),
        s@.len() == 0 ==> !r,
{
    s.validate_email()
}

} // verus!
