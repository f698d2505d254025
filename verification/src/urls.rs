//! Trusted wrappers around the URL-resolution collaborator.
//!
//! Resolving a reference against a base and reading a URL's domain are
//! pure functions of the strings involved; their results are named by
//! uninterpreted spec functions, and everything the engine decides about
//! them is verified against those names.

use vstd::prelude::*;

verus! {

/// The absolute URL that resolving `href` against the base URL `base`
/// yields, written back out as a string; `None` on a parse error.
pub uninterp spec fn resolved(base: Seq<char>, href: Seq<char>) -> Option<Seq<char>>;

/// The domain named by the URL string `url`; `None` when the string does
/// not parse or its host is not a domain (an IP address, or no host).
pub uninterp spec fn host_of(url: Seq<char>) -> Option<Seq<char>>;

/// Relies on url::Url::parse, url::Url::join and url::Url's string form:
/// resolution of a reference against an absolute base depends on the two
/// strings alone; either parse failing is the `None` case.
#[verifier::external_body]
pub(crate) fn resolve_url(base: &str, href: &str) -> (r: Option<String>)
    ensures
        r.deep_view() == resolved(base@, href@),
{
    match url::Url::parse(base) {
        Ok(b) => match b.join(href) {
            Ok(u) => Some(u.to_string()),
            Err(_) => None,
        },
        Err(_) => None,
    }
}

/// Relies on url::Url::parse and url::Url::domain: whether an absolute
/// URL string names a domain, and which, depends on the string alone;
/// a parse failure or a domainless host is the `None` case.
#[verifier::external_body]
pub(crate) fn url_domain(url: &str) -> (r: Option<String>)
    ensures
        r.deep_view() == host_of(url@),
{
    match url::Url::parse(url) {
        Ok(u) => u.domain().map(|d| d.to_string()),
        Err(_) => None,
    }
}

} // verus!
