//! URL operations, performed by the `url` parser that `reqwest` re-exports.
//!
//! URL parsing follows the WHATWG URL standard, which takes pages to state;
//! each result is therefore named by a spec function of the strings involved.

use vstd::prelude::*;

verus! {

/// The scheme of `s` parsed as an absolute URL, or `None` when it does not
/// parse.
pub uninterp spec fn url_scheme_of(s: Seq<char>) -> Option<Seq<char>>;

/// `href` resolved against `base`, serialised; `None` when `base` does not
/// parse or `href` cannot be resolved against it.
pub uninterp spec fn url_joined(base: Seq<char>, href: Seq<char>) -> Option<Seq<char>>;

/// The ASCII serialisation of the origin of `s`, or the parser's error
/// message when `s` does not parse.
pub uninterp spec fn url_origin_of(s: Seq<char>) -> Result<Seq<char>, Seq<char>>;

/// The host of `s` as it appears in its serialisation (`Some(None)` for a URL
/// without a host), or `None` when `s` does not parse.
pub uninterp spec fn url_host_of(s: Seq<char>) -> Option<Option<Seq<char>>>;

pub open spec fn opt_string_view(o: Option<String>) -> Option<Seq<char>> {
    match o {
        Some(s) => Some(s@),
        None => None,
    }
}

/// Calls `reqwest::Url::parse` and then `Url::scheme`.
#[verifier::external_body]
pub(crate) fn parsed_url_scheme(s: &str) -> (res: Option<String>)
    ensures
        opt_string_view(res) == url_scheme_of(s@),
{
    reqwest::Url::parse(s).ok().map(|u| u.scheme().to_string())
}

/// Calls `reqwest::Url::parse` on `base` and then `Url::join` with `href`;
/// the joined URL is returned in its string form.
#[verifier::external_body]
pub(crate) fn joined_url(base: &str, href: &str) -> (res: Option<String>)
    ensures
        opt_string_view(res) == url_joined(base@, href@),
{
    reqwest::Url::parse(base).ok().and_then(|b| b.join(href).ok()).map(|u| u.to_string())
}

/// Calls `reqwest::Url::parse` and then `Url::origin` and
/// `Origin::ascii_serialization`; a parse error is returned as its message.
#[verifier::external_body]
pub(crate) fn url_origin(s: &str) -> (res: Result<String, String>)
    ensures
        match res {
            Ok(o) => url_origin_of(s@) == Ok::<Seq<char>, Seq<char>>(o@),
            Err(e) => url_origin_of(s@) == Err::<Seq<char>, Seq<char>>(e@),
        },
{
    match reqwest::Url::parse(s) {
        Ok(u) => Ok(u.origin().ascii_serialization()),
        Err(e) => Err(e.to_string()),
    }
}

/// Calls `reqwest::Url::parse` and then `Url::host_str`.
#[verifier::external_body]
pub(crate) fn url_host(s: &str) -> (res: Option<Option<String>>)
    ensures
        match res {
            Some(h) => url_host_of(s@) == Some(opt_string_view(h)),
            None => url_host_of(s@).is_none(),
        },
{
    reqwest::Url::parse(s).ok().map(|u| u.host_str().map(|h| h.to_string()))
}

} // verus!
