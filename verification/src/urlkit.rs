//! Trusted boundary to the `url` crate: URL validation, the normalized
//! serialization every matcher runs on, and the two rewrites the engine
//! needs (host swap, path swap).
use vstd::prelude::*;

verus! {

/// What the engine reads off a parsed URL.
pub struct UrlParts {
    /// The normalized serialization (`Url::as_str`).
    pub serial: String,
    /// The host, if the URL has one (`Url::host_str`).
    pub host: Option<String>,
    /// The path (`Url::path`).
    pub path: String,
}

/// The normalized serialization of `s`, if `s` parses as an absolute URL.
pub uninterp spec fn url_norm(s: Seq<char>) -> Option<Seq<char>>;

/// The host of `s` once parsed, if any.
pub uninterp spec fn url_host(s: Seq<char>) -> Option<Seq<char>>;

/// The path of `s` once parsed.
pub uninterp spec fn url_path(s: Seq<char>) -> Seq<char>;

/// Relies on `url::Url::parse` and the accessors `as_str`, `host_str` and
/// `path`: all pure functions of the input text.
#[verifier::external_body]
pub fn parse_url(s: &str) -> (r: Option<UrlParts>)
    ensures
        match r {
            Some(p) => url_norm(s@) matches Some(n) && p.serial@ == n && (match p.host {
                Some(h) => url_host(s@) matches Some(hh) && h@ == hh,
                None => url_host(s@) is None,
            }) && p.path@ == url_path(s@),
            None => url_norm(s@) is None,
        },
{
    match url::Url::parse(s) {
        Err(_) => None,
        Ok(u) => Some(
            UrlParts {
                serial: u.as_str().to_string(),
                host: u.host_str().map(|h| h.to_string()),
                path: u.path().to_string(),
            },
        ),
    }
}

/// Checks that `s` parses as an absolute URL.
pub fn is_valid_url(s: &str) -> (r: bool)
    ensures
        r == (url_norm(s@) is Some),
{
    parse_url(s).is_some()
}

/// The serialization of `s` with its host replaced by `h`, when both the
/// parse and the host change succeed.
pub uninterp spec fn url_with_host(s: Seq<char>, h: Seq<char>) -> Option<Seq<char>>;

/// Relies on `url::Url::set_host` after `url::Url::parse`: the outcome
/// depends on the two strings alone.
#[verifier::external_body]
pub fn set_url_host(s: &str, h: &str) -> (r: Option<String>)
    ensures
        match r {
            Some(v) => url_with_host(s@, h@) matches Some(w) && v@ == w,
            None => url_with_host(s@, h@) is None,
        },
{
    match url::Url::parse(s) {
        Err(_) => None,
        Ok(mut u) => match u.set_host(Some(h)) {
            Err(_) => None,
            Ok(()) => Some(u.as_str().to_string()),
        },
    }
}

/// The serialization of `s` with its path replaced by `p`, when `s`
/// parses.
pub uninterp spec fn url_with_path(s: Seq<char>, p: Seq<char>) -> Option<Seq<char>>;

/// Relies on `url::Url::set_path` after `url::Url::parse`: `set_path`
/// always succeeds, so the rewrite fails exactly when the parse does.
#[verifier::external_body]
pub fn set_url_path(s: &str, p: &str) -> (r: Option<String>)
    ensures
        match r {
            Some(v) => url_with_path(s@, p@) matches Some(w) && v@ == w,
            None => url_with_path(s@, p@) is None,
        },
        r is Some <==> url_norm(s@) is Some,
{
    match url::Url::parse(s) {
        Err(_) => None,
        Ok(mut u) => {
            u.set_path(p);
            Some(u.as_str().to_string())
        },
    }
}

} // verus!
