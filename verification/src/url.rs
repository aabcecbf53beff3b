use crate::error::ParseError;
use vstd::prelude::*;
use vstd::string::*;

verus! {

/// What the URL parser says against `s`: `None` where it reads `s` as a URL,
/// else its diagnostic.
pub uninterp spec fn url_parse_failure(s: Seq<char>) -> Option<Seq<char>>;

/// Whether the URL that the parser reads from `s` names a host. It means
/// something only where the parser reads `s` as a URL.
pub uninterp spec fn url_has_host(s: Seq<char>) -> bool;

/// The diagnostic for an address that parses but names no host.
pub open spec fn no_host_text() -> Seq<char> {
    "empty host"@
}

/// Why `s` is no address to send a request to: the parser's diagnostic where
/// it does not parse, the lack of a host where it parses without one, and
/// `None` where it has both a scheme and a host.
pub open spec fn url_refusal(s: Seq<char>) -> Option<Seq<char>> {
    match url_parse_failure(s) {
        Some(diagnostic) => Some(diagnostic),
        None => if url_has_host(s) {
            None
        } else {
            Some(no_host_text())
        },
    }
}

/// Runs `reqwest::Url::parse` on `s`, which is the parser of the `url` crate.
/// Where it fails, the result is the text that the parser's error displays;
/// where it succeeds, the result is what `Url::has_host` says of the URL.
/// Both read nothing but the text, so each outcome has a name.
#[verifier::external_body]
fn url_verdict(s: &str) -> (r: Result<bool, String>)
    ensures
        r is Err <==> url_parse_failure(s@) is Some,
        r is Err ==> r->Err_0@ == url_parse_failure(s@)->Some_0,
        r is Ok ==> r->Ok_0 == url_has_host(s@),
{
    match reqwest::Url::parse(s) {
        Ok(url) => Ok(url.has_host()),
        Err(e) => Err(e.to_string()),
    }
}

/// Settles a validation once the parser has spoken. `verdict` is the
/// parser's diagnostic, or whether the URL that it read names a host. The
/// address comes back unchanged where it parsed and names a host; else the
/// error carries the diagnostic, which for a missing host is `empty host`.
pub fn checked_url(s: &str, verdict: Result<bool, String>) -> (r: Result<String, ParseError>)
    ensures
        verdict == Ok::<bool, String>(true) ==> r is Ok && r->Ok_0@ == s@,
        verdict == Ok::<bool, String>(false) ==> r is Err && r->Err_0 is InvalidUrl
            && r->Err_0->diagnostic@ == no_host_text(),
        verdict is Err ==> r is Err && r->Err_0 is InvalidUrl && r->Err_0->diagnostic@
            == verdict->Err_0@,
{
    match verdict {
        Ok(true) => Ok(s.to_owned()),
        Ok(false) => Err(ParseError::InvalidUrl { diagnostic: String::from_str("empty host") }),
        Err(diagnostic) => Err(ParseError::InvalidUrl { diagnostic }),
    }
}

/// Validates an address without changing it. An absolute URL with a scheme
/// and a host comes back as it was given. Anything else is turned down: with
/// the parser's diagnostic where it does not parse, with `empty host` where
/// it parses but names no host.
pub fn parse_url(s: &str) -> (r: Result<String, ParseError>)
    ensures
        url_refusal(s@) is None ==> r is Ok && r->Ok_0@ == s@,
        url_refusal(s@) is Some ==> r is Err && r->Err_0 is InvalidUrl && r->Err_0->diagnostic@
            == url_refusal(s@)->Some_0,
{
    let verdict = url_verdict(s);
    checked_url(s, verdict)
}

} // verus!
