use crate::body::{pairs_map, Body};
use crate::error::ParseError;
use crate::kv::{parse_kv_pair, KvPair};
use crate::render::Header;
use crate::url::{parse_url, url_refusal};
use vstd::prelude::*;
use vstd::string::*;

verus! {

/// The request that one command line asks for.
#[derive(Debug, Clone, PartialEq, Eq)]
pub enum RequestSpec {
    Get { url: String },
    Post { url: String, body: Vec<KvPair> },
}

/// Every token holds a `=`.
pub open spec fn all_well_formed(tokens: Seq<String>) -> bool {
    forall|i: int| 0 <= i < tokens.len() ==> (#[trigger] tokens[i])@.contains('=')
}

/// `j` is the first token without a `=`.
pub open spec fn is_first_malformed(tokens: Seq<String>, j: int) -> bool {
    &&& 0 <= j < tokens.len()
    &&& !tokens[j]@.contains('=')
    &&& forall|i: int| 0 <= i < j ==> (#[trigger] tokens[i])@.contains('=')
}

/// Pair by pair, `pairs` is `tokens` split.
pub open spec fn pairs_split(pairs: Seq<KvPair>, tokens: Seq<String>) -> bool {
    &&& pairs.len() == tokens.len()
    &&& forall|i: int| 0 <= i < pairs.len() ==> (#[trigger] pairs[i]).splits(tokens[i]@)
}

/// Reads the body tokens of a command line in order. The first token without
/// a `=` ends the reading, and the error carries that token.
pub fn parse_pairs(tokens: &Vec<String>) -> (r: Result<Vec<KvPair>, ParseError>)
    ensures
        all_well_formed(tokens@) ==> r is Ok && pairs_split(r->Ok_0@, tokens@),
        !all_well_formed(tokens@) ==> r is Err && r->Err_0 is MalformedPair && exists|j: int|
            is_first_malformed(tokens@, j) && r->Err_0->token@ == tokens@[j]@,
{
    let mut pairs: Vec<KvPair> = Vec::new();
    let n = tokens.len();
    let mut i: usize = 0;
    while i < n
        invariant
            n == tokens@.len(),
            i <= n,
            pairs@.len() == i,
            forall|j: int| 0 <= j < i ==> (#[trigger] tokens@[j])@.contains('='),
            forall|j: int| 0 <= j < i ==> (#[trigger] pairs@[j]).splits(tokens@[j]@),
        decreases n - i,
    {
        match parse_kv_pair(tokens[i].as_str()) {
            Ok(pair) => {
                pairs.push(pair);
            },
            Err(e) => {
                proof {
                    assert(is_first_malformed(tokens@, i as int));
                }
                return Err(e);
            },
        }
        i += 1;
    }
    Ok(pairs)
}

/// The two headers that every request of this client carries: one that names
/// what it is built with, and its user agent.
pub fn default_headers() -> (r: Vec<Header>)
    ensures
        r@.len() == 2,
        r@[0].name@ == "X-POWERED-BY"@,
        r@[0].value@ == "Rust"@,
        r@[1].name@ == "user-agent"@,
        r@[1].value@ == "Rust Httpie"@,
{
    let mut headers: Vec<Header> = Vec::new();
    headers.push(
        Header { name: String::from_str("X-POWERED-BY"), value: String::from_str("Rust") },
    );
    headers.push(
        Header { name: String::from_str("user-agent"), value: String::from_str("Rust Httpie") },
    );
    headers
}

impl RequestSpec {
    /// The address that the request goes to.
    pub open spec fn url_view(&self) -> Seq<char> {
        match self {
            RequestSpec::Get { url } => url@,
            RequestSpec::Post { url, .. } => url@,
        }
    }

    /// The pairs that the command line gave, in its order: none for a GET.
    pub open spec fn pairs_view(&self) -> Seq<KvPair> {
        match self {
            RequestSpec::Get { .. } => Seq::empty(),
            RequestSpec::Post { body, .. } => body@,
        }
    }

    /// A GET of `url`, if `url` is an absolute URL with a host.
    pub fn get(url: &str) -> (r: Result<RequestSpec, ParseError>)
        ensures
            url_refusal(url@) is None ==> r is Ok && r->Ok_0 is Get && r->Ok_0.url_view()
                == url@,
            url_refusal(url@) is Some ==> r is Err && r->Err_0 is InvalidUrl
                && r->Err_0->diagnostic@ == url_refusal(url@)->Some_0,
    {
        match parse_url(url) {
            Ok(url) => Ok(RequestSpec::Get { url }),
            Err(e) => Err(e),
        }
    }

    /// A POST to `url` with the pairs that `tokens` spell. The address is
    /// looked at first, then the tokens from left to right; the first that is
    /// turned down gives the error.
    pub fn post(url: &str, tokens: &Vec<String>) -> (r: Result<RequestSpec, ParseError>)
        ensures
            url_refusal(url@) is Some ==> r is Err && r->Err_0 is InvalidUrl
                && r->Err_0->diagnostic@ == url_refusal(url@)->Some_0,
            url_refusal(url@) is None && !all_well_formed(tokens@) ==> r is Err
                && r->Err_0 is MalformedPair && exists|j: int|
                is_first_malformed(tokens@, j) && r->Err_0->token@ == tokens@[j]@,
            url_refusal(url@) is None && all_well_formed(tokens@) ==> r is Ok
                && r->Ok_0 is Post && r->Ok_0.url_view() == url@ && pairs_split(
                r->Ok_0.pairs_view(),
                tokens@,
            ),
    {
        let url = match parse_url(url) {
            Ok(url) => url,
            Err(e) => {
                return Err(e);
            },
        };
        match parse_pairs(tokens) {
            Ok(body) => Ok(RequestSpec::Post { url, body }),
            Err(e) => Err(e),
        }
    }

    /// The address that the request goes to.
    pub fn url(&self) -> (r: &String)
        ensures
            r@ == self.url_view(),
    {
        match self {
            RequestSpec::Get { url } => url,
            RequestSpec::Post { url, .. } => url,
        }
    }

    /// The mapping that is sent as the request's body: the pairs collapsed
    /// from left to right, empty for a GET.
    pub fn body(&self) -> (r: Body)
        ensures
            r.wf(),
            r@ == pairs_map(self.pairs_view()),
    {
        match self {
            RequestSpec::Get { .. } => Body::new(),
            RequestSpec::Post { body, .. } => Body::from_pairs(body),
        }
    }
}

} // verus!
