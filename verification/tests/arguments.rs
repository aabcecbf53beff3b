use httpie::body::Body;
use httpie::error::ParseError;
use httpie::kv::{parse_kv_pair, KvPair};
use httpie::request::{default_headers, parse_pairs, RequestSpec};
use httpie::url::{checked_url, parse_url};

fn strings(items: &[&str]) -> Vec<String> {
    items.iter().map(|s| s.to_string()).collect()
}

#[test]
fn pair_is_split_at_the_equals_sign() {
    let pair = parse_kv_pair("a=1").unwrap();
    assert_eq!(pair.k, "a");
    assert_eq!(pair.v, "1");
}

#[test]
fn pair_keeps_later_equals_signs_in_the_value() {
    let pair = KvPair::from_str("a=b=c").unwrap();
    assert_eq!(pair.k, "a");
    assert_eq!(pair.v, "b=c");
}

#[test]
fn pair_may_have_an_empty_key_or_value() {
    let pair = parse_kv_pair("=x").unwrap();
    assert_eq!(pair.k, "");
    assert_eq!(pair.v, "x");
    let pair = parse_kv_pair("key=").unwrap();
    assert_eq!(pair.k, "key");
    assert_eq!(pair.v, "");
    let pair = parse_kv_pair("=").unwrap();
    assert_eq!(pair.k, "");
    assert_eq!(pair.v, "");
}

#[test]
fn pair_with_wide_characters_is_split_by_character() {
    let pair = parse_kv_pair("näme=wért=ü").unwrap();
    assert_eq!(pair.k, "näme");
    assert_eq!(pair.v, "wért=ü");
}

#[test]
fn token_without_equals_sign_is_turned_down() {
    assert_eq!(
        parse_kv_pair("abc"),
        Err(ParseError::MalformedPair { token: "abc".to_string() })
    );
    assert_eq!(
        KvPair::from_str(""),
        Err(ParseError::MalformedPair { token: String::new() })
    );
}

#[test]
fn malformed_pair_message_names_the_token() {
    let e = parse_kv_pair("abc").unwrap_err();
    assert_eq!(e.message(), "Failed to parse abc");
}

#[test]
fn absolute_url_comes_back_unchanged() {
    assert_eq!(parse_url("http://example.com/path"), Ok("http://example.com/path".to_string()));
    assert_eq!(parse_url("HTTP://Example.COM:80/a b"), Ok("HTTP://Example.COM:80/a b".to_string()));
}

#[test]
fn text_without_a_scheme_is_no_url() {
    assert_eq!(
        parse_url("not a url"),
        Err(ParseError::InvalidUrl { diagnostic: "relative URL without a base".to_string() })
    );
    assert!(parse_url("example.com/path").is_err());
    assert!(parse_url("").is_err());
}

#[test]
fn url_without_a_host_is_turned_down() {
    assert_eq!(
        parse_url("http://"),
        Err(ParseError::InvalidUrl { diagnostic: "empty host".to_string() })
    );
}

#[test]
fn url_with_a_broken_scheme_is_turned_down() {
    let e = parse_url("ht!tp://bad").unwrap_err();
    assert!(matches!(e, ParseError::InvalidUrl { .. }));
    assert_eq!(e.message(), "relative URL without a base");
}

#[test]
fn checked_url_follows_the_parser() {
    assert_eq!(checked_url("anything", Ok(true)), Ok("anything".to_string()));
    assert_eq!(
        checked_url("anything", Ok(false)),
        Err(ParseError::InvalidUrl { diagnostic: "empty host".to_string() })
    );
    assert_eq!(
        checked_url("anything", Err("invalid port number".to_string())),
        Err(ParseError::InvalidUrl { diagnostic: "invalid port number".to_string() })
    );
}

#[test]
fn url_that_parses_without_a_host_is_turned_down() {
    assert_eq!(
        parse_url("localhost:8080"),
        Err(ParseError::InvalidUrl { diagnostic: "empty host".to_string() })
    );
    assert!(parse_url("mailto:someone@example.com").is_err());
    assert!(parse_url("file:///tmp/x").is_err());
    assert!(parse_url("data:text/plain,hi").is_err());
    assert_eq!(parse_url("http://localhost:8080"), Ok("http://localhost:8080".to_string()));
    assert!(RequestSpec::get("localhost:8080").is_err());
    let tokens = vec!["a=1".to_string()];
    assert_eq!(
        RequestSpec::post("localhost:8080", &tokens),
        Err(ParseError::InvalidUrl { diagnostic: "empty host".to_string() })
    );
}

#[test]
fn pairs_are_read_in_order() {
    let pairs = parse_pairs(&strings(&["a=1", "b=2", "a=3"])).unwrap();
    assert_eq!(pairs.len(), 3);
    assert_eq!(pairs[0], KvPair { k: "a".to_string(), v: "1".to_string() });
    assert_eq!(pairs[1], KvPair { k: "b".to_string(), v: "2".to_string() });
    assert_eq!(pairs[2], KvPair { k: "a".to_string(), v: "3".to_string() });
    assert_eq!(parse_pairs(&Vec::new()), Ok(Vec::new()));
}

#[test]
fn first_malformed_token_gives_the_error() {
    assert_eq!(
        parse_pairs(&strings(&["a=1", "bad", "worse", "c=3"])),
        Err(ParseError::MalformedPair { token: "bad".to_string() })
    );
}

#[test]
fn post_body_holds_every_key() {
    let spec = RequestSpec::post("http://x/y", &strings(&["a=1", "b=2"])).unwrap();
    assert_eq!(spec.url(), "http://x/y");
    assert!(matches!(spec, RequestSpec::Post { .. }));
    let body = spec.body();
    assert_eq!(body.entries().len(), 2);
    assert_eq!(body.get(&"a".to_string()), Some(&"1".to_string()));
    assert_eq!(body.get(&"b".to_string()), Some(&"2".to_string()));
    assert_eq!(body.get(&"c".to_string()), None);
}

#[test]
fn later_pair_overwrites_earlier_one() {
    let spec = RequestSpec::post("http://x/y", &strings(&["a=1", "b=2", "a=3"])).unwrap();
    let body = spec.body();
    assert_eq!(body.entries().len(), 2);
    assert_eq!(body.get(&"a".to_string()), Some(&"3".to_string()));
    assert_eq!(body.get(&"b".to_string()), Some(&"2".to_string()));
    assert_eq!(body.entries()[0], KvPair { k: "a".to_string(), v: "3".to_string() });
}

#[test]
fn body_insert_sets_and_overwrites() {
    let mut body = Body::new();
    assert_eq!(body.entries().len(), 0);
    body.insert("k".to_string(), "1".to_string());
    body.insert("k".to_string(), "2".to_string());
    body.insert("l".to_string(), "3".to_string());
    assert_eq!(body.entries().len(), 2);
    assert_eq!(body.get(&"k".to_string()), Some(&"2".to_string()));
    assert_eq!(body.get(&"l".to_string()), Some(&"3".to_string()));
}

#[test]
fn post_looks_at_the_url_before_the_pairs() {
    let e = RequestSpec::post("not a url", &strings(&["bad"])).unwrap_err();
    assert!(matches!(e, ParseError::InvalidUrl { .. }));
    let e = RequestSpec::post("http://x/y", &strings(&["a=1", "bad"])).unwrap_err();
    assert_eq!(e, ParseError::MalformedPair { token: "bad".to_string() });
}

#[test]
fn get_with_a_malformed_url_is_turned_down() {
    assert!(RequestSpec::get("ht!tp://bad").is_err());
    let spec = RequestSpec::get("http://example.com/path").unwrap();
    assert_eq!(spec, RequestSpec::Get { url: "http://example.com/path".to_string() });
    assert_eq!(spec.body().entries().len(), 0);
}

#[test]
fn every_request_carries_two_headers() {
    let headers = default_headers();
    assert_eq!(headers.len(), 2);
    assert_eq!(headers[0].name, "X-POWERED-BY");
    assert_eq!(headers[0].value, "Rust");
    assert_eq!(headers[1].name, "user-agent");
    assert_eq!(headers[1].value, "Rust Httpie");
}
