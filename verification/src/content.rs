use vstd::prelude::*;
use vstd::string::*;

verus! {

/// How a response body is shown.
#[derive(Debug, Clone, Copy, PartialEq, Eq, Structural)]
pub enum BodyStyle {
    /// Highlighted with the JSON grammar.
    Json,
    /// Highlighted with the HTML grammar.
    Html,
    /// Printed as it came.
    Raw,
}

/// What the MIME parser makes of `value`: `None` where it reads no media
/// type from it, else whether that type equals `application/json`, and
/// whether it equals `text/html`.
pub uninterp spec fn mime_comparison(value: Seq<char>) -> Option<(bool, bool)>;

/// Parses `value` with `mime::Mime::from_str` and compares what came out, by
/// `Mime`'s own `==`, first with `mime::APPLICATION_JSON` and then with
/// `mime::TEXT_HTML`. `None` stands for a value that the parser turned down.
/// Parsing and comparing read their arguments alone.
#[verifier::external_body]
fn compare_mime(value: &str) -> (r: Option<(bool, bool)>)
    ensures
        r == mime_comparison(value@),
{
    match value.parse::<mime::Mime>() {
        Ok(m) => Some((m == mime::APPLICATION_JSON, m == mime::TEXT_HTML)),
        Err(_) => None,
    }
}

/// The style that two comparisons select: JSON where the first holds, HTML
/// where only the second does, else the raw body. A value that did not parse
/// counts as no known type.
pub open spec fn style_for(json: Option<bool>, html: Option<bool>) -> BodyStyle {
    if json == Some(true) {
        BodyStyle::Json
    } else if html == Some(true) {
        BodyStyle::Html
    } else {
        BodyStyle::Raw
    }
}

/// The style of a body whose `Content-Type` has the given text.
pub open spec fn style_of_value(value: Seq<char>) -> BodyStyle {
    match mime_comparison(value) {
        Some((json, html)) => style_for(Some(json), Some(html)),
        None => BodyStyle::Raw,
    }
}

/// Selects the style once the media type has been compared.
pub fn select_style(json: Option<bool>, html: Option<bool>) -> (r: BodyStyle)
    ensures
        r == style_for(json, html),
{
    match json {
        Some(true) => BodyStyle::Json,
        _ => match html {
            Some(true) => BodyStyle::Html,
            _ => BodyStyle::Raw,
        },
    }
}

/// The style of a body whose `Content-Type` header reads `value`.
pub fn style_of_content_type(value: &str) -> (r: BodyStyle)
    ensures
        r == style_of_value(value@),
{
    match compare_mime(value) {
        Some((json, html)) => select_style(Some(json), Some(html)),
        None => BodyStyle::Raw,
    }
}

impl BodyStyle {
    /// The file extension by which the grammar is looked up; none for a raw
    /// body.
    pub open spec fn extension_text(&self) -> Option<Seq<char>> {
        match self {
            BodyStyle::Json => Some("json"@),
            BodyStyle::Html => Some("html"@),
            BodyStyle::Raw => None,
        }
    }

    /// The file extension by which the grammar of this style is looked up.
    pub fn extension(&self) -> (r: Option<&'static str>)
        ensures
            r is Some <==> self.extension_text() is Some,
            r is Some ==> r->Some_0@ == self.extension_text()->Some_0,
    {
        match self {
            BodyStyle::Json => Some("json"),
            BodyStyle::Html => Some("html"),
            BodyStyle::Raw => None,
        }
    }
}

} // verus!
