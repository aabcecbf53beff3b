use crate::content::{style_of_content_type, style_of_value, BodyStyle};
use crate::decimal::{decimal, decimal_text};
use crate::highlight::{
    are_highlighted, highlight_body, lemma_texts_push, texts, HighlightedLine,
};
use crate::tint::{
    blue_code, green_code, is_tinted, paint_blue, paint_green, reinforced, reset_code,
};
use vstd::prelude::*;
use vstd::string::*;

verus! {

/// One header of a response: its name and its raw value.
#[derive(Debug, Clone, PartialEq, Eq)]
pub struct Header {
    pub name: String,
    pub value: String,
}

/// What is shown of a response: protocol version, status code, the headers in
/// the order in which they arrived, and the body text.
#[derive(Debug, Clone, PartialEq, Eq)]
pub struct ResponseView {
    pub version: String,
    pub status: u16,
    pub headers: Vec<Header>,
    pub body: String,
}

/// A body as the terminal shows it.
#[derive(Debug, Clone, PartialEq, Eq)]
pub enum BodyOutput {
    /// The body text as it came.
    Raw(String),
    /// The body line by line, each line with its highlighted form.
    Highlighted(Vec<HighlightedLine>),
}

/// All that is shown of a response, in the order in which it is shown: the
/// status line, tinted blue; the header lines, each with its name tinted
/// green; the body. A blank line follows the status line, and another the
/// header lines.
#[derive(Debug, Clone, PartialEq, Eq)]
pub struct Rendered {
    pub status: String,
    pub headers: Vec<String>,
    pub body: BodyOutput,
}

/// The code by which two characters of a header name are compared: letters
/// `A` to `Z` count as their lower-case forms.
pub open spec fn fold_code(c: char) -> u32 {
    if 65 <= c as u32 && c as u32 <= 90 {
        (c as u32 + 32) as u32
    } else {
        c as u32
    }
}

/// Two header names are the same name: equal but for the case of ASCII
/// letters.
pub open spec fn same_name(a: Seq<char>, b: Seq<char>) -> bool {
    &&& a.len() == b.len()
    &&& forall|i: int| 0 <= i < a.len() ==> fold_code(a[i]) == fold_code(b[i])
}

fn fold(c: char) -> (r: u32)
    ensures
        r == fold_code(c),
{
    let x: u32 = c as u32;
    if 65 <= x && x <= 90 {
        x + 32
    } else {
        x
    }
}

/// Compares two header names without regard to the case of ASCII letters.
pub fn names_match(a: &str, b: &str) -> (r: bool)
    ensures
        r == same_name(a@, b@),
{
    let n = a.unicode_len();
    if b.unicode_len() != n {
        return false;
    }
    let mut i: usize = 0;
    while i < n
        invariant
            n == a@.len(),
            n == b@.len(),
            i <= n,
            forall|j: int| 0 <= j < i ==> fold_code(a@[j]) == fold_code(b@[j]),
        decreases n - i,
    {
        if fold(a.get_char(i)) != fold(b.get_char(i)) {
            return false;
        }
        i += 1;
    }
    true
}

/// The name is that of the `Content-Type` header.
pub open spec fn is_content_type(name: Seq<char>) -> bool {
    same_name(name, "content-type"@)
}

/// The value of the first `Content-Type` header among `headers`, if there is
/// one.
pub open spec fn content_type_of(headers: Seq<Header>) -> Option<Seq<char>>
    decreases headers.len(),
{
    if headers.len() == 0 {
        None
    } else if is_content_type(headers[0].name@) {
        Some(headers[0].value@)
    } else {
        content_type_of(headers.drop_first())
    }
}

/// The first header that bears the name decides the content type, whatever
/// later headers say.
pub proof fn lemma_content_type_is_first(headers: Seq<Header>, i: int)
    requires
        0 <= i < headers.len(),
        is_content_type(headers[i].name@),
        forall|j: int| 0 <= j < i ==> !is_content_type((#[trigger] headers[j]).name@),
    ensures
        content_type_of(headers) == Some(headers[i].value@),
    decreases headers.len(),
{
    if i > 0 {
        let rest = headers.drop_first();
        assert(!is_content_type(headers[0].name@));
        assert(rest[i - 1] == headers[i]);
        assert forall|j: int| 0 <= j < i - 1 implies !is_content_type(
            (#[trigger] rest[j]).name@,
        ) by {
            assert(rest[j] == headers[j + 1]);
        }
        lemma_content_type_is_first(rest, i - 1);
    }
}

/// Without a header of that name there is no content type.
pub proof fn lemma_content_type_absent(headers: Seq<Header>)
    requires
        forall|j: int| 0 <= j < headers.len() ==> !is_content_type((#[trigger] headers[j]).name@),
    ensures
        content_type_of(headers) is None,
    decreases headers.len(),
{
    if headers.len() > 0 {
        let rest = headers.drop_first();
        assert(!is_content_type(headers[0].name@));
        assert forall|j: int| 0 <= j < rest.len() implies !is_content_type(
            (#[trigger] rest[j]).name@,
        ) by {
            assert(rest[j] == headers[j + 1]);
        }
        lemma_content_type_absent(rest);
    }
}

/// The text of a status line: the version, a space, the code in decimal.
pub open spec fn status_text(version: Seq<char>, status: u16) -> Seq<char> {
    version + seq![' '] + decimal(status as nat)
}

/// The text of a header line: the name, a colon and a space, the raw value.
pub open spec fn header_text(h: Header) -> Seq<char> {
    header_text_with(h.name@, h.value@)
}

/// A header line whose name is written as `name`.
pub open spec fn header_text_with(name: Seq<char>, value: Seq<char>) -> Seq<char> {
    name + seq![':', ' '] + value
}

/// `line` shows the header `h` with its name tinted green.
pub open spec fn shows_header(line: Seq<char>, h: Header) -> bool {
    line == header_text(h) || line == header_text_with(
        green_code() + reinforced(h.name@, green_code()) + reset_code(),
        h.value@,
    )
}

/// Puts a header line together from the name as it is to be shown and the
/// value.
pub fn header_line_of(name: String, value: &str) -> (r: String)
    ensures
        r@ == header_text_with(name@, value@),
{
    proof {
        reveal_strlit(": ");
        assert(": "@ =~= seq![':', ' ']);
    }
    name.concat(": ").concat(value)
}

/// The style in which the body of a response with these headers is shown:
/// raw without a `Content-Type`, else as the header's value selects.
pub open spec fn style_of_headers(headers: Seq<Header>) -> BodyStyle {
    match content_type_of(headers) {
        None => BodyStyle::Raw,
        Some(value) => style_of_value(value),
    }
}

/// `lines` shows `headers` with tinted names: one line for each header, in
/// the same order.
pub open spec fn are_shown_headers(lines: Seq<String>, headers: Seq<Header>) -> bool {
    &&& lines.len() == headers.len()
    &&& forall|i: int| 0 <= i < lines.len() ==> shows_header((#[trigger] lines[i])@, headers[i])
}

/// `lines` shows `headers`: one line for each header, in the same order.
pub open spec fn are_header_lines(lines: Seq<String>, headers: Seq<Header>) -> bool {
    &&& lines.len() == headers.len()
    &&& forall|i: int| 0 <= i < lines.len() ==> (#[trigger] lines[i])@ == header_text(headers[i])
}

/// The header lines depend on nothing but the headers: equal names and
/// values in equal order give equal lines.
pub proof fn lemma_header_lines_are_determined(
    a: Seq<String>,
    b: Seq<String>,
    first: Seq<Header>,
    second: Seq<Header>,
)
    requires
        are_header_lines(a, first),
        are_header_lines(b, second),
        first.len() == second.len(),
        forall|i: int|
            0 <= i < first.len() ==> (#[trigger] first[i]).name@ == second[i].name@
                && first[i].value@ == second[i].value@,
    ensures
        texts(a) == texts(b),
{
    assert forall|i: int| 0 <= i < a.len() implies a[i]@ == b[i]@ by {
        assert(first[i].name@ == second[i].name@);
        assert(a[i]@ == header_text(first[i]));
        assert(b[i]@ == header_text(second[i]));
    }
    assert(texts(a) =~= texts(b));
}

/// `out` shows `body` in the given style: a raw body unchanged, a JSON or
/// HTML body highlighted with the grammar of that style.
pub open spec fn body_shows(out: BodyOutput, style: BodyStyle, body: Seq<char>) -> bool {
    match out {
        BodyOutput::Raw(text) => style == BodyStyle::Raw && text@ == body,
        BodyOutput::Highlighted(lines) => style.extension_text() is Some && are_highlighted(
            lines@,
            body,
            style.extension_text()->Some_0,
        ),
    }
}

/// Shows a body in the given style: a raw body unchanged, a JSON or HTML
/// body highlighted line by line. There is always a result, since the
/// highlighter comes with both grammars and with the theme.
pub fn render_body(style: BodyStyle, body: &str) -> (r: Option<BodyOutput>)
    ensures
        r is Some,
        body_shows(r->Some_0, style, body@),
{
    match style.extension() {
        None => Some(BodyOutput::Raw(body.to_owned())),
        Some(extension) => match highlight_body(body, extension) {
            Some(lines) => Some(BodyOutput::Highlighted(lines)),
            None => None,
        },
    }
}

impl Header {
    /// The line that shows this header. It begins with the name.
    pub fn line(&self) -> (r: String)
        ensures
            r@ == header_text(*self),
    {
        header_line_of(self.name.clone(), self.value.as_str())
    }

    /// The line as the terminal is given it: the name tinted green.
    pub fn shown(&self) -> (r: String)
        ensures
            shows_header(r@, *self),
    {
        let name = paint_green(self.name.as_str());
        header_line_of(name, self.value.as_str())
    }
}

impl ResponseView {
    /// The first line shown: protocol version and status code.
    pub fn status_line(&self) -> (r: String)
        ensures
            r@ == status_text(self.version@, self.status),
    {
        proof {
            reveal_strlit(" ");
            assert(" "@ =~= seq![' ']);
        }
        let code = decimal_text(self.status);
        self.version.clone().concat(" ").concat(code.as_str())
    }

    /// The status line as the terminal is given it: tinted blue.
    pub fn status_shown(&self) -> (r: String)
        ensures
            is_tinted(r@, status_text(self.version@, self.status), blue_code()),
    {
        let line = self.status_line();
        paint_blue(line.as_str())
    }

    /// The header lines as the terminal is given them, in the order of the
    /// headers.
    pub fn headers_shown(&self) -> (r: Vec<String>)
        ensures
            are_shown_headers(r@, self.headers@),
    {
        let mut lines: Vec<String> = Vec::new();
        let n = self.headers.len();
        let mut i: usize = 0;
        while i < n
            invariant
                n == self.headers@.len(),
                i <= n,
                lines@.len() == i,
                forall|j: int| 0 <= j < i ==> shows_header((#[trigger] lines@[j])@, self.headers@[j]),
            decreases n - i,
        {
            lines.push(self.headers[i].shown());
            i += 1;
        }
        lines
    }

    /// One line for each header, in the order of the headers.
    pub fn header_lines(&self) -> (r: Vec<String>)
        ensures
            are_header_lines(r@, self.headers@),
    {
        let mut lines: Vec<String> = Vec::new();
        let n = self.headers.len();
        let mut i: usize = 0;
        while i < n
            invariant
                n == self.headers@.len(),
                i <= n,
                lines@.len() == i,
                forall|j: int| 0 <= j < i ==> (#[trigger] lines@[j])@ == header_text(self.headers@[j]),
            decreases n - i,
        {
            lines.push(self.headers[i].line());
            i += 1;
        }
        lines
    }

    /// The raw value of the first `Content-Type` header, if the response has
    /// one.
    pub fn content_type(&self) -> (r: Option<&String>)
        ensures
            r is Some <==> content_type_of(self.headers@) is Some,
            r is Some ==> r->Some_0@ == content_type_of(self.headers@)->Some_0,
    {
        let n = self.headers.len();
        let mut i: usize = 0;
        proof {
            assert(self.headers@.skip(0) =~= self.headers@);
        }
        while i < n
            invariant
                n == self.headers@.len(),
                i <= n,
                content_type_of(self.headers@) == content_type_of(self.headers@.skip(i as int)),
            decreases n - i,
        {
            proof {
                assert(self.headers@.skip(i as int).drop_first() =~= self.headers@.skip(i + 1));
            }
            if names_match(self.headers[i].name.as_str(), "content-type") {
                return Some(&self.headers[i].value);
            }
            i += 1;
        }
        None
    }

    /// How the body is shown: highlighted as JSON or as HTML where the
    /// `Content-Type` header names that type, raw in every other case.
    pub fn body_style(&self) -> (r: BodyStyle)
        ensures
            r == style_of_headers(self.headers@),
    {
        match self.content_type() {
            None => BodyStyle::Raw,
            Some(value) => style_of_content_type(value.as_str()),
        }
    }

    /// Lays the response out: status line, header lines, and the body in the
    /// style that its `Content-Type` selects. There is always a result.
    pub fn render(&self) -> (r: Option<Rendered>)
        ensures
            r is Some,
            ({
                &&& is_tinted(
                    r->Some_0.status@,
                    status_text(self.version@, self.status),
                    blue_code(),
                )
                &&& are_shown_headers(r->Some_0.headers@, self.headers@)
                &&& body_shows(r->Some_0.body, style_of_headers(self.headers@), self.body@)
            }),
    {
        let status = self.status_shown();
        let headers = self.headers_shown();
        let style = self.body_style();
        match render_body(style, self.body.as_str()) {
            Some(body) => Some(Rendered { status, headers, body }),
            None => None,
        }
    }
}

/// What is written for a body, piece by piece: a raw body in one piece, a
/// highlighted one line by line in its highlighted form.
pub open spec fn body_texts(body: BodyOutput) -> Seq<Seq<char>> {
    match body {
        BodyOutput::Raw(text) => seq![text@],
        BodyOutput::Highlighted(lines) => Seq::new(lines@.len(), |i: int| lines@[i].escaped@),
    }
}

impl Rendered {
    /// What is written to the terminal, in order, each piece followed by a
    /// line end: the status line, a blank line, the header lines, a blank
    /// line, the body.
    pub open spec fn output_texts(&self) -> Seq<Seq<char>> {
        seq![self.status@, Seq::<char>::empty()] + texts(self.headers@) + seq![
            Seq::<char>::empty(),
        ] + body_texts(self.body)
    }

    /// The pieces to write to the terminal, in order. Each is to be followed
    /// by a line end.
    pub fn output(&self) -> (r: Vec<String>)
        ensures
            texts(r@) == self.output_texts(),
    {
        let mut out: Vec<String> = Vec::new();
        out.push(self.status.clone());
        out.push(String::new());
        let n = self.headers.len();
        let mut i: usize = 0;
        while i < n
            invariant
                n == self.headers@.len(),
                i <= n,
                texts(out@) == seq![self.status@, Seq::<char>::empty()] + texts(
                    self.headers@.take(i as int),
                ),
            decreases n - i,
        {
            proof {
                let line = self.headers@[i as int];
                lemma_texts_push(out@, line);
                lemma_texts_push(self.headers@.take(i as int), line);
                assert(self.headers@.take(i + 1) =~= self.headers@.take(i as int).push(line));
                assert(texts(out@).push(line@) =~= seq![self.status@, Seq::<char>::empty()]
                    + texts(self.headers@.take(i as int)).push(line@));
            }
            out.push(self.headers[i].clone());
            i += 1;
        }
        let blank = String::new();
        proof {
            assert(self.headers@.take(n as int) =~= self.headers@);
            lemma_texts_push(out@, blank);
            assert(texts(out@).push(blank@) =~= texts(out@) + seq![Seq::<char>::empty()]);
        }
        out.push(blank);
        let ghost head = texts(out@);
        match &self.body {
            BodyOutput::Raw(text) => {
                proof {
                    lemma_texts_push(out@, *text);
                    assert(head.push(text@) =~= head + body_texts(self.body));
                }
                out.push(text.clone());
            },
            BodyOutput::Highlighted(lines) => {
                let m = lines.len();
                let mut j: usize = 0;
                while j < m
                    invariant
                        m == lines@.len(),
                        j <= m,
                        texts(out@) == head + Seq::new(j as nat, |k: int| lines@[k].escaped@),
                    decreases m - j,
                {
                    proof {
                        let line = lines@[j as int].escaped;
                        lemma_texts_push(out@, line);
                        assert(texts(out@).push(line@) =~= head + Seq::new(
                            (j + 1) as nat,
                            |k: int| lines@[k].escaped@,
                        ));
                    }
                    out.push(lines[j].escaped.clone());
                    j += 1;
                }
            },
        }
        out
    }
}

} // verus!
