use crate::decimal::decimal;
use vstd::prelude::*;
use vstd::string::*;

verus! {

/// The grammars and the colour themes that come with `syntect`, as its two
/// loading functions hand them out. A value is made by `load_bundled` only,
/// so it never holds any other set.
#[verifier::external_body]
pub struct Bundled {
    syntaxes: syntect::parsing::SyntaxSet,
    themes: syntect::highlighting::ThemeSet,
}

/// `syntect`'s line highlighter together with the grammar set that its
/// grammar stems from. A value is made by `start` only, from bundled sets,
/// so the highlighter is never used with a set that is not its own.
#[verifier::external_body]
pub struct LineHighlighter<'a> {
    syntaxes: &'a syntect::parsing::SyntaxSet,
    lines: syntect::easy::HighlightLines<'a>,
}

/// A line of a body with the form in which the terminal shows it.
#[derive(Debug, Clone, PartialEq, Eq)]
pub struct HighlightedLine {
    /// The line as it stands in the body, its line end included.
    pub source: String,
    /// The line with colour escape sequences put in.
    pub escaped: String,
}

/// The lines put one behind the other.
pub open spec fn joined(lines: Seq<String>) -> Seq<char>
    decreases lines.len(),
{
    if lines.len() == 0 {
        Seq::empty()
    } else {
        joined(lines.drop_last()) + lines.last()@
    }
}

/// `lines` is `text` cut behind each line feed: joined they give `text`, no
/// line is empty, a line feed stands only at a line's end, and every line but
/// the last has one there.
pub open spec fn is_line_split(lines: Seq<String>, text: Seq<char>) -> bool {
    &&& joined(lines) == text
    &&& forall|i: int| 0 <= i < lines.len() ==> (#[trigger] lines[i])@.len() > 0
    &&& forall|i: int, j: int|
        0 <= i < lines.len() && 0 <= j < lines[i]@.len() - 1 ==> (#[trigger] lines[i]@[j]) != '\n'
    &&& forall|i: int| 0 <= i < lines.len() - 1 ==> (#[trigger] lines[i])@.last() == '\n'
}

/// A text has one line split only: two splits of the same text have the same
/// lines.
pub proof fn lemma_line_split_is_unique(a: Seq<String>, b: Seq<String>, text: Seq<char>)
    requires
        is_line_split(a, text),
        is_line_split(b, text),
    ensures
        a.len() == b.len(),
        forall|i: int| 0 <= i < a.len() ==> (#[trigger] a[i])@ == b[i]@,
    decreases a.len(),
{
    if a.len() == 0 || b.len() == 0 {
        if a.len() > 0 {
            assert(a[a.len() - 1]@.len() > 0);
        }
        if b.len() > 0 {
            assert(b[b.len() - 1]@.len() > 0);
        }
    } else {
        let n = text.len() as int;
        let fa = a.drop_last();
        let fb = b.drop_last();
        let la = a[a.len() - 1]@;
        let lb = b[b.len() - 1]@;
        let pa = n - la.len();
        let pb = n - lb.len();
        assert(la.len() > 0 && lb.len() > 0);
        assert(joined(fa).len() == pa && joined(fb).len() == pb);
        if pa < pb {
            lemma_last_line_start(a, text, pb);
            lemma_front_ends_in_line_feed(b, text);
        }
        if pb < pa {
            lemma_last_line_start(b, text, pa);
            lemma_front_ends_in_line_feed(a, text);
        }
        assert(pa == pb);
        assert(la =~= text.subrange(pa, n));
        assert(lb =~= text.subrange(pb, n));
        assert(joined(fa) =~= text.take(pa));
        assert(joined(fb) =~= text.take(pb));
        assert(is_line_split(fa, text.take(pa))) by {
            assert forall|i: int, j: int| 0 <= i < fa.len() && 0 <= j < fa[i]@.len() - 1 implies (
            #[trigger] fa[i]@[j]) != '\n' by {
                assert(a[i]@[j] != '\n');
            }
            assert forall|i: int| 0 <= i < fa.len() - 1 implies (#[trigger] fa[i])@.last()
                == '\n' by {
                assert(a[i]@.last() == '\n');
            }
        }
        assert(is_line_split(fb, text.take(pa))) by {
            assert forall|i: int, j: int| 0 <= i < fb.len() && 0 <= j < fb[i]@.len() - 1 implies (
            #[trigger] fb[i]@[j]) != '\n' by {
                assert(b[i]@[j] != '\n');
            }
            assert forall|i: int| 0 <= i < fb.len() - 1 implies (#[trigger] fb[i])@.last()
                == '\n' by {
                assert(b[i]@.last() == '\n');
            }
        }
        lemma_line_split_is_unique(fa, fb, text.take(pa));
        assert forall|i: int| 0 <= i < a.len() implies (#[trigger] a[i])@ == b[i]@ by {
            if i < a.len() - 1 {
                assert(fa[i]@ == fb[i]@);
            }
        }
    }
}

/// No line feed stands inside the last line but at its end.
proof fn lemma_last_line_start(a: Seq<String>, text: Seq<char>, p: int)
    requires
        is_line_split(a, text),
        a.len() > 0,
        text.len() - a[a.len() - 1]@.len() < p < text.len(),
    ensures
        text[p - 1] != '\n',
{
    let last = a[a.len() - 1]@;
    let start = text.len() - last.len();
    assert(joined(a.drop_last()).len() == start);
    assert(text[p - 1] == last[p - 1 - start]);
    assert(a[a.len() - 1]@[p - 1 - start] != '\n');
}

/// Where lines stand before the last one, a line feed stands right before
/// it.
proof fn lemma_front_ends_in_line_feed(a: Seq<String>, text: Seq<char>)
    requires
        is_line_split(a, text),
        a.len() > 0,
        text.len() - a[a.len() - 1]@.len() > 0,
    ensures
        text[text.len() - a[a.len() - 1]@.len() - 1] == '\n',
{
    let front = a.drop_last();
    let start = text.len() - a[a.len() - 1]@.len();
    assert(joined(front).len() == start);
    assert(front.len() > 0);
    let before = front[front.len() - 1];
    assert(before == a[a.len() - 2]);
    assert(a[a.len() - 2]@.last() == '\n');
    assert(before@.len() > 0);
    assert(joined(front) == joined(front.drop_last()) + before@);
    assert(text[start - 1] == joined(front)[start - 1]);
}

/// The escape sequence that sets a colour by its red, green and blue parts:
/// the foreground on layer `38`, the background on layer `48`.
pub open spec fn colour_code(layer: Seq<char>, red: u8, green: u8, blue: u8) -> Seq<char> {
    seq!['\u{1b}', '['] + layer + seq![';', '2', ';'] + decimal(red as nat) + seq![';'] + decimal(
        green as nat,
    ) + seq![';'] + decimal(blue as nat) + seq!['m']
}

/// The escape sequence that sets the background to a colour.
pub open spec fn background_code(red: u8, green: u8, blue: u8) -> Seq<char> {
    colour_code(seq!['4', '8'], red, green, blue)
}

/// The escape sequence that sets the foreground to a colour.
pub open spec fn foreground_code(red: u8, green: u8, blue: u8) -> Seq<char> {
    colour_code(seq!['3', '8'], red, green, blue)
}

/// `prefix` sets a background colour and then a foreground colour.
pub open spec fn is_colour_prefix(prefix: Seq<char>) -> bool {
    exists|br: u8, bg: u8, bb: u8, fr: u8, fg: u8, fb: u8|
        prefix == #[trigger] background_code(br, bg, bb) + #[trigger] foreground_code(fr, fg, fb)
}

/// The texts of pieces, each a colour prefix with a text, one behind the
/// other.
pub open spec fn pieces_text(pieces: Seq<(Seq<char>, Seq<char>)>) -> Seq<char>
    decreases pieces.len(),
{
    if pieces.len() == 0 {
        Seq::empty()
    } else {
        pieces_text(pieces.drop_last()) + pieces.last().1
    }
}

/// The pieces as the terminal is given them: each text behind its colour
/// prefix.
pub open spec fn pieces_escaped(pieces: Seq<(Seq<char>, Seq<char>)>) -> Seq<char>
    decreases pieces.len(),
{
    if pieces.len() == 0 {
        Seq::empty()
    } else {
        pieces_escaped(pieces.drop_last()) + pieces.last().0 + pieces.last().1
    }
}

/// `escaped` is `line` cut into pieces that are not empty, each behind an
/// escape sequence for its background and one for its foreground. Nothing of
/// the line is lost, changed or moved.
pub open spec fn is_escaped_form(escaped: Seq<char>, line: Seq<char>) -> bool {
    exists|pieces: Seq<(Seq<char>, Seq<char>)>|
        {
            &&& forall|i: int|
                0 <= i < pieces.len() ==> is_colour_prefix((#[trigger] pieces[i]).0)
                    && pieces[i].1.len() > 0
            &&& pieces_text(pieces) == line
            &&& #[trigger] pieces_escaped(pieces) == escaped
        }
}

/// The texts of some lines.
pub open spec fn texts(lines: Seq<String>) -> Seq<Seq<char>> {
    Seq::new(lines.len(), |i: int| lines[i]@)
}

/// The texts of lines with one more line are the texts with one more text.
pub proof fn lemma_texts_push(lines: Seq<String>, line: String)
    ensures
        texts(lines.push(line)) == texts(lines).push(line@),
{
    assert(texts(lines.push(line)) =~= texts(lines).push(line@));
}

/// The escaped form that the bundled grammar for `extension` and the bundled
/// theme `theme` give to `line` when the lines `before` went before it in
/// the same text.
pub uninterp spec fn escaped_line(
    extension: Seq<char>,
    theme: Seq<char>,
    before: Seq<Seq<char>>,
    line: Seq<char>,
) -> Seq<char>;

/// `lines` is `body` highlighted with the grammar for `extension`: the source
/// lines are the line split of the body, and each line's escaped form is its
/// source between colour sequences, coloured as that grammar and the theme
/// colour it behind the lines before it.
pub open spec fn are_highlighted(
    lines: Seq<HighlightedLine>,
    body: Seq<char>,
    extension: Seq<char>,
) -> bool {
    &&& is_line_split(sources(lines), body)
    &&& forall|i: int|
        0 <= i < lines.len() ==> is_escaped_form((#[trigger] lines[i]).escaped@, lines[i].source@)
    &&& forall|i: int|
        0 <= i < lines.len() ==> (#[trigger] lines[i]).escaped@ == escaped_line(
            extension,
            theme_name(),
            texts(sources(lines).take(i)),
            lines[i].source@,
        )
}

/// Highlighting is a function of body and extension: two highlighted forms
/// of the same body under the same extension agree line by line, in source
/// and in escaped form.
pub proof fn lemma_highlighting_is_determined(
    a: Seq<HighlightedLine>,
    b: Seq<HighlightedLine>,
    body: Seq<char>,
    extension: Seq<char>,
)
    requires
        are_highlighted(a, body, extension),
        are_highlighted(b, body, extension),
    ensures
        a.len() == b.len(),
        forall|i: int|
            0 <= i < a.len() ==> (#[trigger] a[i]).source@ == b[i].source@ && a[i].escaped@
                == b[i].escaped@,
{
    lemma_line_split_is_unique(sources(a), sources(b), body);
    assert forall|i: int| 0 <= i < a.len() implies (#[trigger] a[i]).source@ == b[i].source@
        && a[i].escaped@ == b[i].escaped@ by {
        assert(sources(a)[i]@ == sources(b)[i]@);
        assert(texts(sources(a).take(i)) =~= texts(sources(b).take(i))) by {
            assert forall|k: int| 0 <= k < i implies sources(a).take(i)[k]@ == sources(b).take(
                i,
            )[k]@ by {
                assert(sources(a)[k]@ == sources(b)[k]@);
            }
        }
        assert(b[i].escaped@ == escaped_line(
            extension,
            theme_name(),
            texts(sources(b).take(i)),
            b[i].source@,
        ));
    }
}

/// The source lines of highlighted lines.
pub open spec fn sources(lines: Seq<HighlightedLine>) -> Seq<String> {
    lines.map_values(|l: HighlightedLine| l.source)
}

/// Walks `syntect::util::LinesWithEndings` over `text` and copies each line
/// that it hands out. That iterator cuts behind each line feed and hands out
/// what is left at the end, if anything, as the last line.
#[verifier::external_body]
fn lines_with_endings(text: &str) -> (r: Vec<String>)
    ensures
        is_line_split(r@, text@),
{
    syntect::util::LinesWithEndings::from(text).map(|line| line.to_string()).collect()
}

/// The file extensions that the grammars of the bundled set list.
pub uninterp spec fn grammar_extensions(bundled: Bundled) -> Set<Seq<char>>;

/// The names under which the bundled theme set holds its themes.
pub uninterp spec fn theme_names(bundled: Bundled) -> Set<Seq<char>>;

/// The extension by which the highlighter's grammar was looked up.
pub uninterp spec fn grammar_of(highlighter: LineHighlighter<'_>) -> Seq<char>;

/// The name by which the highlighter's theme was looked up.
pub uninterp spec fn theme_of(highlighter: LineHighlighter<'_>) -> Seq<char>;

/// The lines that the highlighter has been given since it was made, in
/// order.
pub uninterp spec fn lines_given(highlighter: LineHighlighter<'_>) -> Seq<Seq<char>>;

/// The name of the theme that bodies are highlighted with.
pub open spec fn theme_name() -> Seq<char> {
    "base16-ocean.dark"@
}

/// Calls `SyntaxSet::load_defaults_newlines` and `ThemeSet::load_defaults`:
/// the grammars, for lines that keep their line ends, and the themes that
/// come with `syntect`. Both are read from dumps that are part of the crate.
/// Among the grammars one lists the extension `json` and one the extension
/// `html`; the documentation of the themes lists `base16-ocean.dark`.
#[verifier::external_body]
fn load_bundled() -> (r: Bundled)
    ensures
        grammar_extensions(r).contains("json"@),
        grammar_extensions(r).contains("html"@),
        theme_names(r).contains(theme_name()),
{
    Bundled {
        syntaxes: syntect::parsing::SyntaxSet::load_defaults_newlines(),
        themes: syntect::highlighting::ThemeSet::load_defaults(),
    }
}

/// Looks the grammar up with `SyntaxSet::find_syntax_by_extension` and the
/// theme in the public map `themes` of the theme set, and makes a highlighter
/// from the two with `HighlightLines::new`. There is one exactly when some
/// grammar lists `extension` and the map holds `theme`. It stands at the
/// start of a text and keeps the set that its grammar stems from.
#[verifier::external_body]
fn start<'a>(bundled: &'a Bundled, extension: &str, theme: &str) -> (r: Option<
    LineHighlighter<'a>,
>)
    ensures
        r is Some <==> (grammar_extensions(*bundled).contains(extension@) && theme_names(
            *bundled,
        ).contains(theme@)),
        r is Some ==> grammar_of(r->Some_0) == extension@ && theme_of(r->Some_0) == theme@
            && lines_given(r->Some_0) == Seq::<Seq<char>>::empty(),
{
    let syntax = bundled.syntaxes.find_syntax_by_extension(extension)?;
    let theme = bundled.themes.themes.get(theme)?;
    let lines = syntect::easy::HighlightLines::new(syntax, theme);
    Some(LineHighlighter { syntaxes: &bundled.syntaxes, lines })
}

/// Calls `HighlightLines::highlight` on one line, with the highlighter's own
/// grammar set, and hands the styled pieces to
/// `syntect::util::as_24_bit_terminal_escaped`, with the background set. The
/// pieces, put together, make the line, and none is empty; the formatter
/// writes for each the escape sequence of its background, that of its
/// foreground, and its text. The colours follow from the grammar, the theme,
/// the lines given before and the line, and from nothing else.
#[verifier::external_body]
fn next_line(highlighter: &mut LineHighlighter<'_>, line: &str) -> (r: String)
    ensures
        grammar_of(*final(highlighter)) == grammar_of(*old(highlighter)),
        theme_of(*final(highlighter)) == theme_of(*old(highlighter)),
        lines_given(*final(highlighter)) == lines_given(*old(highlighter)).push(line@),
        is_escaped_form(r@, line@),
        r@ == escaped_line(
            grammar_of(*old(highlighter)),
            theme_of(*old(highlighter)),
            lines_given(*old(highlighter)),
            line@,
        ),
{
    let ranges = highlighter.lines.highlight(line, highlighter.syntaxes);
    syntect::util::as_24_bit_terminal_escaped(&ranges[..], true)
}

/// Highlights a body line by line with the grammar that `extension` names and
/// the theme `base16-ocean.dark`, both from the sets that come with the
/// highlighter. Those sets hold the theme and the grammars for `json` and
/// `html`, so for these two extensions there is always a result; for another
/// extension there is one if the sets hold a grammar for it. Each line of the
/// body, its line end included, gives one line of the result, in order, with
/// the line's text between colour sequences.
pub fn highlight_body(body: &str, extension: &str) -> (r: Option<Vec<HighlightedLine>>)
    ensures
        extension@ == "json"@ || extension@ == "html"@ ==> r is Some,
        r is Some ==> are_highlighted(r->Some_0@, body@, extension@),
{
    let bundled = load_bundled();
    let mut highlighter = match start(&bundled, extension, "base16-ocean.dark") {
        Some(highlighter) => highlighter,
        None => {
            return None;
        },
    };
    let lines = lines_with_endings(body);
    let mut out: Vec<HighlightedLine> = Vec::new();
    let n = lines.len();
    let mut i: usize = 0;
    proof {
        assert(texts(lines@.take(0)) =~= Seq::<Seq<char>>::empty());
    }
    while i < n
        invariant
            n == lines@.len(),
            i <= n,
            out@.len() == i,
            grammar_of(highlighter) == extension@,
            theme_of(highlighter) == theme_name(),
            lines_given(highlighter) == texts(lines@.take(i as int)),
            forall|j: int| 0 <= j < i ==> (#[trigger] out@[j]).source == lines@[j],
            forall|j: int|
                0 <= j < i ==> is_escaped_form((#[trigger] out@[j]).escaped@, out@[j].source@),
            forall|j: int|
                0 <= j < i ==> (#[trigger] out@[j]).escaped@ == escaped_line(
                    extension@,
                    theme_name(),
                    texts(lines@.take(j)),
                    lines@[j]@,
                ),
        decreases n - i,
    {
        proof {
            lemma_texts_push(lines@.take(i as int), lines@[i as int]);
            assert(lines@.take(i + 1) =~= lines@.take(i as int).push(lines@[i as int]));
        }
        let escaped = next_line(&mut highlighter, lines[i].as_str());
        out.push(HighlightedLine { source: lines[i].clone(), escaped });
        i += 1;
    }
    proof {
        assert(sources(out@) =~= lines@);
    }
    Some(out)
}

} // verus!
