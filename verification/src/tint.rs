use vstd::prelude::*;
use vstd::string::*;

verus! {

/// The escape sequence that turns the foreground blue.
pub open spec fn blue_code() -> Seq<char> {
    seq!['\u{1b}', '[', '3', '4', 'm']
}

/// The escape sequence that turns the foreground green.
pub open spec fn green_code() -> Seq<char> {
    seq!['\u{1b}', '[', '3', '2', 'm']
}

/// The escape sequence that ends a tint.
pub open spec fn reset_code() -> Seq<char> {
    seq!['\u{1b}', '[', '0', 'm']
}

/// `text` with the colour's escape sequence put in again behind every reset
/// sequence that `text` itself holds, so that the colour goes on after it. A
/// text without a reset sequence stays as it is.
pub open spec fn reinforced(text: Seq<char>, code: Seq<char>) -> Seq<char>
    decreases text.len(),
{
    if text.len() < 4 {
        text
    } else if text.take(4) == reset_code() {
        reset_code() + code + reinforced(text.skip(4), code)
    } else {
        seq![text[0]] + reinforced(text.drop_first(), code)
    }
}

/// `out` is `text` as a terminal is given it: unchanged where colours are
/// off; where they are on, between the colour's escape sequence and the
/// reset, with the colour taken up again behind each reset inside.
pub open spec fn is_tinted(out: Seq<char>, text: Seq<char>, code: Seq<char>) -> bool {
    out == text || out == code + reinforced(text, code) + reset_code()
}

/// A text without an escape character is tinted by putting it between the
/// colour's escape sequence and the reset, and in no other way.
pub proof fn lemma_plain_text_is_kept(text: Seq<char>, code: Seq<char>)
    requires
        !text.contains('\u{1b}'),
    ensures
        reinforced(text, code) == text,
    decreases text.len(),
{
    if text.len() >= 4 {
        assert(text[0] != '\u{1b}');
        assert(text.take(4)[0] == text[0]);
        assert(reset_code()[0] == '\u{1b}');
        let rest = text.drop_first();
        assert forall|i: int| 0 <= i < rest.len() implies rest[i] != '\u{1b}' by {
            assert(rest[i] == text[i + 1]);
        }
        lemma_plain_text_is_kept(rest, code);
        assert(seq![text[0]] + rest =~= text);
    }
}

/// Formats `text` through `colored::Colorize::blue`. Whether colours are on
/// is a matter of the environment and of the terminal, so the text comes
/// back either unchanged or between the escape sequence for blue and the
/// reset. Behind each reset sequence that the text itself holds the crate
/// puts the escape sequence for blue again. This holds as long as no other
/// thread switches colours on or off while the text is formatted.
#[verifier::external_body]
pub(crate) fn paint_blue(text: &str) -> (r: String)
    ensures
        is_tinted(r@, text@, blue_code()),
{
    colored::Colorize::blue(text).to_string()
}

/// Formats `text` through `colored::Colorize::green`; as `paint_blue`, with
/// the escape sequence for green.
#[verifier::external_body]
pub(crate) fn paint_green(text: &str) -> (r: String)
    ensures
        is_tinted(r@, text@, green_code()),
{
    colored::Colorize::green(text).to_string()
}

} // verus!
