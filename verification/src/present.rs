//! The presentation layer: what is shown for a result, as plain text or
//! with the search text and the file name painted.
//!
//! Nothing is printed here. Each function gives the text to print, so that
//! the same result can go to a terminal, a file or a test.

use crate::search::SearchResult;
use crate::text::{chars_of, has_substring, occurs_at, occurs_at_position};
use crate::window::WindowModel;
use colored::Colorize;
use vstd::prelude::*;

verus! {

/// The colours that the presentation paints with.
#[derive(Clone, Copy, Debug, PartialEq, Eq, Structural)]
pub enum Color {
    /// For the search text.
    Red,
    /// For the file name.
    Green,
}

/// The escape sequence that switches the terminal to `color`.
pub open spec fn color_on(color: Color) -> Seq<char> {
    match color {
        Color::Red => "\x1B[31m"@,
        Color::Green => "\x1B[32m"@,
    }
}

/// The escape sequence that switches the terminal back.
pub open spec fn color_off() -> Seq<char> {
    "\x1B[0m"@
}

/// `text` between the two escape sequences for `color`.
pub open spec fn wrapped(text: Seq<char>, color: Color) -> Seq<char> {
    color_on(color) + text + color_off()
}

/// `out` is what painting `text` in `color` may give: `text` itself where
/// colours are switched off, `text` between the two escape sequences where
/// they are on. Where `text` itself holds the sequence that switches back,
/// the colour is switched on again after each of them, so that the whole
/// text is shown in it.
pub open spec fn painted(text: Seq<char>, color: Color, out: Seq<char>) -> bool {
    out == text || out == wrapped(
        replace_all(text, color_off(), color_off() + color_on(color)),
        color,
    )
}

/// Paints `text` in `color` with `colored::Colorize::color` and formats the
/// coloured string.
///
/// Whether the crate colours at all depends on the terminal, on the
/// environment and on its own override switch, which is not to be turned
/// while the call runs. So the contract allows both outcomes: the text
/// unchanged, or the text between `ESC[31m` (red) or `ESC[32m` (green) and
/// `ESC[0m`, with the colour put in again after each `ESC[0m` that the text
/// holds.
#[verifier::external_body]
fn paint(text: &str, color: Color) -> (out: String)
    ensures
        painted(text@, color, out@),
{
    let shade = match color {
        Color::Red => colored::Color::Red,
        Color::Green => colored::Color::Green,
    };
    text.color(shade).to_string()
}

/// Painting a text that holds no escape sequence that switches back gives
/// the text itself or the text between the two escape sequences.
pub proof fn lemma_painted_plain_text(text: Seq<char>, color: Color, out: Seq<char>)
    requires
        painted(text, color, out),
        !has_substring(text, color_off()),
    ensures
        out == text || out == wrapped(text, color),
{
    lemma_replace_without_occurrence(text, color_off(), color_off() + color_on(color));
}

/// `text` with each occurrence of `pattern` replaced by `with`, found from
/// left to right, an occurrence beginning only after the one before it has
/// ended. The empty pattern occurs before each character and at the end.
pub open spec fn replace_all(text: Seq<char>, pattern: Seq<char>, with: Seq<char>) -> Seq<char>
    decreases text.len(),
{
    if pattern.len() == 0 {
        if text.len() == 0 {
            with
        } else {
            with + seq![text[0]] + replace_all(text.skip(1), pattern, with)
        }
    } else if text.len() < pattern.len() {
        text
    } else if text.subrange(0, pattern.len() as int) == pattern {
        with + replace_all(text.skip(pattern.len() as int), pattern, with)
    } else {
        seq![text[0]] + replace_all(text.skip(1), pattern, with)
    }
}

/// Replacing a pattern by itself changes nothing.
pub proof fn lemma_replace_by_itself(text: Seq<char>, pattern: Seq<char>)
    ensures
        replace_all(text, pattern, pattern) == text,
    decreases text.len(),
{
    if pattern.len() == 0 {
        if text.len() > 0 {
            lemma_replace_by_itself(text.skip(1), pattern);
            assert(pattern + seq![text[0]] + text.skip(1) =~= text);
        } else {
            assert(pattern =~= text);
        }
    } else if text.len() < pattern.len() {
    } else if text.subrange(0, pattern.len() as int) == pattern {
        lemma_replace_by_itself(text.skip(pattern.len() as int), pattern);
        assert(text.subrange(0, pattern.len() as int) + text.skip(pattern.len() as int) =~= text);
    } else {
        lemma_replace_by_itself(text.skip(1), pattern);
        assert(seq![text[0]] + text.skip(1) =~= text);
    }
}

/// A text that does not hold the pattern is left as it is.
pub proof fn lemma_replace_without_occurrence(
    text: Seq<char>,
    pattern: Seq<char>,
    with: Seq<char>,
)
    requires
        !has_substring(text, pattern),
    ensures
        replace_all(text, pattern, with) == text,
    decreases text.len(),
{
    if pattern.len() == 0 {
        assert(text.subrange(0, 0) =~= pattern);
        assert(occurs_at(text, pattern, 0));
    } else if text.len() < pattern.len() {
    } else {
        let rest = text.skip(1);
        assert(!occurs_at(text, pattern, 0));
        assert(!has_substring(rest, pattern)) by {
            if has_substring(rest, pattern) {
                let at = choose|at: int| occurs_at(rest, pattern, at);
                assert(rest.subrange(at, at + pattern.len()) =~= text.subrange(
                    at + 1,
                    at + 1 + pattern.len(),
                ));
                assert(occurs_at(text, pattern, at + 1));
            }
        }
        lemma_replace_without_occurrence(rest, pattern, with);
        assert(seq![text[0]] + rest =~= text);
    }
}

/// `with` before each character of `text` and at its end: what replacing
/// the empty pattern gives.
fn interleave(text: &[char], with: &str) -> (out: String)
    ensures
        out@ == replace_all(text@, Seq::<char>::empty(), with@),
{
    let ghost nothing = Seq::<char>::empty();
    let mut out = String::new();
    let mut at: usize = 0;
    proof {
        assert(text@.skip(0) =~= text@);
        assert(out@ + replace_all(text@, nothing, with@) =~= replace_all(text@, nothing, with@));
    }
    while at < text.len()
        invariant
            at <= text.len(),
            nothing == Seq::<char>::empty(),
            out@ + replace_all(text@.skip(at as int), nothing, with@) == replace_all(
                text@,
                nothing,
                with@,
            ),
        decreases text.len() - at,
    {
        let ghost rest = text@.skip(at as int);
        let ghost done = out@;
        proof {
            assert(rest.skip(1) =~= text@.skip(at + 1));
            assert((done + with@).push(text@[at as int]) + replace_all(rest.skip(1), nothing, with@)
                =~= done + (with@ + seq![rest[0]] + replace_all(rest.skip(1), nothing, with@)));
        }
        out.append(with);
        out.push(text[at]);
        at += 1;
    }
    out.append(with);
    out
}

/// `text` with each occurrence of `pattern` replaced by `with`, as
/// `str::replace` gives it.
pub fn replace_occurrences(text: &str, pattern: &str, with: &str) -> (out: String)
    ensures
        out@ == replace_all(text@, pattern@, with@),
{
    let hay = chars_of(text);
    let needle = chars_of(pattern);
    if needle.len() == 0 {
        assert(pattern@ =~= Seq::<char>::empty());
        return interleave(hay.as_slice(), with);
    }
    let mut out = String::new();
    let mut at: usize = 0;
    proof {
        assert(hay@.skip(0) =~= hay@);
        assert(out@ + replace_all(hay@, needle@, with@) =~= replace_all(hay@, needle@, with@));
    }
    while at < hay.len()
        invariant
            at <= hay.len(),
            needle@.len() > 0,
            hay@ == text@,
            needle@ == pattern@,
            out@ + replace_all(hay@.skip(at as int), needle@, with@) == replace_all(
                hay@,
                needle@,
                with@,
            ),
        decreases hay.len() - at,
    {
        let ghost rest = hay@.skip(at as int);
        let ghost done = out@;
        if hay.len() - at >= needle.len() && occurs_at_position(
            hay.as_slice(),
            needle.as_slice(),
            at,
        ) {
            proof {
                assert(rest.subrange(0, needle@.len() as int) =~= hay@.subrange(
                    at as int,
                    at + needle@.len(),
                ));
                assert(rest.skip(needle@.len() as int) =~= hay@.skip(at + needle@.len()));
                assert((done + with@) + replace_all(
                    rest.skip(needle@.len() as int),
                    needle@,
                    with@,
                ) =~= done + (with@ + replace_all(
                    rest.skip(needle@.len() as int),
                    needle@,
                    with@,
                )));
            }
            out.append(with);
            at += needle.len();
        } else {
            proof {
                if rest.len() >= needle@.len() {
                    assert(rest.subrange(0, needle@.len() as int) =~= hay@.subrange(
                        at as int,
                        at + needle@.len(),
                    ));
                }
                assert(rest.skip(1) =~= hay@.skip(at + 1));
                assert(seq![rest[0]] + rest.skip(1) =~= rest);
                assert(done.push(hay@[at as int]) + replace_all(rest.skip(1), needle@, with@)
                    =~= done + (seq![rest[0]] + replace_all(rest.skip(1), needle@, with@)));
            }
            out.push(hay[at]);
            at += 1;
        }
    }
    assert(out@ + Seq::<char>::empty() =~= out@);
    out
}

/// `full_text` with each occurrence of `text_to_highlight` painted in
/// `color`.
///
/// What painting gives depends on whether colours are on (see `painted`):
/// the result is `full_text` with each occurrence replaced by one and the
/// same painted form of `text_to_highlight`.
pub fn highlight_text(full_text: &str, text_to_highlight: &str, color: Color) -> (out: String)
    ensures
        exists|replacement: Seq<char>|
            painted(text_to_highlight@, color, replacement) && out@ == replace_all(
                full_text@,
                text_to_highlight@,
                replacement,
            ),
{
    let replacement = paint(text_to_highlight, color);
    replace_occurrences(full_text, text_to_highlight, replacement.as_str())
}

/// The heading of a result: which text was found in which file, the two
/// as they are shown.
pub open spec fn header_text(text_shown: Seq<char>, file_shown: Seq<char>) -> Seq<char> {
    "\nText '"@ + text_shown + "' found in file: "@ + file_shown + "\n\n"@
}

/// The lines one below the other, each ended by a line break.
pub open spec fn lines_text(shown: Seq<Seq<char>>) -> Seq<char>
    decreases shown.len(),
{
    if shown.len() == 0 {
        Seq::empty()
    } else {
        lines_text(shown.drop_last()) + shown.last().push('\n')
    }
}

/// The lines with `text` replaced by `text_shown` in each.
pub open spec fn highlighted(lines: Seq<Seq<char>>, text: Seq<char>, text_shown: Seq<char>) -> Seq<
    Seq<char>,
> {
    Seq::new(lines.len(), |i: int| replace_all(lines[i], text, text_shown))
}

/// One window as it is shown: its lines between two rules, the search text
/// shown as `text_shown`.
pub open spec fn block_text(lines: Seq<Seq<char>>, text: Seq<char>, text_shown: Seq<char>) -> Seq<
    char,
> {
    "---\n"@ + lines_text(highlighted(lines, text, text_shown)) + "---\n\n"@
}

/// The windows as they are shown, one below the other in their order.
pub open spec fn blocks_text(
    windows: Seq<WindowModel>,
    text: Seq<char>,
    text_shown: Seq<char>,
) -> Seq<char>
    decreases windows.len(),
{
    if windows.len() == 0 {
        Seq::empty()
    } else {
        blocks_text(windows.drop_last(), text, text_shown) + block_text(
            windows.last().lines,
            text,
            text_shown,
        )
    }
}

/// One window under its heading.
pub open spec fn window_text(
    lines: Seq<Seq<char>>,
    file_shown: Seq<char>,
    text: Seq<char>,
    text_shown: Seq<char>,
) -> Seq<char> {
    header_text(text_shown, file_shown) + block_text(lines, text, text_shown)
}

/// A result as it is shown: the heading once, then each window.
pub open spec fn result_text(
    windows: Seq<WindowModel>,
    file_shown: Seq<char>,
    text: Seq<char>,
    text_shown: Seq<char>,
) -> Seq<char> {
    header_text(text_shown, file_shown) + blocks_text(windows, text, text_shown)
}

/// Shown as itself, the search text leaves every line as it is: with
/// colours off, the painted form of a result is its plain form.
pub proof fn lemma_highlighted_by_itself(lines: Seq<Seq<char>>, text: Seq<char>)
    ensures
        highlighted(lines, text, text) == lines,
{
    assert forall|i: int| 0 <= i < lines.len() implies replace_all(lines[i], text, text)
        == lines[i] by {
        lemma_replace_by_itself(lines[i], text);
    }
    assert(highlighted(lines, text, text) =~= lines);
}

/// A result with one window is shown as that window under its heading.
pub proof fn lemma_result_with_one_window(
    window: WindowModel,
    file_shown: Seq<char>,
    text: Seq<char>,
    text_shown: Seq<char>,
)
    ensures
        result_text(seq![window], file_shown, text, text_shown) == window_text(
            window.lines,
            file_shown,
            text,
            text_shown,
        ),
{
    let windows = seq![window];
    assert(windows.drop_last() =~= Seq::<WindowModel>::empty());
    assert(blocks_text(Seq::<WindowModel>::empty(), text, text_shown) =~= Seq::<char>::empty());
    assert(blocks_text(windows, text, text_shown) =~= block_text(window.lines, text, text_shown));
}

/// Appends the heading to `out`.
fn append_header(out: &mut String, text_shown: &str, file_shown: &str)
    ensures
        final(out)@ == old(out)@ + header_text(text_shown@, file_shown@),
{
    let ghost before = out@;
    out.append("\nText '");
    out.append(text_shown);
    out.append("' found in file: ");
    out.append(file_shown);
    out.append("\n\n");
    assert(out@ =~= before + header_text(text_shown@, file_shown@));
}

/// Appends one window to `out`.
fn append_block(out: &mut String, window_contents: &Vec<String>, text: &str, text_shown: &str)
    ensures
        final(out)@ == old(out)@ + block_text(window_contents.deep_view(), text@, text_shown@),
{
    let ghost before = out@;
    let ghost lines = window_contents.deep_view();
    let ghost shown = highlighted(lines, text@, text_shown@);
    out.append("---\n");
    let mut index: usize = 0;
    assert(shown.take(0) =~= Seq::<Seq<char>>::empty());
    assert(out@ =~= before + "---\n"@ + lines_text(shown.take(0)));
    while index < window_contents.len()
        invariant
            index <= window_contents.len(),
            lines == window_contents.deep_view(),
            shown == highlighted(lines, text@, text_shown@),
            out@ == before + "---\n"@ + lines_text(shown.take(index as int)),
        decreases window_contents.len() - index,
    {
        let ghost so_far = out@;
        let line = replace_occurrences(window_contents[index].as_str(), text, text_shown);
        out.append(line.as_str());
        out.push('\n');
        proof {
            let grown = shown.take(index + 1);
            assert(grown.drop_last() =~= shown.take(index as int));
            assert(grown.last() == line@);
            assert(out@ =~= so_far + line@.push('\n'));
            assert(out@ =~= before + "---\n"@ + lines_text(grown));
        }
        index += 1;
    }
    assert(shown.take(window_contents.len() as int) =~= shown);
    let ghost so_far = out@;
    out.append("---\n\n");
    assert(out@ =~= before + block_text(lines, text@, text_shown@));
}

/// One context window under its heading, the file name shown as
/// `file_shown` and each occurrence of `text` as `text_shown`.
pub fn format_window_as(
    window_contents: &Vec<String>,
    file_shown: &str,
    text: &str,
    text_shown: &str,
) -> (out: String)
    ensures
        out@ == window_text(window_contents.deep_view(), file_shown@, text@, text_shown@),
{
    let mut out = String::new();
    append_header(&mut out, text_shown, file_shown);
    append_block(&mut out, window_contents, text, text_shown);
    assert(out@ =~= window_text(window_contents.deep_view(), file_shown@, text@, text_shown@));
    out
}

/// A result under its heading, the file name shown as `file_shown` and each
/// occurrence of `text` as `text_shown`.
pub fn format_result_as(result: &SearchResult, file_shown: &str, text: &str, text_shown: &str) -> (out:
    String)
    ensures
        out@ == result_text(result@.context_windows, file_shown@, text@, text_shown@),
{
    let mut out = String::new();
    append_header(&mut out, text_shown, file_shown);
    let ghost head = out@;
    let ghost windows = result@.context_windows;
    let mut index: usize = 0;
    assert(windows.take(0) =~= Seq::<WindowModel>::empty());
    assert(out@ =~= head + blocks_text(windows.take(0), text@, text_shown@));
    while index < result.context_windows.len()
        invariant
            index <= result.context_windows.len(),
            windows == result@.context_windows,
            out@ == head + blocks_text(windows.take(index as int), text@, text_shown@),
        decreases result.context_windows.len() - index,
    {
        let ghost so_far = out@;
        append_block(&mut out, &result.context_windows[index].window_contents, text, text_shown);
        proof {
            let grown = windows.take(index + 1);
            assert(grown.drop_last() =~= windows.take(index as int));
            assert(grown.last() == result.context_windows[index as int]@);
            assert(out@ =~= head + blocks_text(grown, text@, text_shown@));
        }
        index += 1;
    }
    assert(windows.take(result.context_windows.len() as int) =~= windows);
    assert(head =~= header_text(text_shown@, file_shown@));
    out
}

/// What is shown for one context window of the file `file_name`, searched
/// for `text`: the heading, a rule, the lines of the window, a rule.
///
/// With `no_highlight` everything is shown as it is. Without it the search
/// text is painted red, in the heading and in the lines, and the file name
/// green.
pub fn format_context_window(
    window_contents: &Vec<String>,
    file_name: &str,
    text: &str,
    no_highlight: bool,
) -> (out: String)
    ensures
        no_highlight ==> out@ == window_text(
            window_contents.deep_view(),
            file_name@,
            text@,
            text@,
        ),
        no_highlight ==> out@ == header_text(text@, file_name@) + "---\n"@ + lines_text(
            window_contents.deep_view(),
        ) + "---\n\n"@,
        !no_highlight ==> exists|file_shown: Seq<char>, text_shown: Seq<char>|
            painted(file_name@, Color::Green, file_shown) && painted(
                text@,
                Color::Red,
                text_shown,
            ) && out@ == window_text(window_contents.deep_view(), file_shown, text@, text_shown),
{
    if no_highlight {
        proof {
            lemma_highlighted_by_itself(window_contents.deep_view(), text@);
        }
        let out = format_window_as(window_contents, file_name, text, text);
        assert(out@ =~= header_text(text@, file_name@) + "---\n"@ + lines_text(
            window_contents.deep_view(),
        ) + "---\n\n"@);
        out
    } else {
        let text_shown = paint(text, Color::Red);
        let file_shown = paint(file_name, Color::Green);
        format_window_as(window_contents, file_shown.as_str(), text, text_shown.as_str())
    }
}

/// What is shown for a result of a search for `text`: the heading once,
/// then each of its windows between rules, in the order of the file.
///
/// With `no_highlight` everything is shown as it is. Without it the search
/// text is painted red, in the heading and in the lines, and the file name
/// green.
pub fn format_result(result: &SearchResult, text: &str, no_highlight: bool) -> (out: String)
    ensures
        no_highlight ==> out@ == result_text(
            result@.context_windows,
            result@.file_name,
            text@,
            text@,
        ),
        !no_highlight ==> exists|file_shown: Seq<char>, text_shown: Seq<char>|
            painted(result@.file_name, Color::Green, file_shown) && painted(
                text@,
                Color::Red,
                text_shown,
            ) && out@ == result_text(result@.context_windows, file_shown, text@, text_shown),
{
    if no_highlight {
        format_result_as(result, result.file_name.as_str(), text, text)
    } else {
        let text_shown = paint(text, Color::Red);
        let file_shown = paint(result.file_name.as_str(), Color::Green);
        format_result_as(result, file_shown.as_str(), text, text_shown.as_str())
    }
}

} // verus!
