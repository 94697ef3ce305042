//! Text as sequences of characters: substring tests and line splitting.
//!
//! A line break is a single `'\n'`. A carriage return is an ordinary
//! character: `"a\r\nb"` has the lines `"a\r"` and `"b"`.

use vstd::prelude::*;
use vstd::utf8::{encode_utf8, valid_utf8};

verus! {

/// `String::push` appends one character to the end of the string.
pub assume_specification[ String::push ](s: &mut String, ch: char)
    ensures
        final(s)@ == old(s)@.push(ch),
;

/// The error of `String::from_utf8`. Nothing is read from it.
#[verifier::external_type_specification]
#[verifier::external_body]
pub struct ExFromUtf8Error(std::string::FromUtf8Error);

/// `String::from_utf8` succeeds exactly on the byte vectors that are valid
/// UTF-8, and then gives the string whose bytes they are.
pub assume_specification[ String::from_utf8 ](vec: Vec<u8>) -> (decoded: Result<
    String,
    std::string::FromUtf8Error,
>)
    ensures
        decoded is Ok <==> valid_utf8(vec@),
        decoded matches Ok(text) ==> encode_utf8(text@) == vec@,
;

/// `needle` stands in `hay` at position `at`.
pub open spec fn occurs_at(hay: Seq<char>, needle: Seq<char>, at: int) -> bool {
    &&& 0 <= at
    &&& at + needle.len() <= hay.len()
    &&& hay.subrange(at, at + needle.len()) == needle
}

/// `needle` stands somewhere in `hay`. The empty sequence stands everywhere.
pub open spec fn has_substring(hay: Seq<char>, needle: Seq<char>) -> bool {
    exists|at: int| occurs_at(hay, needle, at)
}

/// The lines of `text`: the pieces between its line breaks, in order.
///
/// There is always at least one line, and a text that ends in a line break
/// has an empty last line.
pub open spec fn lines(text: Seq<char>) -> Seq<Seq<char>>
    decreases text.len(),
{
    if text.len() == 0 {
        seq![Seq::empty()]
    } else {
        let before = lines(text.drop_last());
        if text.last() == '\n' {
            before.push(Seq::empty())
        } else {
            before.drop_last().push(before.last().push(text.last()))
        }
    }
}

/// The text whose lines are `pieces`: the pieces with one line break between
/// each two neighbours.
pub open spec fn join_lines(pieces: Seq<Seq<char>>) -> Seq<char>
    decreases pieces.len(),
{
    if pieces.len() == 0 {
        Seq::empty()
    } else if pieces.len() == 1 {
        pieces[0]
    } else {
        join_lines(pieces.drop_last()).push('\n') + pieces.last()
    }
}

/// No piece holds a line break.
pub open spec fn free_of_breaks(pieces: Seq<Seq<char>>) -> bool {
    forall|i: int, j: int|
        0 <= i < pieces.len() && 0 <= j < pieces[i].len() ==> #[trigger] pieces[i][j] != '\n'
}

/// Every text has at least one line.
pub proof fn lemma_lines_nonempty(text: Seq<char>)
    ensures
        lines(text).len() >= 1,
    decreases text.len(),
{
    if text.len() > 0 {
        lemma_lines_nonempty(text.drop_last());
    }
}

/// A text has one line more than it has line breaks.
pub proof fn lemma_lines_count(text: Seq<char>)
    ensures
        lines(text).len() == 1 + text.filter(|c: char| c == '\n').len(),
    decreases text.len(),
{
    reveal(Seq::filter);
    if text.len() > 0 {
        lemma_lines_count(text.drop_last());
        lemma_lines_nonempty(text.drop_last());
    }
}

/// No line of a text holds a line break.
pub proof fn lemma_lines_free_of_breaks(text: Seq<char>)
    ensures
        free_of_breaks(lines(text)),
    decreases text.len(),
{
    if text.len() > 0 {
        lemma_lines_free_of_breaks(text.drop_last());
        lemma_lines_nonempty(text.drop_last());
    }
}

/// Joining the lines of a text gives the text back.
pub proof fn lemma_join_of_lines(text: Seq<char>)
    ensures
        join_lines(lines(text)) == text,
    decreases text.len(),
{
    if text.len() > 0 {
        let shorter = text.drop_last();
        let before = lines(shorter);
        lemma_join_of_lines(shorter);
        lemma_lines_nonempty(shorter);
        if text.last() == '\n' {
            assert(lines(text).drop_last() == before);
            assert(join_lines(lines(text)) == shorter.push('\n') + Seq::<char>::empty());
            assert(shorter.push('\n') + Seq::<char>::empty() == text);
        } else {
            lemma_join_push_char(before, text.last());
            assert(shorter.push(text.last()) == text);
        }
    }
}

/// Appending a character to the last piece appends it to the joined text.
proof fn lemma_join_push_char(pieces: Seq<Seq<char>>, c: char)
    requires
        pieces.len() >= 1,
    ensures
        join_lines(pieces.drop_last().push(pieces.last().push(c))) == join_lines(pieces).push(c),
{
    let grown = pieces.drop_last().push(pieces.last().push(c));
    assert(grown.last() == pieces.last().push(c));
    if pieces.len() == 1 {
        assert(grown[0] == pieces[0].push(c));
    } else {
        assert(grown.drop_last() == pieces.drop_last());
        let head = join_lines(pieces.drop_last()).push('\n');
        assert(head + pieces.last().push(c) == (head + pieces.last()).push(c));
    }
}

/// Splitting a joined text gives the pieces back, where there is at least
/// one piece and none holds a line break. With `lemma_join_of_lines` and
/// `lemma_lines_free_of_breaks` this says that `lines(text)` is the one way
/// to cut `text` at its line breaks.
pub proof fn lemma_lines_of_join(pieces: Seq<Seq<char>>)
    requires
        pieces.len() >= 1,
        free_of_breaks(pieces),
    ensures
        lines(join_lines(pieces)) == pieces,
    decreases pieces.len(), pieces.last().len(),
{
    let last = pieces.last();
    if last.len() > 0 {
        let shorter = pieces.drop_last().push(last.drop_last());
        assert(shorter.last() == last.drop_last());
        assert(shorter.drop_last() == pieces.drop_last());
        assert(free_of_breaks(shorter)) by {
            assert forall|i: int, j: int|
                0 <= i < shorter.len() && 0 <= j < shorter[i].len() implies #[trigger] shorter[i][j]
                != '\n' by {
                assert(shorter[i][j] == pieces[i][j]);
            }
        }
        lemma_lines_of_join(shorter);
        lemma_join_push_char(shorter, last.last());
        assert(last.drop_last().push(last.last()) == last);
        assert(shorter.drop_last().push(shorter.last().push(last.last())) == pieces);
        let text = join_lines(pieces);
        assert(text == join_lines(shorter).push(last.last()));
        assert(text.drop_last() == join_lines(shorter));
        assert(text.last() == last.last());
        assert(pieces[pieces.len() - 1][last.len() - 1] != '\n');
    } else if pieces.len() == 1 {
        assert(pieces[0] == Seq::<char>::empty());
        assert(pieces == seq![Seq::<char>::empty()]);
    } else {
        let shorter = pieces.drop_last();
        assert(free_of_breaks(shorter)) by {
            assert forall|i: int, j: int|
                0 <= i < shorter.len() && 0 <= j < shorter[i].len() implies #[trigger] shorter[i][j]
                != '\n' by {
                assert(shorter[i][j] == pieces[i][j]);
            }
        }
        lemma_lines_of_join(shorter);
        let text = join_lines(pieces);
        assert(last =~= Seq::<char>::empty());
        assert(text == join_lines(shorter).push('\n') + last);
        assert(text == join_lines(shorter).push('\n'));
        assert(text.drop_last() == join_lines(shorter));
        assert(shorter.push(Seq::<char>::empty()) == pieces);
    }
}

/// The characters of `s`, in order.
pub fn chars_of(s: &str) -> (chars: Vec<char>)
    ensures
        chars@ == s@,
{
    let mut chars: Vec<char> = Vec::new();
    for c in it: s.chars()
        invariant
            it.seq() == s@,
            chars@ == it.seq().take(it.index()),
    {
        chars.push(c);
    }
    chars
}

/// Whether `needle` stands in `hay` at position `at`.
pub(crate) fn occurs_at_position(hay: &[char], needle: &[char], at: usize) -> (found: bool)
    requires
        at + needle.len() <= hay.len(),
    ensures
        found == occurs_at(hay@, needle@, at as int),
{
    let mut k: usize = 0;
    while k < needle.len()
        invariant
            k <= needle.len(),
            at + needle.len() <= hay.len(),
            forall|j: int| 0 <= j < k ==> hay@[at + j] == needle@[j],
        decreases needle.len() - k,
    {
        if hay[at + k] != needle[k] {
            assert(hay@.subrange(at as int, at + needle.len())[k as int] != needle@[k as int]);
            return false;
        }
        k += 1;
    }
    assert(hay@.subrange(at as int, at + needle.len()) =~= needle@);
    true
}

/// Whether `needle` stands somewhere in `hay`, compared character by
/// character: no case folding, no normalisation.
pub fn contains_chars(hay: &[char], needle: &[char]) -> (found: bool)
    ensures
        found == has_substring(hay@, needle@),
{
    if needle.len() > hay.len() {
        return false;
    }
    let last: usize = hay.len() - needle.len();
    let mut at: usize = 0;
    loop
        invariant
            at <= last,
            last == hay.len() - needle.len(),
            forall|p: int| 0 <= p < at ==> !occurs_at(hay@, needle@, p),
        decreases last - at,
    {
        if occurs_at_position(hay, needle, at) {
            return true;
        }
        if at == last {
            return false;
        }
        at += 1;
    }
}

/// Whether `needle` stands somewhere in `hay`.
pub fn contains(hay: &str, needle: &str) -> (found: bool)
    ensures
        found == has_substring(hay@, needle@),
{
    let hay_chars = chars_of(hay);
    let needle_chars = chars_of(needle);
    contains_chars(hay_chars.as_slice(), needle_chars.as_slice())
}

/// Cuts `text` at its line breaks.
pub fn split_lines(text: &str) -> (pieces: Vec<String>)
    ensures
        pieces.deep_view() == lines(text@),
{
    let mut pieces: Vec<String> = Vec::new();
    let mut current = String::new();
    let ghost mut seen: Seq<char> = Seq::empty();
    for c in it: text.chars()
        invariant
            it.seq() == text@,
            seen == text@.take(it.index()),
            pieces.deep_view().push(current@) == lines(seen),
    {
        proof {
            let grown = seen.push(c);
            assert(grown.drop_last() == seen);
            seen = grown;
        }
        let ghost before = pieces.deep_view().push(current@);
        if c == '\n' {
            pieces.push(current);
            current = String::new();
            assert(pieces.deep_view() == before);
        } else {
            current.push(c);
            assert(pieces.deep_view().push(current@) == before.drop_last().push(
                before.last().push(c),
            ));
        }
    }
    assert(text@.take(text@.len() as int) == text@);
    let ghost before = pieces.deep_view().push(current@);
    pieces.push(current);
    assert(pieces.deep_view() == before);
    pieces
}

} // verus!
