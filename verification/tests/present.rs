use fs_helper::present::{
    format_context_window, format_result, format_result_as, format_window_as, highlight_text,
    replace_occurrences, Color,
};
use fs_helper::search::SearchResult;

fn owned(items: &[&str]) -> Vec<String> {
    items.iter().map(|s| s.to_string()).collect()
}

fn result_of(text: &str, target: &str, context: u8) -> SearchResult {
    SearchResult::for_file("f.txt", "/t/f.txt", text, target, context).unwrap().unwrap()
}

#[test]
fn replace_changes_every_occurrence() {
    assert_eq!(replace_occurrences("a-b-c", "-", "+"), "a+b+c");
    assert_eq!(replace_occurrences("foo bar foo", "foo", "[foo]"), "[foo] bar [foo]");
}

#[test]
fn replace_leaves_a_text_without_the_pattern() {
    assert_eq!(replace_occurrences("abc", "x", "y"), "abc");
    assert_eq!(replace_occurrences("", "x", "y"), "");
    assert_eq!(replace_occurrences("ab", "abc", "y"), "ab");
}

#[test]
fn replace_takes_occurrences_from_the_left_without_overlap() {
    assert_eq!(replace_occurrences("aaa", "aa", "X"), "Xa");
    assert_eq!(replace_occurrences("aaaa", "aa", "X"), "XX");
    assert_eq!(replace_occurrences("ababa", "aba", "X"), "Xba");
}

#[test]
fn replace_does_not_look_into_what_it_put_in() {
    assert_eq!(replace_occurrences("aa", "a", "aa"), "aaaa");
}

#[test]
fn the_empty_pattern_is_replaced_before_each_character_and_at_the_end() {
    assert_eq!(replace_occurrences("abc", "", "X"), "XaXbXcX");
    assert_eq!(replace_occurrences("", "", "X"), "X");
    assert_eq!(replace_occurrences("ab", "", ""), "ab");
    assert_eq!(replace_occurrences("\u{fc}b", "", "--"), "--\u{fc}--b--");
}

#[test]
fn replace_can_delete() {
    assert_eq!(replace_occurrences("a.b.c", ".", ""), "abc");
}

#[test]
fn replace_agrees_with_std_replace() {
    let texts = ["", "a", "banana", "aaaa", "abcabcabc", "grüße"];
    let patterns = ["", "a", "an", "aa", "abc", "ü", "zz"];
    for text in texts {
        for pattern in patterns {
            assert_eq!(replace_occurrences(text, pattern, "<>"), text.replace(pattern, "<>"));
        }
    }
}

#[test]
fn plain_window_is_shown_as_it_is() {
    let out = format_context_window(&owned(&["a", "foo b"]), "f.txt", "foo", true);
    assert_eq!(out, "\nText 'foo' found in file: f.txt\n\n---\na\nfoo b\n---\n\n");
}

#[test]
fn plain_window_without_lines_has_only_heading_and_rules() {
    let out = format_context_window(&Vec::new(), "f.txt", "foo", true);
    assert_eq!(out, "\nText 'foo' found in file: f.txt\n\n---\n---\n\n");
}

#[test]
fn window_is_shown_with_the_labels_given() {
    let out = format_window_as(&owned(&["a foo", "b"]), "<f.txt>", "foo", "[foo]");
    assert_eq!(out, "\nText '[foo]' found in file: <f.txt>\n\n---\na [foo]\nb\n---\n\n");
}

#[test]
fn plain_result_has_one_heading_and_a_block_for_each_window() {
    let result = result_of("foo 1\nx\ny\nfoo 2", "foo", 1);
    let out = format_result(&result, "foo", true);
    assert_eq!(
        out,
        "\nText 'foo' found in file: f.txt\n\n---\nfoo 1\nx\n---\n\n---\ny\nfoo 2\n---\n\n"
    );
}

#[test]
fn result_with_one_window_is_shown_as_that_window() {
    let result = result_of("a\nfoo\nb", "foo", 1);
    assert_eq!(
        format_result(&result, "foo", true),
        format_context_window(&result.context_windows[0].window_contents, "f.txt", "foo", true)
    );
}

#[test]
fn result_is_shown_with_the_labels_given() {
    let result = result_of("a\nfoo\nb", "foo", 0);
    let out = format_result_as(&result, "F", "foo", "FOO");
    assert_eq!(out, "\nText 'FOO' found in file: F\n\n---\nFOO\n---\n\n");
}

#[test]
fn painting_follows_the_colour_switch() {
    colored::control::set_override(true);
    assert_eq!(highlight_text("a foo b", "foo", Color::Red), "a \x1b[31mfoo\x1b[0m b");
    assert_eq!(highlight_text("a foo b", "foo", Color::Green), "a \x1b[32mfoo\x1b[0m b");
    assert_eq!(highlight_text("foofoo", "foo", Color::Red), "\x1b[31mfoo\x1b[0m\x1b[31mfoo\x1b[0m");
    assert_eq!(highlight_text("nothing", "foo", Color::Red), "nothing");
    assert_eq!(
        highlight_text("a\x1b[0mb", "a\x1b[0mb", Color::Red),
        "\x1b[31ma\x1b[0m\x1b[31mb\x1b[0m"
    );
    assert_eq!(highlight_text("", "", Color::Red), "\x1b[31m\x1b[0m");
    assert_eq!(
        highlight_text("ab", "", Color::Red),
        "\x1b[31m\x1b[0ma\x1b[31m\x1b[0mb\x1b[31m\x1b[0m"
    );
    assert_eq!(
        format_context_window(&owned(&["a", "foo b"]), "f.txt", "foo", false),
        "\nText '\x1b[31mfoo\x1b[0m' found in file: \x1b[32mf.txt\x1b[0m\n\n---\na\n\x1b[31mfoo\x1b[0m b\n---\n\n"
    );
    let result = result_of("foo", "foo", 0);
    assert_eq!(
        format_result(&result, "foo", false),
        "\nText '\x1b[31mfoo\x1b[0m' found in file: \x1b[32mf.txt\x1b[0m\n\n---\n\x1b[31mfoo\x1b[0m\n---\n\n"
    );
    assert_eq!(
        format_context_window(&owned(&["a", "foo b"]), "f.txt", "foo", true),
        "\nText 'foo' found in file: f.txt\n\n---\na\nfoo b\n---\n\n"
    );
    colored::control::set_override(false);
    assert_eq!(highlight_text("a foo b", "foo", Color::Red), "a foo b");
    assert_eq!(highlight_text("ab", "", Color::Red), "ab");
    assert_eq!(
        format_context_window(&owned(&["a", "foo b"]), "f.txt", "foo", false),
        "\nText 'foo' found in file: f.txt\n\n---\na\nfoo b\n---\n\n"
    );
    colored::control::unset_override();
}
