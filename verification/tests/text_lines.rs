use fs_helper::text::{chars_of, contains, contains_chars, split_lines};

fn strings(items: &[&str]) -> Vec<String> {
    items.iter().map(|s| s.to_string()).collect()
}

#[test]
fn empty_text_has_one_empty_line() {
    assert_eq!(split_lines(""), strings(&[""]));
}

#[test]
fn text_without_break_is_one_line() {
    assert_eq!(split_lines("one line"), strings(&["one line"]));
}

#[test]
fn lines_are_cut_at_each_break() {
    assert_eq!(split_lines("a\nb\nc"), strings(&["a", "b", "c"]));
}

#[test]
fn trailing_break_gives_empty_last_line() {
    assert_eq!(split_lines("a\n"), strings(&["a", ""]));
}

#[test]
fn breaks_alone_give_empty_lines() {
    assert_eq!(split_lines("\n\n"), strings(&["", "", ""]));
}

#[test]
fn carriage_return_stays_in_the_line() {
    assert_eq!(split_lines("a\r\nb"), strings(&["a\r", "b"]));
}

#[test]
fn split_lines_agrees_with_std_split() {
    let texts = ["", "\n", "x", "x\ny", "\nx\n", "a\n\nb", "é\nü\n", "tab\tbed\n\r\n"];
    for text in texts {
        let expected: Vec<String> = text.split("\n").map(|s| s.to_string()).collect();
        assert_eq!(split_lines(text), expected);
    }
}

#[test]
fn joining_the_lines_gives_the_text_back() {
    let texts = ["", "\n", "x\ny", "\nx\n", "a\n\nb\n\n"];
    for text in texts {
        assert_eq!(split_lines(text).join("\n"), text);
    }
}

#[test]
fn a_text_has_one_line_more_than_breaks() {
    let text = "a\nb\n\nc\n";
    let breaks = text.chars().filter(|c| *c == '\n').count();
    assert_eq!(split_lines(text).len(), breaks + 1);
}

#[test]
fn chars_of_gives_the_characters_in_order() {
    assert_eq!(chars_of("héllo"), vec!['h', 'é', 'l', 'l', 'o']);
    assert_eq!(chars_of(""), Vec::<char>::new());
}

#[test]
fn contains_finds_a_substring() {
    assert!(contains("hello world", "lo w"));
    assert!(contains("hello world", "hello"));
    assert!(contains("hello world", "world"));
    assert!(contains("hello", "hello"));
}

#[test]
fn contains_rejects_what_is_not_there() {
    assert!(!contains("hello world", "worlds"));
    assert!(!contains("hello", "hello!"));
    assert!(!contains("", "a"));
    assert!(!contains("abab", "abb"));
}

#[test]
fn contains_is_case_sensitive() {
    assert!(!contains("Hello", "hello"));
    assert!(contains("Hello", "Hello"));
}

#[test]
fn the_empty_text_is_found_everywhere() {
    assert!(contains("abc", ""));
    assert!(contains("", ""));
}

#[test]
fn contains_handles_partial_matches_before_a_match() {
    assert!(contains("aaab", "aab"));
    assert!(contains("abababc", "ababc"));
}

#[test]
fn contains_works_on_characters_not_bytes() {
    assert!(contains("grüße", "üß"));
    assert!(!contains("grüße", "us"));
}

#[test]
fn contains_chars_agrees_with_std_contains() {
    let hays = ["", "a", "abc", "aaa", "abcabc", "xyz"];
    let needles = ["", "a", "bc", "aa", "cab", "abcd", "z"];
    for hay in hays {
        for needle in needles {
            let h: Vec<char> = hay.chars().collect();
            let n: Vec<char> = needle.chars().collect();
            assert_eq!(contains_chars(&h, &n), hay.contains(needle));
        }
    }
}
