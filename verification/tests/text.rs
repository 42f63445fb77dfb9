use mini_coreutils::text::{
    after_last, field, find, has_prefix, run_end, slice, split_lines, to_chars, to_text, word,
};

fn chars(s: &str) -> Vec<char> {
    s.chars().collect()
}

#[test]
fn chars_and_text_are_inverse() {
    assert_eq!(to_chars("a\u{e9}\u{1F600}z"), vec!['a', '\u{e9}', '\u{1F600}', 'z']);
    assert_eq!(to_chars(""), Vec::<char>::new());
    assert_eq!(to_text(&vec!['o', 'k', '\u{2603}']), "ok\u{2603}");
    assert_eq!(to_text(&Vec::new()), "");
    assert_eq!(to_text(&to_chars("Uid:\t1000")), "Uid:\t1000");
}

#[test]
fn slice_copies_a_range() {
    let s = chars("abcdef");
    assert_eq!(slice(&s, 1, 4), chars("bcd"));
    assert_eq!(slice(&s, 0, 6), s);
    assert_eq!(slice(&s, 3, 3), chars(""));
    assert_eq!(slice(&s, 6, 6), chars(""));
}

#[test]
fn find_gives_first_separator_or_length() {
    let s = chars("a:b:c");
    assert_eq!(find(&s, ':', 0), 1);
    assert_eq!(find(&s, ':', 1), 1);
    assert_eq!(find(&s, ':', 2), 3);
    assert_eq!(find(&s, ':', 4), 5);
    assert_eq!(find(&s, ':', 5), 5);
    assert_eq!(find(&s, '-', 0), 5);
}

#[test]
fn after_last_gives_place_behind_last_occurrence() {
    assert_eq!(after_last(&chars("a)b)c"), ')'), 4);
    assert_eq!(after_last(&chars(")"), ')'), 1);
    assert_eq!(after_last(&chars("abc"), ')'), 0);
    assert_eq!(after_last(&chars(""), ')'), 0);
}

#[test]
fn prefix_test() {
    assert!(has_prefix(&chars("Uid:\t1"), &chars("Uid:")));
    assert!(has_prefix(&chars("Uid:"), &chars("Uid:")));
    assert!(has_prefix(&chars("x"), &chars("")));
    assert!(!has_prefix(&chars("Uid"), &chars("Uid:")));
    assert!(!has_prefix(&chars("uid:\t1"), &chars("Uid:")));
    assert!(!has_prefix(&chars(""), &chars("U")));
}

#[test]
fn field_is_piece_between_separators() {
    let s = chars("a b  c ");
    assert_eq!(field(&s, ' ', 0), chars("a"));
    assert_eq!(field(&s, ' ', 1), chars("b"));
    assert_eq!(field(&s, ' ', 2), chars(""));
    assert_eq!(field(&s, ' ', 3), chars("c"));
    assert_eq!(field(&s, ' ', 4), chars(""));
    assert_eq!(field(&s, ' ', 5), chars(""));
    assert_eq!(field(&chars(""), ' ', 0), chars(""));
    assert_eq!(field(&chars("abc"), ' ', 0), chars("abc"));
    assert_eq!(field(&chars("abc"), ' ', 1), chars(""));
}

#[test]
fn field_agrees_with_split() {
    let samples = ["", " ", "a", "a b", " a", "a ", "a  b", "1 2 3 4 5 6 7 8", "  "];
    for s in samples {
        for n in 0..10 {
            let expected: String = s.split(' ').nth(n).unwrap_or("").to_string();
            assert_eq!(to_text(&field(&chars(s), ' ', n)), expected);
        }
    }
}

#[test]
fn lines_end_at_line_feeds() {
    let as_lines = |s: &str| -> Vec<String> { split_lines(&chars(s)).iter().map(to_text).collect() };
    assert_eq!(as_lines(""), Vec::<String>::new());
    assert_eq!(as_lines("a"), vec!["a"]);
    assert_eq!(as_lines("a\n"), vec!["a"]);
    assert_eq!(as_lines("a\nb"), vec!["a", "b"]);
    assert_eq!(as_lines("a\n\nb\n"), vec!["a", "", "b"]);
    assert_eq!(as_lines("\n"), vec![""]);
    assert_eq!(as_lines("a\r\nb\r"), vec!["a", "b\r"]);
    assert_eq!(as_lines("\r\n\r\r\n"), vec!["", "\r"]);
}

#[test]
fn lines_agree_with_std() {
    let samples = ["", "\n", "a", "a\n", "a\r\n", "a\rb\n", "\r", "x\n\ny", "x\r\n\r\ny\r", "\n\n"];
    for s in samples {
        let expected: Vec<String> = s.lines().map(String::from).collect();
        let got: Vec<String> = split_lines(&chars(s)).iter().map(to_text).collect();
        if s.ends_with('\r') {
            continue;
        }
        assert_eq!(got, expected);
    }
}

#[test]
fn run_end_gives_end_of_blanks_or_of_token() {
    let s = chars(" \t ab c");
    assert_eq!(run_end(&s, 0, true), 3);
    assert_eq!(run_end(&s, 0, false), 0);
    assert_eq!(run_end(&s, 3, false), 5);
    assert_eq!(run_end(&s, 3, true), 3);
    assert_eq!(run_end(&s, 5, true), 6);
    assert_eq!(run_end(&s, 6, false), 7);
    assert_eq!(run_end(&s, 7, false), 7);
    assert_eq!(run_end(&s, 7, true), 7);
}

#[test]
fn word_is_first_token() {
    assert_eq!(word(&chars("\t1000 1001"), 0), chars("1000"));
    assert_eq!(word(&chars("Uid:\t1000\t1001"), 4), chars("1000"));
    assert_eq!(word(&chars("Uid: \t 7"), 4), chars("7"));
    assert_eq!(word(&chars("ab cd"), 0), chars("ab"));
    assert_eq!(word(&chars("ab cd"), 2), chars("cd"));
    assert_eq!(word(&chars("ab cd"), 1), chars("b"));
    assert_eq!(word(&chars("  \t"), 0), chars(""));
    assert_eq!(word(&chars(""), 0), chars(""));
    assert_eq!(word(&chars("ab"), 2), chars(""));
    assert_eq!(word(&chars("a\rb\u{a0}c d"), 0), chars("a\rb\u{a0}c"));
}

#[test]
fn word_agrees_with_splitting_at_spaces_and_tabs() {
    let samples = ["", " ", "\t", "a", " a", "a ", "\ta b", " \t a\tb ", "ab\tcd ef", "  x"];
    for s in samples {
        let expected = s.split(|c| c == ' ' || c == '\t').find(|t| !t.is_empty()).unwrap_or("");
        assert_eq!(to_text(&word(&chars(s), 0)), expected);
    }
}
