use pfl_forge::decimal::{parse_u64, u64_to_string};
use pfl_forge::error::ForgeError;
use pfl_forge::lines::{join_with, split_fields, split_lines};
use pfl_forge::text::{
    char_is_whitespace, chars_of, ends_with, find, occurs, rfind_char, same_text, starts_with,
    str_contains, str_ends_with, str_starts_with, str_strip_prefix, str_strip_suffix, substring,
    trim_range, trimmed,
};

fn chars(s: &str) -> Vec<char> {
    s.chars().collect()
}

#[test]
fn chars_and_substring_count_characters() {
    assert_eq!(chars_of("aé😀"), vec!['a', 'é', '😀']);
    assert_eq!(substring("aé😀z", 1, 3), "é😀");
    assert_eq!(substring("abc", 0, 0), "");
    assert!(same_text("é", "é"));
    assert!(!same_text("e", "é"));
}

#[test]
fn whitespace_is_what_unicode_says() {
    for code in 0u32..0x11000 {
        if let Some(c) = char::from_u32(code) {
            assert_eq!(char_is_whitespace(c), c.is_whitespace(), "U+{:04X}", code);
        }
    }
}

#[test]
fn trimmed_is_trim() {
    for s in ["", " ", "a", "  a b \n", "\u{a0}x\u{3000}", "\t\r\n", " é ", "x  "] {
        assert_eq!(trimmed(s), s.trim(), "{:?}", s);
    }
    let v = chars("ab  cd  ef");
    assert_eq!(trim_range(&v, 2, 8), (4, 6));
    assert_eq!(trim_range(&v, 2, 4), (4, 4));
}

#[test]
fn find_is_the_first_occurrence() {
    let hay = chars("abcabcab");
    assert_eq!(find(&hay, &chars("abc"), 0), Some(0));
    assert_eq!(find(&hay, &chars("abc"), 1), Some(3));
    assert_eq!(find(&hay, &chars("abc"), 4), None);
    assert_eq!(find(&hay, &chars("ab"), 4), Some(6));
    assert_eq!(find(&hay, &chars(""), 8), Some(8));
    assert_eq!(find(&hay, &chars(""), 9), None);
    assert_eq!(find(&hay, &chars("abcabcabc"), 0), None);
    assert!(occurs(&hay, &chars("cab"), 2));
    assert!(!occurs(&hay, &chars("cab"), 3));
    assert_eq!(rfind_char(&hay, 'c'), Some(5));
    assert_eq!(rfind_char(&hay, 'z'), None);
    assert_eq!(rfind_char(&chars(""), 'a'), None);
}

#[test]
fn prefixes_and_suffixes() {
    assert!(starts_with(&chars("## Q"), &chars("## ")));
    assert!(!starts_with(&chars("#"), &chars("## ")));
    assert!(starts_with(&chars("x"), &chars("")));
    assert!(ends_with(&chars("a.md"), &chars(".md")));
    assert!(!ends_with(&chars("md"), &chars(".md")));
    assert!(str_starts_with("worktree /x", "worktree "));
    assert!(str_ends_with("a.yaml", ".yaml"));
    assert_eq!(str_strip_prefix("Plan: p", "Plan: "), Some("p".to_string()));
    assert_eq!(str_strip_prefix("Plan", "Plan: "), None);
    assert_eq!(str_strip_suffix("a.md", ".md"), Some("a".to_string()));
    assert_eq!(str_strip_suffix("a.md", ".txt"), None);
    assert!(str_contains("it already exists here", "already exists"));
    assert!(!str_contains("already exist", "already exists"));
    assert!(str_contains("", ""));
}

#[test]
fn split_lines_is_lines() {
    for s in [
        "",
        "a",
        "a\n",
        "a\nb",
        "a\r\nb\r\n",
        "\n",
        "\n\n",
        "a\n\nb",
        "a\r",
        "a\rb\n",
        "\r\n",
        "é\n😀",
        "a\n\r\n",
        "trailing\r",
    ] {
        let expected: Vec<String> = s.lines().map(|l| l.to_string()).collect();
        assert_eq!(split_lines(s), expected, "{:?}", s);
    }
}

#[test]
fn split_fields_is_split() {
    for (s, sep) in [
        ("a, b, c", ", "),
        ("", ", "),
        ("abc", ", "),
        (", ", ", "),
        ("a, ", ", "),
        (", a", ", "),
        ("a,, b", ", "),
        ("aaa", "aa"),
        ("a;b;;c", ";"),
    ] {
        let expected: Vec<String> = s.split(sep).map(|l| l.to_string()).collect();
        assert_eq!(split_fields(s, sep), expected, "{:?} by {:?}", s, sep);
    }
}

#[test]
fn join_with_is_join() {
    let parts = vec!["a".to_string(), "".to_string(), "c".to_string()];
    assert_eq!(join_with(&parts, ", "), "a, , c");
    assert_eq!(join_with(&vec![], ", "), "");
    assert_eq!(join_with(&vec!["x".to_string()], ", "), "x");
    assert_eq!(join_with(&vec!["".to_string(), "".to_string()], "-"), "-");
}

#[test]
fn numbers_are_written_and_read() {
    for n in [0u64, 1, 9, 10, 99, 100, 12345, 1_000_000_007, u64::MAX - 1, u64::MAX] {
        assert_eq!(u64_to_string(n), n.to_string());
        assert_eq!(parse_u64(&n.to_string()), Some(n));
    }
    for s in ["", "+", "-", "-1", "1a", "a1", " 1", "1 ", "18446744073709551616", "99999999999999999999", "+12", "0012", "1_000", "٣"] {
        assert_eq!(parse_u64(s), s.parse::<u64>().ok(), "{:?}", s);
    }
}

#[test]
fn error_text_names_the_part() {
    assert_eq!(ForgeError::Config("c".into()).to_text(), "config error: c");
    assert_eq!(ForgeError::ConfigNotFound("/x".into()).to_text(), "config file not found: /x");
    assert_eq!(ForgeError::GitHub("g".into()).to_text(), "github error: g");
    assert_eq!(ForgeError::Git("g".into()).to_text(), "git error: g");
    assert_eq!(ForgeError::Claude("a".into()).to_text(), "agent execution error: a");
    assert_eq!(ForgeError::Timeout("t".into()).to_text(), "timeout: t");
    assert_eq!(ForgeError::State("s".into()).to_text(), "state error: s");
    assert_eq!(ForgeError::Io("i".into()).to_text(), "io error: i");
    assert_eq!(ForgeError::Yaml("y".into()).to_text(), "yaml error: y");
    assert_eq!(ForgeError::Json("j".into()).to_text(), "json error: j");
    assert_eq!(ForgeError::Octocrab("o".into()).to_text(), "octocrab error: o");
}

#[test]
fn an_empty_separator_cuts_nothing() {
    assert!(split_fields("abc", "").is_empty());
    assert!(split_fields("", "").is_empty());
}
