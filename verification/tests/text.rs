use unitools::error::ToolError;
use unitools::file::{file_extension, file_name};
use unitools::strings::{join_strings, str_eq, u64_to_string};
use unitools::text::{
    contains, contains_ignore_case, count_chars, count_lines, count_words, levenshtein_distance,
    regex_find_all, regex_replace_all, split_lines, to_lowercase, to_uppercase,
};

#[test]
fn character_counts() {
    assert_eq!(count_chars(""), 0);
    assert_eq!(count_chars("hello"), 5);
    assert_eq!(count_chars("héllo"), 5);
    assert_eq!(count_chars("日本語"), 3);
}

#[test]
fn word_counts() {
    assert_eq!(count_words(""), 0);
    assert_eq!(count_words("   "), 0);
    assert_eq!(count_words("hello"), 1);
    assert_eq!(count_words("hello  world"), 2);
    assert_eq!(count_words("  one\ttwo\nthree  "), 3);
}

#[test]
fn line_counts() {
    assert_eq!(count_lines(""), 0);
    assert_eq!(count_lines("a"), 1);
    assert_eq!(count_lines("a\n"), 1);
    assert_eq!(count_lines("a\nb"), 2);
    assert_eq!(count_lines("\n\n"), 2);
}

#[test]
fn line_splitting() {
    let empty: Vec<String> = Vec::new();
    assert_eq!(split_lines(""), empty);
    assert_eq!(split_lines("\n"), vec!["".to_string()]);
    assert_eq!(
        split_lines("a\r\nb\nc"),
        vec!["a".to_string(), "b".to_string(), "c".to_string()]
    );
    assert_eq!(split_lines("a\nb\n"), vec!["a".to_string(), "b".to_string()]);
    assert_eq!(split_lines("a\r"), vec!["a\r".to_string()]);
}

#[test]
fn edit_distances() {
    assert_eq!(levenshtein_distance("", ""), 0);
    assert_eq!(levenshtein_distance("", "abc"), 3);
    assert_eq!(levenshtein_distance("abc", ""), 3);
    assert_eq!(levenshtein_distance("abc", "abc"), 0);
    assert_eq!(levenshtein_distance("kitten", "sitting"), 3);
    assert_eq!(levenshtein_distance("flaw", "lawn"), 2);
}

#[test]
fn substring_search() {
    assert!(contains("hello world", "lo w"));
    assert!(contains("abc", ""));
    assert!(!contains("abc", "abd"));
    assert!(!contains("ab", "abc"));
    assert!(contains_ignore_case("Hello World", "WORLD"));
    assert!(!contains_ignore_case("Hello World", "planet"));
}

#[test]
fn case_conversion() {
    assert_eq!(to_uppercase("Hello"), "HELLO");
    assert_eq!(to_lowercase("Hello"), "hello");
    assert_eq!(to_uppercase(""), "");
    assert_eq!(to_lowercase("ÄÖÜ"), "äöü");
}

#[test]
fn regex_searching() {
    let found = regex_find_all("foo1 bar22", r"\d+").unwrap();
    assert_eq!(found, vec!["1".to_string(), "22".to_string()]);
    let none = regex_find_all("foo", r"\d").unwrap();
    assert!(none.is_empty());
    let err = regex_find_all("foo", "(").unwrap_err();
    assert!(matches!(err, ToolError::ParseError(_)));
}

#[test]
fn regex_replacing() {
    assert_eq!(regex_replace_all("aaa", "a", "b").unwrap(), "bbb");
    assert_eq!(regex_replace_all("a1b2", r"\d", "").unwrap(), "ab");
    let err = regex_replace_all("foo", "[", "x").unwrap_err();
    assert!(matches!(err, ToolError::ParseError(_)));
}

#[test]
fn string_helpers() {
    assert!(str_eq("abc", "abc"));
    assert!(!str_eq("abc", "abd"));
    assert_eq!(u64_to_string(0), "0");
    assert_eq!(u64_to_string(7), "7");
    assert_eq!(u64_to_string(1234567890), "1234567890");
    let parts = vec!["a".to_string(), "b".to_string(), "c".to_string()];
    assert_eq!(join_strings(&parts, "\n"), "a\nb\nc");
    let one = vec!["a".to_string()];
    assert_eq!(join_strings(&one, "-"), "a");
    let empty: Vec<String> = Vec::new();
    assert_eq!(join_strings(&empty, "-"), "");
}

#[test]
fn file_names() {
    assert_eq!(file_name("/tmp/x.txt"), Some("x.txt".to_string()));
    assert_eq!(file_name("x"), Some("x".to_string()));
    assert_eq!(file_name("a/b/c"), Some("c".to_string()));
    assert_eq!(file_name("/a/.."), None);
    assert_eq!(file_name("/a/."), None);
    assert_eq!(file_name("a/b/"), None);
    assert_eq!(file_name(""), None);
}

#[test]
fn file_extensions() {
    assert_eq!(file_extension("/a/b.tar.gz"), Some("gz".to_string()));
    assert_eq!(file_extension("notes.txt"), Some("txt".to_string()));
    assert_eq!(file_extension(".gitignore"), None);
    assert_eq!(file_extension("plain"), None);
    assert_eq!(file_extension("dotted."), Some("".to_string()));
}
