use sshkeeper::paths::{file_name_of, join_child, parent_path, strip_trailing};
use sshkeeper::text::{
    decimal_string, join_texts, parse_u16_text, replace_text, split_text, split_trimmed, text_before,
    text_contains, trimmed, without_last,
};

#[test]
fn parent_paths() {
    assert_eq!(parent_path("/home/me/file.txt").as_deref(), Some("/home/me"));
    assert_eq!(parent_path("/home").as_deref(), Some("/"));
    assert_eq!(parent_path("/"), None);
    assert_eq!(parent_path("file").as_deref(), Some(""));
    assert_eq!(parent_path("a/b/").as_deref(), Some("a"));
    assert_eq!(parent_path(""), None);
}

#[test]
fn file_names() {
    assert_eq!(file_name_of("/home/me/file.txt").as_deref(), Some("file.txt"));
    assert_eq!(file_name_of("dir/").as_deref(), Some("dir"));
    assert_eq!(file_name_of("/"), None);
    assert_eq!(file_name_of("/a/.."), None);
}

#[test]
fn child_paths() {
    assert_eq!(join_child("/", "etc"), "/etc");
    assert_eq!(join_child("/home/me/", "x"), "/home/me/x");
    assert_eq!(join_child("/srv", "www"), "/srv/www");
    assert_eq!(strip_trailing("a///", '/'), "a");
}

#[test]
fn numbers() {
    assert_eq!(parse_u16_text("22"), Some(22));
    assert_eq!(parse_u16_text("+8080"), Some(8080));
    assert_eq!(parse_u16_text("65535"), Some(65535));
    assert_eq!(parse_u16_text("65536"), None);
    assert_eq!(parse_u16_text(""), None);
    assert_eq!(parse_u16_text("12a"), None);
    assert_eq!(parse_u16_text("-1"), None);
    assert_eq!(decimal_string(0), "0");
    assert_eq!(decimal_string(4096), "4096");
}

#[test]
fn trimming_and_splitting() {
    assert_eq!(trimmed("  a b \t\n"), "a b");
    assert_eq!(split_text("a,b,,c", ','), vec!["a", "b", "", "c"]);
    assert_eq!(split_text("", ','), vec![""]);
    assert_eq!(split_trimmed(" web , db,, ", ','), vec!["web", "db"]);
    assert_eq!(join_texts(&vec!["a".to_string(), "b".to_string()], ", "), "a, b");
    assert_eq!(without_last("abc"), "ab");
    assert_eq!(without_last(""), "");
}

#[test]
fn searching_and_replacing() {
    assert!(text_contains("hello world", "o w"));
    assert!(text_contains("abc", ""));
    assert!(!text_contains("abc", "abcd"));
    assert_eq!(replace_text("{a}-{a}", "{a}", "x"), "x-x");
    assert!(text_before("abc", "abd"));
    assert!(text_before("ab", "abc"));
    assert!(!text_before("b", "a"));
    assert!(!text_before("a", "a"));
}
