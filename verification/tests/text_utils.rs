use openai_proxy::ids::fresh_uuid;
use openai_proxy::ids::now_ts;
use openai_proxy::ids::response_id;
use openai_proxy::text::is_blank_str;
use openai_proxy::text::join_lines;
use openai_proxy::text::str_eq;
use openai_proxy::text::trim_str;

#[test]
fn trim_removes_leading_and_trailing_whitespace() {
    assert_eq!(trim_str("  hello  "), "hello");
    assert_eq!(trim_str("\t\n a b \r\n"), "a b");
    assert_eq!(trim_str("no-space"), "no-space");
    assert_eq!(trim_str(""), "");
    assert_eq!(trim_str(" \t\r\n"), "");
}

#[test]
fn blankness_means_nothing_but_whitespace() {
    assert!(is_blank_str(""));
    assert!(is_blank_str("   \t\n"));
    assert!(!is_blank_str(" . "));
}

#[test]
fn join_inserts_single_newlines() {
    assert_eq!(join_lines(&vec![]), "");
    assert_eq!(join_lines(&vec!["one".to_string()]), "one");
    assert_eq!(
        join_lines(&vec!["one".to_string(), "".to_string(), "three".to_string()]),
        "one\n\nthree"
    );
}

#[test]
fn string_equality_compares_characters() {
    assert!(str_eq("abc", "abc"));
    assert!(!str_eq("abc", "abd"));
    assert!(!str_eq("abc", "ab"));
    assert!(str_eq("", ""));
}

#[test]
fn fresh_identifiers_have_the_documented_shape() {
    let u = fresh_uuid();
    assert_eq!(u.len(), 36);
    let v = fresh_uuid();
    assert_ne!(u, v);
    let r = response_id();
    assert!(r.starts_with("resp-codex-"));
    assert_eq!(r.len(), "resp-codex-".len() + 36);
}

#[test]
fn timestamps_do_not_go_backwards() {
    let a = now_ts();
    let b = now_ts();
    assert!(b >= a);
    assert!(a > 0);
}
