//! Tests of the HTML reducer.

use ottolangy::html::unhtml;

#[test]
fn plain_text_is_unchanged() {
    assert_eq!(unhtml("no markup here"), "no markup here".to_string());
}

#[test]
fn empty_input_is_empty() {
    assert_eq!(unhtml(""), String::new());
}

#[test]
fn tags_are_removed_text_kept_in_order() {
    assert_eq!(
        unhtml("<html><body><p>Hello <b>world</b>!</p></body></html>"),
        "Hello world!".to_string(),
    );
}

#[test]
fn empty_tag_is_removed() {
    assert_eq!(unhtml("a<>b"), "ab".to_string());
}

#[test]
fn unclosed_tag_is_kept() {
    assert_eq!(unhtml("a<b"), "a<b".to_string());
}

#[test]
fn lone_closer_is_kept() {
    assert_eq!(unhtml("a>b"), "a>b".to_string());
}

#[test]
fn span_runs_to_first_closer() {
    // The span opened at the first '<' swallows the second '<' and ends at
    // the first '>'.
    assert_eq!(unhtml("a<b<c>d"), "ad".to_string());
}

#[test]
fn text_after_unclosed_opener_is_kept() {
    assert_eq!(unhtml("a<b>c<d"), "ac<d".to_string());
}

#[test]
fn entities_are_not_decoded() {
    assert_eq!(unhtml("x &amp; y"), "x &amp; y".to_string());
}

#[test]
fn only_tags_leaves_nothing() {
    assert_eq!(unhtml("<p></p>"), String::new());
}

#[test]
fn multibyte_text_is_preserved() {
    assert_eq!(unhtml("<p>caf\u{e9} \u{e0} c\u{f4}t\u{e9}</p>"), "caf\u{e9} \u{e0} c\u{f4}t\u{e9}".to_string());
}
