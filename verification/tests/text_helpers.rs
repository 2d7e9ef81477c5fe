use namma_dsl_rs::text::{
    join_texts, lines_text, replace_text, split_text, trim_end_text, trim_text, words_text,
};

fn owned(v: &[&str]) -> Vec<String> {
    v.iter().map(|s| s.to_string()).collect()
}

#[test]
fn trimming() {
    assert_eq!(trim_text("  a b \t\n"), "a b");
    assert_eq!(trim_text("\u{a0}x\u{3000}"), "x");
    assert_eq!(trim_text("   "), "");
    assert_eq!(trim_end_text("abc \n\n"), "abc");
    assert_eq!(trim_end_text("  abc"), "  abc");
}

#[test]
fn splitting_and_joining() {
    assert_eq!(split_text("a, b,,c", ','), owned(&["a", " b", "", "c"]));
    assert_eq!(split_text("", ','), owned(&[""]));
    assert_eq!(split_text("a,", ','), owned(&["a", ""]));
    assert_eq!(join_texts(&owned(&["a", "b", "c"]), ", "), "a, b, c");
    assert_eq!(join_texts(&owned(&[]), "_"), "");
    assert_eq!(join_texts(&owned(&["only"]), "_"), "only");
}

#[test]
fn words_and_lines() {
    assert_eq!(words_text("  ADD   COLUMN x\ty "), owned(&["ADD", "COLUMN", "x", "y"]));
    assert_eq!(words_text("   "), owned(&[]));
    assert_eq!(lines_text("foo\r\nbar\n\nbaz\r"), owned(&["foo", "bar", "", "baz\r"]));
    assert_eq!(lines_text("a\n"), owned(&["a"]));
    assert_eq!(lines_text(""), owned(&[]));
}

#[test]
fn replacing() {
    assert_eq!(replace_text("$GIT_ROOT/a/$GIT_ROOT", "$GIT_ROOT", "/r"), "/r/a//r");
    assert_eq!(replace_text("aaa", "aa", "b"), "ba");
    assert_eq!(replace_text("plain", "$GIT_ROOT", "/r"), "plain");
}
