use dd_backup::text::{all_distinct, append_all, contains_text, is_text, join};
use dd_backup::text::{push_text, replace_spaces, same_text, split_chars, to_chars};

fn chars(s: &str) -> Vec<char> {
    s.chars().collect()
}

fn strings(list: &[&str]) -> Vec<String> {
    list.iter().map(|s| s.to_string()).collect()
}

#[test]
fn texts_are_taken_apart_and_put_together() {
    assert_eq!(to_chars("a\u{e9}b"), vec!['a', '\u{e9}', 'b']);
    assert_eq!(to_chars(""), Vec::<char>::new());
    let mut s = "ab".to_string();
    push_text(&mut s, "12");
    assert_eq!(s, "ab12");
    push_text(&mut s, "");
    assert_eq!(s, "ab12");
    assert_eq!(dd_backup::text::concat("ab", "cd"), "abcd");
    assert_eq!(dd_backup::text::concat3("a", "", "b"), "ab");
}

#[test]
fn spaces_become_hyphens() {
    assert_eq!(replace_spaces("my  disk one "), "my--disk-one-");
    assert_eq!(replace_spaces("tab\there"), "tab\there");
    assert_eq!(replace_spaces(""), "");
}

#[test]
fn a_text_is_found_in_another() {
    assert!(contains_text("2024-03-09_card_WD_S1.img", "WD_S1.img"));
    assert!(contains_text("abc", "abc"));
    assert!(contains_text("abc", ""));
    assert!(contains_text("", ""));
    assert!(contains_text("aab", "ab"));
    assert!(!contains_text("abc", "abcd"));
    assert!(!contains_text("abc", "ac"));
    assert!(!contains_text("", "a"));
}

#[test]
fn a_text_is_split_at_each_separator() {
    let pieces: Vec<String> = split_chars(&chars("a b  c "), ' ').iter().map(|p| p.iter().collect()).collect();
    assert_eq!(pieces, vec!["a", "b", "", "c", ""]);
    assert_eq!(split_chars(&chars(""), ' '), vec![Vec::<char>::new()]);
    assert_eq!(split_chars(&chars("abc"), '\n'), vec![chars("abc")]);
}

#[test]
fn texts_are_joined_with_a_separator() {
    assert_eq!(join(&strings(&["dd", "if=a", "of=b"]), " "), "dd if=a of=b");
    assert_eq!(join(&strings(&["one"]), "_"), "one");
    assert_eq!(join(&Vec::new(), "_"), "");
    assert_eq!(join(&strings(&["", ""]), "_"), "_");
    let mut all = strings(&["a"]);
    append_all(&mut all, strings(&["b", "c"]));
    assert_eq!(all, strings(&["a", "b", "c"]));
}

#[test]
fn texts_are_compared() {
    assert!(same_text("abc", "abc"));
    assert!(!same_text("abc", "abd"));
    assert!(!same_text("abc", "ab"));
    assert!(is_text(&Some("S1".to_string()), "S1"));
    assert!(!is_text(&Some("S1".to_string()), "S2"));
    assert!(!is_text(&None, ""));
    assert!(all_distinct(&strings(&["a", "b", "c"])));
    assert!(!all_distinct(&strings(&["a", "b", "a"])));
    assert!(all_distinct(&Vec::new()));
}
