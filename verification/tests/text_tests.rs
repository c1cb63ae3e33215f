//! Character-level string surgery.

use phonology::text::{contains_substring, remove_matches_str, repeating_replace, repeating_replace_in_place};

#[test]
fn repeating_replace_fills_the_span() {
    assert_eq!(repeating_replace("abcdef", "x", 2, 4), "abxxef");
    assert_eq!(repeating_replace("abcdef", "xy", 2, 4), "abxyxyef");
    assert_eq!(repeating_replace("abcdef", "x", 2, 2), "abcdef");
    assert_eq!(repeating_replace("abc", "z", 0, 3), "zzz");
}

#[test]
fn repeating_replace_counts_characters_not_bytes() {
    assert_eq!(repeating_replace("t\u{2b0}s", "\u{259}", 1, 2), "t\u{259}s");
}

#[test]
fn repeating_replace_in_place_matches() {
    let mut s = String::from("abcdef");
    repeating_replace_in_place(&mut s, "x", 2, 4);
    assert_eq!(s, "abxxef");
}

#[test]
fn substring_search() {
    assert!(contains_substring("abcdef", "cde"));
    assert!(contains_substring("abcdef", ""));
    assert!(contains_substring("abcdef", "abcdef"));
    assert!(!contains_substring("abcdef", "cdf"));
    assert!(!contains_substring("ab", "abc"));
    assert!(contains_substring("d\u{2b7}\u{361}v", "\u{361}v"));
}

#[test]
fn remove_matches_deletes_every_occurrence() {
    assert_eq!(remove_matches_str("abcabcabc", "b"), "acacac");
    assert_eq!(remove_matches_str("aaa", "aa"), "a");
    assert_eq!(remove_matches_str("abc", ""), "abc");
    assert_eq!(remove_matches_str("abc", "xyz"), "abc");
    assert_eq!(remove_matches_str("t\u{2b0}\u{2b0}", "\u{2b0}"), "t");
}
