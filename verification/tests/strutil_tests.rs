use container_keeper::strutil::{
    concat_strs, contains_char, contains_substr, find_char, find_substr, rfind_char_before,
    split_once_char, str_eq, strip_leading_char, trim_quote_chars,
};

#[test]
fn string_equality_is_by_characters() {
    assert!(str_eq("abc", "abc"));
    assert!(!str_eq("abc", "abd"));
    assert!(!str_eq("abc", "ab"));
    assert!(str_eq("", ""));
}

#[test]
fn the_first_occurrence_of_a_character_is_found() {
    assert_eq!(find_char("a:b:c", ':'), Some(1));
    assert_eq!(find_char("abc", ':'), None);
    assert!(contains_char("a:b", ':'));
    assert!(!contains_char("ab", ':'));
}

#[test]
fn leading_separators_are_stripped() {
    assert_eq!(strip_leading_char("/web", '/'), "web");
    assert_eq!(strip_leading_char("///web", '/'), "web");
    assert_eq!(strip_leading_char("web", '/'), "web");
    assert_eq!(strip_leading_char("", '/'), "");
    assert_eq!(strip_leading_char("/a/b", '/'), "a/b");
}

#[test]
fn concatenation_joins_both_parts() {
    assert_eq!(concat_strs("redis", ":latest"), "redis:latest");
    assert_eq!(concat_strs("", "x"), "x");
}

#[test]
fn substrings_are_found_at_their_first_position() {
    assert_eq!(find_substr("the Host: here", "Host:"), Some(4));
    assert_eq!(find_substr("aaab", "aab"), Some(1));
    assert_eq!(find_substr("abc", "zzz"), None);
    assert!(contains_substr("Pull complete for layer", "Pull complete"));
    assert!(!contains_substr("Downloading", "Pull complete"));
}

#[test]
fn the_last_occurrence_before_a_position_is_found() {
    assert_eq!(rfind_char_before("a\nb\nc", '\n', 4), Some(3));
    assert_eq!(rfind_char_before("a\nb\nc", '\n', 3), Some(1));
    assert_eq!(rfind_char_before("abc", '\n', 3), None);
}

#[test]
fn surrounding_quotes_commas_and_spaces_are_trimmed() {
    assert_eq!(trim_quote_chars("\"/run/docker.sock\", "), "/run/docker.sock");
    assert_eq!(trim_quote_chars("  plain  "), "plain");
    assert_eq!(trim_quote_chars("\",\" \""), "");
    assert_eq!(trim_quote_chars("a b"), "a b");
}

#[test]
fn splitting_at_the_first_separator_keeps_the_rest() {
    let (host, container) = split_once_char("6380:6379", ':').unwrap();
    assert_eq!(host, "6380");
    assert_eq!(container, "6379");
    let (a, b) = split_once_char("a:b:c", ':').unwrap();
    assert_eq!(a, "a");
    assert_eq!(b, "b:c");
    assert!(split_once_char("8080", ':').is_none());
}
