use database::text::{
    chars_of, join_strings, push_char, push_str, remove_str, replace_chars, split_str, string_of,
};

fn strings(v: &[&str]) -> Vec<String> {
    v.iter().map(|s| s.to_string()).collect()
}

#[test]
fn split_str_matches_std_split() {
    for (s, c) in [("a/b/c", '/'), ("", '/'), ("/", '/'), ("a//b/", '/'), ("abc", '_'), ("x_y", '_')] {
        let expected: Vec<String> = s.split(c).map(|p| p.to_string()).collect();
        assert_eq!(split_str(s, c), expected);
    }
}

#[test]
fn split_str_keeps_empty_pieces() {
    assert_eq!(split_str("/a/", '/'), strings(&["", "a", ""]));
    assert_eq!(split_str("", '/'), strings(&[""]));
}

#[test]
fn join_strings_puts_separator_between() {
    assert_eq!(join_strings(&strings(&["a", "b", "c"]), "/"), "a/b/c");
    assert_eq!(join_strings(&strings(&["a"]), ", "), "a");
    assert_eq!(join_strings(&Vec::new(), ","), "");
    assert_eq!(join_strings(&strings(&["", ""]), " and "), " and ");
}

#[test]
fn split_then_join_gives_text_back() {
    for s in ["app/get/request/database/version", "", "/", "a//b"] {
        assert_eq!(join_strings(&split_str(s, '/'), "/"), s);
    }
}

#[test]
fn remove_str_matches_std_replace() {
    for (s, pat) in [("temp_12345", "temp"), ("aaa", "aa"), ("x_y_z", "_"), ("abc", ""), ("", "a"), ("ab", "abc")] {
        assert_eq!(remove_str(s, pat), s.replace(pat, ""));
    }
}

#[test]
fn replace_chars_swaps_every_occurrence() {
    assert_eq!(replace_chars(r#"{"a":"b"}"#, '"', '\''), "{'a':'b'}");
    assert_eq!(replace_chars("none here", '"', '\''), "none here");
}

#[test]
fn chars_and_string_round_trip() {
    let cs = chars_of("héllo");
    assert_eq!(cs, vec!['h', 'é', 'l', 'l', 'o']);
    assert_eq!(string_of(&cs), "héllo");
}

#[test]
fn push_helpers_append() {
    let mut s = String::from("ab");
    push_char(&mut s, 'c');
    push_str(&mut s, "de");
    assert_eq!(s, "abcde");
}
