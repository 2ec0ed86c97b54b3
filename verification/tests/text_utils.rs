use obj_mesh::numbers::parse_u32;
use obj_mesh::text::{split_on, split_once_on, str_eq};

#[test]
fn split_keeps_empty_fields_like_std_split() {
    let reference: Vec<&str> = "a//bc/".split('/').collect();
    assert_eq!(split_on("a//bc/", '/'), reference);
    assert_eq!(split_on("", '/'), vec![""]);
    assert_eq!(split_on("abc", '/'), vec!["abc"]);
    assert_eq!(split_on("1 2 3", ' '), vec!["1", "2", "3"]);
}

#[test]
fn split_once_cuts_at_the_first_separator() {
    assert_eq!(split_once_on("v 1 2 3", ' '), "v 1 2 3".split_once(' '));
    assert_eq!(split_once_on("nospace", ' '), None);
    assert_eq!(split_once_on(" lead", ' '), Some(("", "lead")));
}

#[test]
fn string_equality_is_by_characters() {
    assert!(str_eq("usemtl", "usemtl"));
    assert!(!str_eq("usemtl", "usemtx"));
    assert!(!str_eq("us", "usemtl"));
    assert!(str_eq("", ""));
}

#[test]
fn parse_u32_matches_std() {
    for s in ["0", "1", "42", "+7", "4294967295", "4294967296", "", "+", "1x", "-3", " 1"] {
        assert_eq!(parse_u32(s), s.parse::<u32>().ok(), "on {:?}", s);
    }
}
