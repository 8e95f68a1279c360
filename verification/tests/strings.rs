use vidscrape::err::ScrapeError;
use vidscrape::utils::{contains_sub, find_char, get_only, last_position_of, rfind_char, str_eq};

#[test]
fn str_eq_basics() {
    assert!(str_eq("", ""));
    assert!(str_eq("abc", "abc"));
    assert!(!str_eq("abc", "abd"));
    assert!(!str_eq("abc", "ab"));
    assert!(str_eq("naïve", "naïve"));
}

#[test]
fn find_char_first_occurrence() {
    assert_eq!(find_char("a=b=c", '='), Some(1));
    assert_eq!(find_char("abc", '='), None);
    assert_eq!(find_char("", 'x'), None);
}

#[test]
fn rfind_char_last_occurrence() {
    assert_eq!(rfind_char("a/b/c", '/'), Some(3));
    assert_eq!(rfind_char("abc", '/'), None);
}

#[test]
fn last_position_of_finds_last() {
    assert_eq!(last_position_of("a/b/c", '/'), 3);
    assert_eq!(last_position_of("/abc", '/'), 0);
}

#[test]
fn contains_sub_search() {
    assert!(contains_sub("feed/watch-history/x", "watch-history"));
    assert!(!contains_sub("feed/watch", "watch-history"));
    assert!(contains_sub("anything", ""));
    assert!(contains_sub("aaab", "aab"));
}

#[test]
fn get_only_single_element() {
    let r = get_only(vec![7u32], "err");
    assert_eq!(r.unwrap(), 7);
}

#[test]
fn get_only_rejects_other_lengths() {
    let empty: Vec<u32> = vec![];
    assert!(matches!(get_only(empty, "err"), Err(ScrapeError::SchemaViolation(_))));
    assert!(matches!(
        get_only(vec![1u32, 2], "err"),
        Err(ScrapeError::SchemaViolation(_))
    ));
}
