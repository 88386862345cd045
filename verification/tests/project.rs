use mango_core::project::{derive_subdir_slug, sanitize_unicode_for_subdir};

#[test]
fn derive_subdir_slug_uses_ascii_slug_when_available() {
    let s = derive_subdir_slug("My First Comic", "abcd1234-rest");
    assert_eq!(s, "my-first-comic-abcd1234");
}

#[test]
fn derive_subdir_slug_cjk_name_produces_nonempty_segment() {
    let s = derive_subdir_slug("我的第一部漫剧", "abcd1234-rest");
    assert!(s.ends_with("-abcd1234"));
    assert!(s.len() > "-abcd1234".len());
}

#[test]
fn derive_subdir_slug_falls_back_to_uuid_when_name_yields_nothing() {
    let s = derive_subdir_slug("///", "abcd1234-rest");
    assert_eq!(s, "p-abcd1234");
}

#[test]
fn sanitize_unicode_for_subdir_keeps_cjk() {
    assert_eq!(sanitize_unicode_for_subdir("我的漫剧"), "我的漫剧");
}

#[test]
fn sanitize_unicode_for_subdir_strips_separators_and_collapses_space() {
    assert_eq!(sanitize_unicode_for_subdir("路径/测试  名"), "路径测试-名");
}

#[test]
fn sanitize_unicode_for_subdir_trims_dots_and_dashes() {
    assert_eq!(sanitize_unicode_for_subdir("--.foo.--"), "foo");
}

#[test]
fn sanitize_unicode_for_subdir_returns_empty_when_all_stripped() {
    assert_eq!(sanitize_unicode_for_subdir("///"), "");
}

#[test]
fn sanitized_names_hold_no_forbidden_character() {
    let s = sanitize_unicode_for_subdir(" a:b*c?\"d<e>f|g\\h\u{7}i\tj ");
    assert_eq!(s, "abcdefghi-j");
    for c in s.chars() {
        assert!(!"/\\:*?\"<>|\0".contains(c) && !c.is_control() && !c.is_whitespace());
    }
}

#[test]
fn distinct_ids_give_distinct_directories() {
    let a = derive_subdir_slug("Same", "11111111-x");
    let b = derive_subdir_slug("Same", "22222222-x");
    assert_ne!(a, b);
    assert!(a.ends_with("-11111111"));
}

#[test]
fn subdir_slug_takes_the_first_eight_bytes_of_a_unicode_id() {
    let s = derive_subdir_slug("///", "ab一二三x");
    assert_eq!(s, "p-ab一二");
}
