use mango_core::asset::{
    build_metadata_json,
    base_original_name, check_import_extension, check_import_size, disambiguate_original_name,
    display_title_from_prompt, ext_from_content_type, numbered_name, split_stem_ext, trim_shot_id,
    MAX_FILE_SIZE_BYTES,
};
use mango_core::error::CoreError;

fn taken(names: &[&str]) -> Vec<String> {
    names.iter().map(|s| s.to_string()).collect()
}

#[test]
fn split_stem_ext_basic() {
    assert_eq!(split_stem_ext("项羽.png"), ("项羽", ".png"));
    assert_eq!(split_stem_ext("项羽v1.2.png"), ("项羽v1.2", ".png"));
    assert_eq!(split_stem_ext("noext"), ("noext", ""));
}

#[test]
fn first_of_a_kind_keeps_clean_name() {
    let out = disambiguate_original_name("项羽.png", &taken(&[]));
    assert_eq!(out, "项羽.png");
}

#[test]
fn second_collision_becomes_parenthesised_2() {
    let out = disambiguate_original_name("项羽.png", &taken(&["项羽.png"]));
    assert_eq!(out, "项羽 (2).png");
}

#[test]
fn third_collision_becomes_parenthesised_3() {
    let out = disambiguate_original_name("项羽.png", &taken(&["项羽.png", "项羽 (2).png"]));
    assert_eq!(out, "项羽 (3).png");
}

#[test]
fn reuses_freed_number_after_deletion() {
    let out = disambiguate_original_name("项羽.png", &taken(&["项羽.png", "项羽 (3).png"]));
    assert_eq!(out, "项羽 (2).png");
}

#[test]
fn handles_extensionless_base() {
    let out = disambiguate_original_name("noext", &taken(&["noext"]));
    assert_eq!(out, "noext (2)");
}

#[test]
fn numbered_names_of_distinct_copies_differ() {
    assert_eq!(numbered_name("a.b.png", 7), "a.b (7).png");
    assert_ne!(numbered_name("x.png", 2), numbered_name("x.png", 3));
}

#[test]
fn cjk_with_comma_separated_segments_keeps_first_clause() {
    assert_eq!(display_title_from_prompt("赛博朋克少女, 霓虹街头, anime, 4K"), "赛博朋克少女");
}

#[test]
fn cjk_full_width_comma_also_splits() {
    assert_eq!(display_title_from_prompt("夕阳下侧脸，soft lighting"), "夕阳下侧脸");
}

#[test]
fn english_first_segment_truncates_to_12_chars_and_trims() {
    assert_eq!(display_title_from_prompt("a beautiful girl, masterpiece"), "a beautiful");
}

#[test]
fn no_separator_short_prompt_returns_full_text() {
    assert_eq!(display_title_from_prompt("夕阳下侧脸"), "夕阳下侧脸");
}

#[test]
fn no_separator_long_prompt_truncates_at_12_chars() {
    assert_eq!(display_title_from_prompt("abcdefghijklmn"), "abcdefghijkl");
}

#[test]
fn semicolon_and_newline_also_split() {
    assert_eq!(display_title_from_prompt("foo; bar; baz"), "foo");
    assert_eq!(display_title_from_prompt("foo\nbar"), "foo");
}

#[test]
fn leading_whitespace_does_not_leak_into_title() {
    assert_eq!(display_title_from_prompt("   赛博朋克少女, x"), "赛博朋克少女");
}

#[test]
fn empty_prompt_yields_empty_string() {
    assert_eq!(display_title_from_prompt(""), "");
    assert_eq!(display_title_from_prompt("   "), "");
    assert_eq!(display_title_from_prompt(",,,"), "");
}

#[test]
fn base_name_falls_back_to_generated() {
    assert_eq!(base_original_name(None, "png"), "generated.png");
    assert_eq!(base_original_name(Some("   "), "mp4"), "generated.mp4");
    assert_eq!(base_original_name(Some(",,,"), "jpg"), "generated.jpg");
    assert_eq!(base_original_name(Some("  夕阳下侧脸，soft"), "webp"), "夕阳下侧脸.webp");
}

#[test]
fn ext_follows_content_type() {
    assert_eq!(ext_from_content_type("image/png", "image"), "png");
    assert_eq!(ext_from_content_type("image/webp", "image"), "webp");
    assert_eq!(ext_from_content_type("", "image"), "jpg");
    assert_eq!(ext_from_content_type("video/webm", "video"), "webm");
    assert_eq!(ext_from_content_type("video/quicktime", "video"), "mp4");
    assert_eq!(ext_from_content_type("audio/wav", "audio"), "wav");
    assert_eq!(ext_from_content_type("audio/mpeg", "audio"), "mp3");
    assert_eq!(ext_from_content_type("image/png", "model"), "bin");
}

#[test]
fn prepare_artifacts_unsupported_ext_fails() {
    let r = check_import_extension(Some("pdf"));
    assert!(matches!(r, Err(CoreError::Validation(msg)) if msg.contains("unsupported")));
}

#[test]
fn import_extension_is_lower_cased() {
    assert_eq!(check_import_extension(Some("PNG")).unwrap(), "png");
    assert_eq!(check_import_extension(Some("jpeg")).unwrap(), "jpeg");
    assert!(check_import_extension(None).is_err());
}

#[test]
fn prepare_artifacts_oversize_fails() {
    let r = check_import_size(MAX_FILE_SIZE_BYTES + 1);
    assert!(matches!(r, Err(CoreError::Validation(msg)) if msg.contains("too large")));
    assert!(check_import_size(MAX_FILE_SIZE_BYTES).is_ok());
}

#[test]
fn shot_id_empty_string_becomes_none() {
    assert_eq!(trim_shot_id(Some("   ")), None);
    assert_eq!(trim_shot_id(Some(" s1 ")), Some("s1"));
    assert_eq!(trim_shot_id(None), None);
}

#[test]
fn metadata_json_matches_a_serde_json_object() {
    assert_eq!(build_metadata_json(None, None), None);
    let text = build_metadata_json(Some((640, 480)), Some("a \"cat\"\n")).unwrap();
    assert_eq!(text, "{\"height\":480,\"prompt\":\"a \\\"cat\\\"\\n\",\"width\":640}");
    let mut obj = serde_json::Map::new();
    obj.insert("width".into(), serde_json::Value::from(640u32));
    obj.insert("height".into(), serde_json::Value::from(480u32));
    obj.insert("prompt".into(), serde_json::Value::from("a \"cat\"\n"));
    assert_eq!(text, serde_json::Value::Object(obj).to_string());
    assert_eq!(build_metadata_json(Some((1, 2)), None).unwrap(), "{\"height\":2,\"width\":1}");
    assert_eq!(build_metadata_json(None, Some("p")).unwrap(), "{\"prompt\":\"p\"}");
}

#[test]
fn content_hash_is_hex_sha256() {
    assert_eq!(
        mango_core::asset::content_hash(b"abc"),
        "ba7816bf8f01cfea414140de5dae2223b00361a396177a9cb410ff61f20015ad"
    );
    assert_eq!(mango_core::asset::content_hash(b"").len(), 64);
}
