use mango_core::aspect_ratio::{get_platform_preset, list_aspect_ratios, list_platform_presets};

#[test]
fn aspect_ratio_count() {
    assert_eq!(list_aspect_ratios().len(), 4);
}

#[test]
fn platform_presets_count() {
    assert_eq!(list_platform_presets().len(), 5);
}

#[test]
fn douyin_is_vertical() {
    let p = get_platform_preset("douyin").unwrap();
    assert_eq!(p.width, 1080);
    assert_eq!(p.height, 1920);
    assert_eq!(p.codec, "libx264");
}

#[test]
fn unknown_platform_is_none() {
    assert!(get_platform_preset("myspace").is_none());
}

#[test]
fn every_listed_platform_is_found_by_id() {
    for p in list_platform_presets() {
        let q = get_platform_preset(&p.id).unwrap();
        assert_eq!(q.width, p.width);
        assert_eq!(q.height, p.height);
    }
}
