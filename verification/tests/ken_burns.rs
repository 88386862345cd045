use mango_core::ken_burns::{get_preset, list_presets, preset_to_zoompan};

#[test]
fn list_returns_eight_presets() {
    assert_eq!(list_presets().len(), 8);
}

#[test]
fn every_listed_preset_is_found_by_id() {
    for p in list_presets() {
        assert_eq!(get_preset(&p.id).unwrap().id, p.id);
    }
    assert!(get_preset("nope").is_none());
}

#[test]
fn slow_zoom_in_expr() {
    let kb = preset_to_zoompan("slow_zoom_in", 151).unwrap();
    assert!(kb.zoom_expr.contains("1+0.15"), "got: {}", kb.zoom_expr);
    assert!(kb.zoom_expr.contains("on/150"), "got: {}", kb.zoom_expr);
    assert!(kb.x_expr.contains("0.5*iw"), "got: {}", kb.x_expr);
}

#[test]
fn dramatic_zoom_uses_pow() {
    let kb = preset_to_zoompan("dramatic_zoom", 121).unwrap();
    assert!(kb.zoom_expr.contains("pow(on/120,2)"), "got: {}", kb.zoom_expr);
}

#[test]
fn pan_left_xy() {
    let kb = preset_to_zoompan("pan_left", 91).unwrap();
    assert_eq!(kb.zoom_expr, "1.05");
    assert!(kb.x_expr.starts_with("(0.55"), "got: {}", kb.x_expr);
    assert!(kb.x_expr.contains("-0.1*on/90"), "got: {}", kb.x_expr);
    assert!(kb.y_expr.starts_with("0.5*ih"), "got: {}", kb.y_expr);
}

#[test]
fn unknown_preset_errors() {
    assert!(preset_to_zoompan("nonexistent", 100).is_err());
}

#[test]
fn single_frame_no_division_by_zero() {
    let kb = preset_to_zoompan("slow_zoom_in", 1).unwrap();
    assert!(kb.zoom_expr.contains("on/1"), "got: {}", kb.zoom_expr);
}
