use mango_core::error::CoreError;
use mango_core::export::{
    choose_export_mode, clip_for_copy, place_audio, plan_clip_export, resolve_transition,
    timeline_offsets, timeline_total_duration, AudioRole, ClipExportPlan, ExportMode,
    FinalExportSettings, PlacedAudio, ResolvedClip, ShotAudioRef,
};

fn clip(start: Option<i64>, end: Option<i64>) -> ResolvedClip {
    ResolvedClip { source_path: "/v.mp4".to_string(), trim_start_ms: start, trim_end_ms: end }
}

#[test]
fn export_empty_clips_returns_error() {
    let err = plan_clip_export(&vec![]).unwrap_err();
    assert!(err.message().contains("no video clips"), "expected validation error, got: {err:?}");
    assert!(matches!(err, CoreError::Validation(_)));
}

#[test]
fn export_plan_by_clip_count_and_trims() {
    assert_eq!(plan_clip_export(&vec![clip(None, None)]).unwrap(), ClipExportPlan::CopySingle);
    assert_eq!(plan_clip_export(&vec![clip(Some(100), None)]).unwrap(), ClipExportPlan::TrimSingle);
    assert_eq!(plan_clip_export(&vec![clip(None, None), clip(None, None)]).unwrap(), ClipExportPlan::Concat);
}

#[test]
fn trim_bounds_default_to_the_whole_source() {
    assert_eq!(clip(None, None).trim_bounds(9000), (0, 9000));
    assert_eq!(clip(Some(1000), Some(5000)).trim_bounds(9000), (1000, 5000));
    assert_eq!(clip(Some(1000), None).played_duration(9000), 8000);
}

#[test]
fn clips_are_laid_end_to_end() {
    let (offsets, total) = timeline_offsets(&vec![4000, 2500, 1000]);
    assert_eq!(offsets, vec![0, 4000, 6500]);
    assert_eq!(total, 7500);
    assert_eq!(timeline_offsets(&vec![]), (vec![], 0));
}

#[test]
fn default_settings_include_every_role() {
    let s = FinalExportSettings::default();
    assert!(s.includes(AudioRole::Voice) && s.includes(AudioRole::Sfx) && s.includes(AudioRole::Bgm));
    let no_bgm = FinalExportSettings { include_voice: true, include_sfx: true, include_bgm: false };
    assert!(!no_bgm.includes(AudioRole::Bgm));
}

#[test]
fn render_needed_for_effects_or_mixed_formats() {
    assert_eq!(choose_export_mode(false, 0, 0, true), ExportMode::Copy);
    assert_eq!(choose_export_mode(true, 0, 0, true), ExportMode::Render);
    assert_eq!(choose_export_mode(false, 1, 0, true), ExportMode::Render);
    assert_eq!(choose_export_mode(false, 0, 2, true), ExportMode::Render);
    assert_eq!(choose_export_mode(false, 0, 0, false), ExportMode::Render);
}

#[test]
fn copy_clip_trims_only_where_needed() {
    let c = clip_for_copy("/a.mp4".to_string(), 0, 5000, 5000);
    assert_eq!((c.trim_start_ms, c.trim_end_ms), (None, None));
    let c = clip_for_copy("/a.mp4".to_string(), 500, 4000, 5000);
    assert_eq!((c.trim_start_ms, c.trim_end_ms), (Some(500), Some(4000)));
    assert_eq!(c.source_path, "/a.mp4");
}

#[test]
fn timeline_ends_at_the_latest_clip_end() {
    assert_eq!(timeline_total_duration(&vec![]), 0);
    assert_eq!(timeline_total_duration(&vec![(0, 3000), (3000, 2000), (1000, 1000)]), 5000);
}

#[test]
fn transitions_dissolve_by_default() {
    assert_eq!(resolve_transition(None, 500, 4000).transition_type, "dissolve");
    let t = resolve_transition(Some("wipeleft".to_string()), 500, 4000);
    assert_eq!((t.transition_type.as_str(), t.duration_ms, t.position_ms), ("wipeleft", 500, 4000));
}

#[test]
fn audio_is_placed_at_clip_offset_plus_binding_offset() {
    let settings = FinalExportSettings { include_voice: true, include_sfx: false, include_bgm: true };
    let (offsets, _) = timeline_offsets(&vec![4000, 3000, 2000]);
    let voice = ShotAudioRef { role: AudioRole::Voice, offset_ms: 500, file_present: true };
    let sfx = ShotAudioRef { role: AudioRole::Sfx, offset_ms: 0, file_present: true };
    let missing = ShotAudioRef { role: AudioRole::Bgm, offset_ms: 0, file_present: false };
    let bgm = ShotAudioRef { role: AudioRole::Bgm, offset_ms: 100, file_present: true };
    let shots = vec![Some(vec![voice, sfx]), None, Some(vec![missing, bgm])];
    let placed = place_audio(&settings, &offsets, &shots);
    assert_eq!(
        placed,
        vec![
            PlacedAudio { clip_index: 0, binding_index: 0, absolute_offset_ms: 500 },
            PlacedAudio { clip_index: 2, binding_index: 1, absolute_offset_ms: 7100 },
        ]
    );
}
