use mango_core::error::CoreError;
use mango_core::records::TrackType;
use mango_core::timeline::{clip_asset, resolve_timeline_plan, ItemRow, ItemType, TrackRow};

fn track(id: &str, track_type: TrackType, muted: bool) -> TrackRow {
    TrackRow { id: id.to_string(), track_type, muted }
}

fn item(track_id: &str, item_type: ItemType, asset: Option<&str>, position_ms: i64, duration_ms: i64, params: &str) -> ItemRow {
    ItemRow {
        track_id: track_id.to_string(),
        item_type,
        asset_id: asset.map(|s| s.to_string()),
        position_ms,
        duration_ms,
        in_point_ms: 0,
        out_point_ms: duration_ms,
        params_json: params.to_string(),
    }
}

fn validation_message<T: std::fmt::Debug>(r: Result<T, CoreError>) -> String {
    match r {
        Err(CoreError::Validation(m)) => m,
        other => panic!("unexpected {other:?}"),
    }
}

#[test]
fn timeline_without_tracks_is_refused() {
    assert_eq!(validation_message(resolve_timeline_plan(&vec![], &vec![])), "no timeline tracks for this episode");
}

#[test]
fn timeline_without_video_items_is_refused() {
    let tracks = vec![track("v", TrackType::Video, false), track("a", TrackType::Audio, false)];
    let items = vec![item("a", ItemType::Clip, Some("x"), 0, 1000, "{}")];
    assert_eq!(validation_message(resolve_timeline_plan(&tracks, &items)), "no video clips in timeline");
}

#[test]
fn video_clip_without_asset_is_refused() {
    let tracks = vec![track("v", TrackType::Video, false)];
    let items = vec![item("v", ItemType::Clip, Some("x"), 0, 1000, "{}"), item("v", ItemType::Clip, None, 1000, 1000, "{}")];
    let plan = resolve_timeline_plan(&tracks, &items).unwrap();
    assert_eq!(plan.clips, vec![0, 1]);
    assert_eq!(clip_asset(&items[0]).unwrap(), "x");
    assert_eq!(validation_message(clip_asset(&items[1])), "video clip item missing asset_id");
}

#[test]
fn timeline_resolves_clips_transitions_texts_and_audio() {
    let tracks = vec![
        track("v", TrackType::Video, false),
        track("t", TrackType::Text, false),
        track("a1", TrackType::Audio, false),
        track("a2", TrackType::Audio, true),
    ];
    let items = vec![
        item("v", ItemType::Clip, Some("c1"), 0, 5000, "{}"),
        item("v", ItemType::Transition, None, 5000, 500, r#"{"transition_type":"wipeleft"}"#),
        item("v", ItemType::Clip, Some("c2"), 5000, 4000, "{}"),
        item("v", ItemType::Transition, None, 9000, 300, "not json"),
        item("t", ItemType::Text, None, 1000, 2000, r#"{"content":"hi"}"#),
        item("a1", ItemType::Clip, Some("voice"), 250, 3000, "{}"),
        item("a1", ItemType::Clip, None, 0, 3000, "{}"),
        item("a2", ItemType::Clip, Some("muted"), 0, 3000, "{}"),
    ];
    let plan = resolve_timeline_plan(&tracks, &items).unwrap();
    assert_eq!(plan.clips, vec![0, 2]);
    assert_eq!(plan.transitions.len(), 2);
    assert_eq!(plan.transitions[0].transition_type, "wipeleft");
    assert_eq!(plan.transitions[0].duration_ms, 500);
    assert_eq!(plan.transitions[0].position_ms, 5000);
    assert_eq!(plan.transitions[1].transition_type, "dissolve");
    assert_eq!(plan.text_items, vec![4]);
    assert_eq!(plan.audio_items, vec![5]);
    assert_eq!(plan.total_duration_ms, 9000);
    assert!(plan.video_effects);
}

#[test]
fn plain_clips_have_no_video_effects_and_end_at_the_latest_clip() {
    let tracks = vec![track("v", TrackType::Video, false)];
    let items = vec![item("v", ItemType::Clip, Some("c1"), 4000, 1000, "{}"), item("v", ItemType::Clip, Some("c2"), 0, 3000, "{}")];
    let plan = resolve_timeline_plan(&tracks, &items).unwrap();
    assert_eq!(plan.clips, vec![0, 1]);
    assert!(plan.transitions.is_empty());
    assert_eq!(plan.total_duration_ms, 5000);
    assert!(!plan.video_effects);
}

#[test]
fn items_on_unknown_tracks_are_ignored() {
    let tracks = vec![track("v", TrackType::Video, false)];
    let items = vec![item("v", ItemType::Clip, Some("c1"), 0, 1000, "{}"), item("zz", ItemType::Clip, None, 0, 1000, "{}")];
    let plan = resolve_timeline_plan(&tracks, &items).unwrap();
    assert_eq!(plan.clips, vec![0]);
}
