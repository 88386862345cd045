use mango_core::error::CoreError;
use mango_core::export::AudioRole;
use mango_core::records::{
    check_adoption, check_name, check_required, check_role_free, check_title, default_tracks,
    json_field_verdict, page_limit, page_offset, task_params_json, validate_json, TrackType,
};
use mango_core::task::GenerationTaskStatus;

fn validation<T: std::fmt::Debug>(r: Result<T, CoreError>) -> String {
    match r {
        Err(CoreError::Validation(m)) => m,
        other => panic!("expected a validation error, got {other:?}"),
    }
}

#[test]
fn character_create_empty_name_fails() {
    assert_eq!(validation(check_name("   ")), "name cannot be empty");
}

#[test]
fn costume_create_empty_name_fails() {
    assert_eq!(validation(check_name("")), "name cannot be empty");
}

#[test]
fn prop_create_empty_name_fails() {
    assert_eq!(validation(check_name("\t\n")), "name cannot be empty");
}

#[test]
fn names_are_stored_trimmed() {
    assert_eq!(check_name("  项羽 ").unwrap(), "项羽");
    assert_eq!(check_title(" Ep 1 ").unwrap(), "Ep 1");
}

#[test]
fn create_empty_title_fails() {
    assert_eq!(validation(check_title(" ")), "title cannot be empty");
}

#[test]
fn upsert_rejects_blank_episode_id() {
    assert_eq!(validation(check_required("  ", "episode_id")), "episode_id is required");
    assert!(check_required("e1", "episode_id").is_ok());
}

#[test]
fn adopt_task_result_sets_adopted_asset_id() {
    let r = check_adoption(GenerationTaskStatus::Success, Some("s1"), "s1", Some("a1".to_string()));
    assert_eq!(r.unwrap(), "a1");
}

#[test]
fn adopt_rejects_non_success_task() {
    let r = check_adoption(GenerationTaskStatus::Running, Some("s1"), "s1", Some("a1".to_string()));
    assert_eq!(validation(r), "only successful tasks can be adopted");
}

#[test]
fn adopt_rejects_mismatched_shot_id() {
    let r = check_adoption(GenerationTaskStatus::Success, Some("s2"), "s1", Some("a1".to_string()));
    assert_eq!(validation(r), "task does not belong to this shot");
    let r = check_adoption(GenerationTaskStatus::Success, None, "s1", Some("a1".to_string()));
    assert_eq!(validation(r), "task does not belong to this shot");
}

#[test]
fn adopt_rejects_task_without_asset() {
    let r = check_adoption(GenerationTaskStatus::Success, Some("s1"), "s1", None);
    assert_eq!(validation(r), "task has no result asset");
}

#[test]
fn voice_uniqueness() {
    assert!(check_role_free(AudioRole::Voice, 0).is_ok());
    assert_eq!(validation(check_role_free(AudioRole::Voice, 1)), "shot already has a voice binding");
    assert_eq!(validation(check_role_free(AudioRole::Bgm, 1)), "shot already has a bgm binding");
}

#[test]
fn sfx_allows_multiple() {
    assert!(check_role_free(AudioRole::Sfx, 5).is_ok());
}

#[test]
fn list_default_limit_caps_at_50() {
    assert_eq!(page_limit(None), 50);
    assert_eq!(page_limit(Some(0)), 1);
    assert_eq!(page_limit(Some(500)), 200);
    assert_eq!(page_limit(Some(75)), 75);
}

#[test]
fn create_defaults_six_tracks() {
    let tracks = default_tracks();
    assert_eq!(tracks.len(), 6);
    assert_eq!(tracks[0].0, TrackType::Video);
    assert_eq!(tracks[3].1, "配音");
    assert_eq!(tracks[5], (TrackType::Audio, "音效".to_string()));
}

#[test]
fn list_offset_is_never_negative() {
    assert_eq!(page_offset(None), 0);
    assert_eq!(page_offset(Some(-5)), 0);
    assert_eq!(page_offset(Some(20)), 20);
}

#[test]
fn create_rejects_invalid_json() {
    let msg = validation(task_params_json(Some("{not json")));
    assert!(msg.starts_with("params_json is not valid JSON: "), "got: {msg}");
    assert_eq!(task_params_json(None).unwrap(), "{}");
    assert_eq!(task_params_json(Some("")).unwrap(), "{}");
    assert_eq!(task_params_json(Some("{\"n\":1}")).unwrap(), "{\"n\":1}");
}

#[test]
fn upsert_rejects_invalid_json() {
    assert!(validate_json("[1, 2]", "nodes_json").is_ok());
    let msg = validation(validate_json("[1, 2", "nodes_json"));
    assert!(msg.starts_with("nodes_json is not valid JSON: "), "got: {msg}");
    assert_eq!(
        validation(json_field_verdict("edges_json", Some("EOF".to_string()))),
        "edges_json is not valid JSON: EOF"
    );
}

#[test]
fn update_statement_numbers_the_changed_columns() {
    assert_eq!(
        mango_core::records::update_sql("shot", &["summary", "status"]),
        "UPDATE shot SET updated_at = datetime('now'), summary = ?1, status = ?2 WHERE id = ?3"
    );
    assert_eq!(
        mango_core::records::update_sql("prop", &[]),
        "UPDATE prop SET updated_at = datetime('now') WHERE id = ?1"
    );
}
