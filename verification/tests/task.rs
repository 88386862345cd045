use mango_core::error::CoreError;
use mango_core::task::{
    confirmed, task_kind_for_model, clamp_list_limit, event_cap_allows, exit_code, format_event_line, is_valid_transition,
    parse_status, plan_transition, short_id, status_symbol, truncate, EventPhase, EventSeverity,
    GenerationTaskEvent, GenerationTaskStatus, StatusWatch, TaskKind, MAX_EVENTS_PER_TASK,
};

const ALL: [GenerationTaskStatus; 5] = [
    GenerationTaskStatus::Pending,
    GenerationTaskStatus::Running,
    GenerationTaskStatus::Success,
    GenerationTaskStatus::Failed,
    GenerationTaskStatus::Cancelled,
];

fn ev(
    phase: EventPhase,
    severity: EventSeverity,
    message: &str,
    request_id: Option<&str>,
    http_status: Option<i64>,
) -> GenerationTaskEvent {
    GenerationTaskEvent {
        id: 1,
        task_id: "t".into(),
        occurred_at: "2026-05-26 10:00:01".into(),
        phase,
        severity,
        request_id: request_id.map(String::from),
        http_status,
        details_json: "{}".into(),
        message: message.into(),
    }
}

#[test]
fn format_event_line_renders_time_phase_severity_and_message() {
    let line = format_event_line(&ev(EventPhase::SubmitCall, EventSeverity::Info, "提交到云端", None, None));
    assert_eq!(line, "[10:00:01] submit_call    info   提交到云端");
}

#[test]
fn format_event_line_appends_http_and_request_id_when_present() {
    let line = format_event_line(&ev(EventPhase::Poll, EventSeverity::Error, "认证失败", Some("rid-xyz"), Some(401)));
    assert!(line.contains("poll"));
    assert!(line.contains("error"));
    assert!(line.ends_with("认证失败 HTTP 401 request_id=rid-xyz"));
}

#[test]
fn format_event_line_falls_back_to_full_string_when_no_space() {
    let mut e = ev(EventPhase::Cleanup, EventSeverity::Warn, "清理失败", None, None);
    e.occurred_at = "2026-05-26T10:00:01Z".into();
    let line = format_event_line(&e);
    assert!(line.starts_with("[2026-05-26T10:00:01Z]"));
}

#[test]
fn transition_pending_to_running_sets_started_at() {
    let sql = plan_transition(GenerationTaskStatus::Pending, GenerationTaskStatus::Running, false).unwrap();
    assert!(sql.contains("started_at"));
    assert!(!sql.contains("finished_at"));
}

#[test]
fn transition_running_to_failed_records_error_and_finished_at() {
    let sql = plan_transition(GenerationTaskStatus::Running, GenerationTaskStatus::Failed, true).unwrap();
    assert_eq!(
        sql,
        "UPDATE generation_task SET status = ?1, finished_at = datetime('now'), error_message = ?2 WHERE id = ?3"
    );
}

#[test]
fn transition_pending_to_cancelled_is_allowed() {
    assert!(plan_transition(GenerationTaskStatus::Pending, GenerationTaskStatus::Cancelled, false).is_ok());
}

#[test]
fn transition_pending_to_failed_is_allowed() {
    let sql = plan_transition(GenerationTaskStatus::Pending, GenerationTaskStatus::Failed, true).unwrap();
    assert!(sql.contains("error_message"));
    assert!(sql.contains("finished_at"));
    assert!(!sql.contains("started_at"));
}

#[test]
fn transition_terminal_to_anything_is_rejected() {
    let r = plan_transition(GenerationTaskStatus::Success, GenerationTaskStatus::Failed, false);
    assert!(matches!(r, Err(CoreError::TaskEngine(_))));
}

#[test]
fn transition_pending_to_success_is_rejected() {
    let r = plan_transition(GenerationTaskStatus::Pending, GenerationTaskStatus::Success, false);
    match r {
        Err(CoreError::TaskEngine(m)) => assert_eq!(m, "invalid transition: pending → success"),
        other => panic!("unexpected: {other:?}"),
    }
}

#[test]
fn no_state_moves_back_to_pending_or_out_of_a_terminal_state() {
    let all = ALL;
    for from in all {
        assert!(!is_valid_transition(from, GenerationTaskStatus::Pending));
        for to in all {
            if from.is_terminal() {
                assert!(!is_valid_transition(from, to));
            }
        }
    }
}

#[test]
fn status_words_round_trip() {
    for s in ALL {
        assert_eq!(GenerationTaskStatus::from_db_str(s.as_str()), Some(s));
        assert_eq!(parse_status(s.as_str()), Ok(s));
    }
    assert_eq!(
        parse_status("done"),
        Err("invalid status 'done'. Valid: pending, running, success, failed, cancelled".to_string())
    );
    assert_eq!(TaskKind::from_db_str("video"), Some(TaskKind::Video));
    assert_eq!(TaskKind::from_db_str("gif"), None);
}

#[test]
fn insert_above_cap_returns_none() {
    assert!(event_cap_allows(MAX_EVENTS_PER_TASK - 1));
    assert!(!event_cap_allows(MAX_EVENTS_PER_TASK));
}

#[test]
fn list_limit_defaults_and_clamps() {
    assert_eq!(clamp_list_limit(None), 100);
    assert_eq!(clamp_list_limit(Some(0)), 1);
    assert_eq!(clamp_list_limit(Some(50)), 50);
    assert_eq!(clamp_list_limit(Some(9000)), 500);
}

#[test]
fn exit_codes_of_terminal_states() {
    assert_eq!(exit_code(GenerationTaskStatus::Success, 3), 0);
    assert_eq!(exit_code(GenerationTaskStatus::Failed, 3), 10);
    assert_eq!(exit_code(GenerationTaskStatus::Cancelled, 3), 11);
    assert_eq!(exit_code(GenerationTaskStatus::Running, 3), 3);
}

#[test]
fn short_id_and_truncate() {
    assert_eq!(short_id("0123456789abcdef"), "01234567");
    assert_eq!(short_id("abc"), "abc");
    assert_eq!(truncate("hello world", 8), "hello...");
    assert_eq!(truncate("hello", 8), "hello");
    assert_eq!(truncate("hello", 2), "...");
    assert_eq!(status_symbol(GenerationTaskStatus::Success), "✓");
}

#[test]
fn submission_kind_by_model() {
    assert_eq!(task_kind_for_model("wan2.7-image-pro", 0), Ok(TaskKind::Image));
    assert_eq!(
        task_kind_for_model("wan2.7-image-pro", 1),
        Err("--subject is not applicable for wan2.7-image-pro".to_string())
    );
    assert_eq!(task_kind_for_model("happyhorse-1.0-r2v", 2), Ok(TaskKind::Video));
    assert_eq!(
        task_kind_for_model("happyhorse-1.0-r2v", 0),
        Err("--subject is required for happyhorse-1.0-r2v".to_string())
    );
    assert_eq!(
        task_kind_for_model("sora", 0),
        Err("unknown model id 'sora'. Supported: wan2.7-image-pro, happyhorse-1.0-r2v".to_string())
    );
}

#[test]
fn confirmation_accepts_only_y() {
    assert!(confirmed("y\n"));
    assert!(confirmed("  Y "));
    assert!(!confirmed("yes"));
    assert!(!confirmed(""));
}

#[test]
fn short_id_takes_eight_bytes_at_a_character_boundary() {
    assert_eq!(short_id("ab一二三"), "ab一二");
    assert_eq!(short_id("abé"), "abé");
    assert_eq!(short_id(""), "");
}

#[test]
fn status_watch_prints_new_events_once_and_ends_with_the_exit_code() {
    assert!(StatusWatch::begin(false, GenerationTaskStatus::Running, vec![]).is_none());
    assert!(StatusWatch::begin(true, GenerationTaskStatus::Success, vec![]).is_none());
    let mut w = StatusWatch::begin(true, GenerationTaskStatus::Pending, vec![1, 2]).unwrap();
    let t = w.step(GenerationTaskStatus::Pending, &vec![1, 2, 3, 3]);
    assert_eq!(t.new_events, vec![2]);
    assert!(!t.status_changed);
    assert_eq!(t.exit_code, None);
    let t = w.step(GenerationTaskStatus::Running, &vec![1, 2, 3, 4]);
    assert_eq!(t.new_events, vec![3]);
    assert!(t.status_changed);
    assert_eq!(t.exit_code, None);
    let t = w.step(GenerationTaskStatus::Failed, &vec![1, 2, 3, 4, 5]);
    assert_eq!(t.new_events, vec![4]);
    assert!(t.status_changed);
    assert_eq!(t.exit_code, Some(10));
    assert_eq!(w.last_status, GenerationTaskStatus::Failed);
}
