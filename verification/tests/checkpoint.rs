use mango_core::checkpoint::{
    change_summary, checkpoint_ages, diff_shots, gc_plan, gc_plan_now, select_checkpoints_to_delete, CheckpointAge,
    ShotEntry,
};

fn shot(id: &str, text: &str) -> ShotEntry {
    ShotEntry { id: Some(id.to_string()), text: text.to_string() }
}

fn age(id: &str, hours: i64, day: &str, week: &str) -> CheckpointAge {
    CheckpointAge { id: id.to_string(), age_hours: hours, day_key: day.to_string(), week_key: week.to_string() }
}

#[test]
fn change_summary_detects_shot_changes() {
    let prev = vec![shot("s1", "{\"id\":\"s1\",\"summary\":\"a\"}")];
    let cur = vec![
        shot("s1", "{\"id\":\"s1\",\"summary\":\"a\"}"),
        shot("s2", "{\"id\":\"s2\",\"summary\":\"b\"}"),
    ];
    let desc = diff_shots(&prev, &cur);
    let summary = change_summary(desc, "original script", "original script", Some((0, 0)));
    assert!(summary.is_some());
    let s = summary.unwrap();
    assert!(s.contains("新增 1 个分镜"), "got: {s}");
    assert!(s.contains("共 2"), "got: {s}");
}

#[test]
fn shot_diff_counts_each_kind() {
    let prev = vec![shot("a", "1"), shot("b", "2"), shot("c", "3")];
    let cur = vec![shot("a", "1"), shot("b", "changed"), shot("d", "4"), shot("e", "5")];
    assert_eq!(
        diff_shots(&prev, &cur).unwrap(),
        "新增 2 个分镜、删除 1 个分镜、修改 1 个分镜（共 4）"
    );
    assert_eq!(diff_shots(&prev, &prev), None);
}

#[test]
fn change_summary_joins_parts() {
    assert_eq!(change_summary(None, "abc", "abc", Some((2, 2))), None);
    assert_eq!(change_summary(None, "abc", "abcde", None).unwrap(), "剧本 +2 字");
    assert_eq!(
        change_summary(Some("新增 1 个分镜（共 1）".to_string()), "一二三", "一", Some((1, 3))).unwrap(),
        "新增 1 个分镜（共 1）；剧本 -2 字；画布节点 1→3"
    );
}

#[test]
fn gc_preserves_manual_and_recent_auto() {
    // Newest first: a recent auto, then two old autos of the same week.
    let rows = vec![
        age("recent", 0, "2026-05-26", "2026-W21"),
        age("old_a", 240, "2026-05-16", "2026-W19"),
        age("old_b", 264, "2026-05-15", "2026-W19"),
    ];
    let deleted = select_checkpoints_to_delete(&rows);
    assert_eq!(deleted, vec!["old_b".to_string()]);
}

#[test]
fn gc_keeps_the_newest_per_day_and_per_week() {
    let rows = vec![
        age("d1", 30, "2026-05-25", "2026-W21"),
        age("d2", 40, "2026-05-25", "2026-W21"),
        age("d3", 50, "2026-05-24", "2026-W21"),
        age("w1", 200, "2026-05-18", "2026-W20"),
        age("w2", 220, "2026-05-17", "2026-W20"),
        age("w3", 400, "2026-05-09", "2026-W19"),
    ];
    assert_eq!(
        select_checkpoints_to_delete(&rows),
        vec!["d2".to_string(), "w2".to_string()]
    );
}

fn secs(text: &str) -> i64 {
    chrono::NaiveDateTime::parse_from_str(text, "%Y-%m-%d %H:%M:%S").unwrap().and_utc().timestamp()
}

fn stored(rows: &[(&str, &str)]) -> Vec<(String, String)> {
    rows.iter().map(|(a, b)| (a.to_string(), b.to_string())).collect()
}

#[test]
fn checkpoint_ages_read_the_stored_times() {
    let now = secs("2024-01-10 12:00:00");
    let rows = stored(&[("a", "2024-01-10 11:00:00"), ("b", "2024-01-08 10:00:00"), ("d", "garbage"), ("e", "2023-12-01 00:00:00"), ("z", "2024-01-10 13:30:00")]);
    let ages = checkpoint_ages(&rows, now);
    assert_eq!(ages.len(), 5);
    assert_eq!((ages[0].id.as_str(), ages[0].age_hours), ("a", 1));
    assert_eq!(ages[1].age_hours, 50);
    assert_eq!(ages[1].day_key, "2024-01-08");
    assert_eq!(ages[1].week_key, "2024-W02");
    assert_eq!(ages[2].age_hours, 0);
    assert_eq!(ages[3].age_hours, 24 * 40 + 12);
    assert_eq!(ages[3].day_key, "2023-12-01");
    assert_eq!(ages[3].week_key, "2023-W48");
    assert_eq!(ages[4].age_hours, -1);
}

#[test]
fn gc_plan_keeps_one_per_day_and_week() {
    let now = secs("2024-01-10 12:00:00");
    let rows = stored(&[
        ("a", "2024-01-10 11:00:00"),
        ("b", "2024-01-08 10:00:00"),
        ("c", "2024-01-08 09:00:00"),
        ("d", "garbage"),
        ("f", "2023-12-02 00:00:00"),
        ("e", "2023-12-01 00:00:00"),
    ]);
    assert_eq!(gc_plan(&rows, now), vec!["c".to_string(), "e".to_string()]);
    assert!(gc_plan_now(&stored(&[("x", "garbage")])).is_empty());
}
