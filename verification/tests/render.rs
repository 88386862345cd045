use mango_core::export::ResolvedTransition;
use mango_core::ffmpeg::render::{check_render_clips, clip_stage_labels, plan_joins, stream_label, ClipJoin, JoinPlan};

fn transition(duration_ms: i64, position_ms: i64) -> ResolvedTransition {
    ResolvedTransition { transition_type: "dissolve".to_string(), duration_ms, position_ms }
}

#[test]
fn single_clip_without_transitions_is_its_own_output() {
    assert_eq!(plan_joins(&vec![5000], &vec![]), JoinPlan::Single);
}

#[test]
fn clips_without_transitions_are_concatenated_at_once() {
    assert_eq!(plan_joins(&vec![5000, 3000], &vec![]), JoinPlan::ConcatAll);
    assert_eq!(plan_joins(&vec![], &vec![]), JoinPlan::ConcatAll);
}

#[test]
fn transition_at_the_boundary_cross_fades() {
    let plan = plan_joins(&vec![5000, 5000], &vec![transition(500, 5000)]);
    assert_eq!(plan, JoinPlan::Pairwise(vec![ClipJoin::Crossfade { transition: 0, offset_ms: 4500 }]));
}

#[test]
fn transition_a_tenth_of_a_second_away_is_not_at_the_boundary() {
    let plan = plan_joins(&vec![5000, 5000], &vec![transition(500, 5100)]);
    assert_eq!(plan, JoinPlan::Pairwise(vec![ClipJoin::Concat]));
    let plan = plan_joins(&vec![5000, 5000], &vec![transition(500, 4900)]);
    assert_eq!(plan, JoinPlan::Pairwise(vec![ClipJoin::Concat]));
    let plan = plan_joins(&vec![5000, 5000], &vec![transition(500, 5099)]);
    assert_eq!(plan, JoinPlan::Pairwise(vec![ClipJoin::Crossfade { transition: 0, offset_ms: 4500 }]));
}

#[test]
fn cross_fades_shorten_the_joined_video() {
    let plan = plan_joins(&vec![5000, 4000, 3000], &vec![transition(500, 5000), transition(1000, 8500)]);
    assert_eq!(
        plan,
        JoinPlan::Pairwise(vec![
            ClipJoin::Crossfade { transition: 0, offset_ms: 4500 },
            ClipJoin::Crossfade { transition: 1, offset_ms: 7500 },
        ])
    );
}

#[test]
fn first_transition_near_the_boundary_wins() {
    let plan = plan_joins(&vec![5000, 5000, 2000], &vec![transition(300, 5050), transition(500, 5000)]);
    assert_eq!(
        plan,
        JoinPlan::Pairwise(vec![ClipJoin::Crossfade { transition: 0, offset_ms: 4700 }, ClipJoin::Concat])
    );
}

#[test]
fn transitions_with_one_clip_leave_it_alone() {
    assert_eq!(plan_joins(&vec![5000], &vec![transition(500, 5000)]), JoinPlan::Pairwise(vec![]));
}

#[test]
fn render_labels_follow_the_clip_stages() {
    assert!(check_render_clips(0).is_err());
    assert!(check_render_clips(2).is_ok());
    assert_eq!(clip_stage_labels(0, false, false), vec!["n0".to_string()]);
    assert_eq!(clip_stage_labels(3, true, true), vec!["n3".to_string(), "kb3".to_string(), "ce3".to_string()]);
    assert_eq!(clip_stage_labels(1, false, true), vec!["n1".to_string(), "ce1".to_string()]);
    assert_eq!(stream_label("xf", 12), "xf12");
}
