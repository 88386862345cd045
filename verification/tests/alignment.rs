use mango_core::ffmpeg::alignment::{calculate_alignment, calculate_alignment_default, AlignmentStrategy};

#[test]
fn exact_within_tolerance() {
    let s = calculate_alignment(5000, 5300, 500, 3000);
    assert_eq!(s, AlignmentStrategy::Exact);
}

#[test]
fn exact_negative_within_tolerance() {
    let s = calculate_alignment(5000, 4700, 500, 3000);
    assert_eq!(s, AlignmentStrategy::Exact);
}

#[test]
fn pad_silence_when_audio_shorter() {
    let s = calculate_alignment(5000, 3000, 500, 3000);
    assert_eq!(s, AlignmentStrategy::PadSilence { gap_ms: 2000 });
}

#[test]
fn trim_audio_when_slightly_longer() {
    let s = calculate_alignment(5000, 6500, 500, 3000);
    assert_eq!(s, AlignmentStrategy::TrimAudio { excess_ms: 1500 });
}

#[test]
fn regenerate_when_much_longer() {
    let s = calculate_alignment(5000, 10000, 500, 3000);
    assert!(matches!(s, AlignmentStrategy::RegenerateNeeded { excess_ms: 5000, .. }));
    if let AlignmentStrategy::RegenerateNeeded { audio_ms, video_ms, .. } = s {
        let suggested_speed = audio_ms as f64 / video_ms as f64;
        assert!((suggested_speed - 2.0).abs() < 0.01);
    }
}

#[test]
fn default_tolerance_works() {
    let s = calculate_alignment_default(5000, 5400);
    assert_eq!(s, AlignmentStrategy::Exact);
}

#[test]
fn boundaries_are_inclusive() {
    assert_eq!(calculate_alignment(5000, 5500, 500, 3000), AlignmentStrategy::Exact);
    assert_eq!(calculate_alignment(5000, 5501, 500, 3000), AlignmentStrategy::TrimAudio { excess_ms: 501 });
    assert_eq!(calculate_alignment(5000, 8000, 500, 3000), AlignmentStrategy::TrimAudio { excess_ms: 3000 });
    assert!(matches!(
        calculate_alignment(5000, 8001, 500, 3000),
        AlignmentStrategy::RegenerateNeeded { excess_ms: 3001, audio_ms: 8001, video_ms: 5000 }
    ));
    assert_eq!(calculate_alignment(5000, 4499, 500, 3000), AlignmentStrategy::PadSilence { gap_ms: 501 });
}
