//! How an audio track is fitted to the video it belongs to: left as it is,
//! padded with silence, trimmed, or sent back for regeneration.

use vstd::prelude::*;

verus! {

/// Difference (in ms) within which audio and video count as the same length.
pub const DEFAULT_TOLERANCE_MS: i64 = 500;

/// Excess (in ms) up to which overlong audio is trimmed rather than regenerated.
pub const DEFAULT_TRIM_THRESHOLD_MS: i64 = 3000;

/// What to do with an audio track of a given length against a video.
///
/// For `RegenerateNeeded`, the speed-up that would make the audio fit is the
/// ratio `audio_ms / video_ms`; both terms are kept so the caller can compute
/// it in whatever precision it needs.
#[derive(Debug, Clone, Copy, PartialEq, Eq)]
pub enum AlignmentStrategy {
    Exact,
    PadSilence { gap_ms: i64 },
    TrimAudio { excess_ms: i64 },
    RegenerateNeeded { excess_ms: i64, audio_ms: i64, video_ms: i64 },
}

/// The strategy for `audio - video` against the two thresholds.
pub open spec fn alignment_spec(video: int, audio: int, tolerance: int, trim_threshold: int) -> AlignmentStrategy
    recommends
        i64::MIN < audio - video <= i64::MAX,
{
    let diff = audio - video;
    let abs = if diff < 0 { -diff } else { diff };
    if abs <= tolerance {
        AlignmentStrategy::Exact
    } else if diff < 0 {
        AlignmentStrategy::PadSilence { gap_ms: abs as i64 }
    } else if diff <= trim_threshold {
        AlignmentStrategy::TrimAudio { excess_ms: diff as i64 }
    } else {
        AlignmentStrategy::RegenerateNeeded {
            excess_ms: diff as i64,
            audio_ms: audio as i64,
            video_ms: video as i64,
        }
    }
}

/// Chooses how to fit `audio_duration_ms` of audio to `video_duration_ms` of
/// video. The difference must be representable, with its absolute value.
pub fn calculate_alignment(
    video_duration_ms: i64,
    audio_duration_ms: i64,
    tolerance_ms: i64,
    trim_threshold_ms: i64,
) -> (s: AlignmentStrategy)
    requires
        i64::MIN < audio_duration_ms - video_duration_ms <= i64::MAX,
    ensures
        s == alignment_spec(
            video_duration_ms as int,
            audio_duration_ms as int,
            tolerance_ms as int,
            trim_threshold_ms as int,
        ),
{
    let diff = audio_duration_ms - video_duration_ms;
    let abs = if diff < 0 { -diff } else { diff };
    if abs <= tolerance_ms {
        return AlignmentStrategy::Exact;
    }
    if diff < 0 {
        return AlignmentStrategy::PadSilence { gap_ms: abs };
    }
    if diff <= trim_threshold_ms {
        return AlignmentStrategy::TrimAudio { excess_ms: diff };
    }
    AlignmentStrategy::RegenerateNeeded {
        excess_ms: diff,
        audio_ms: audio_duration_ms,
        video_ms: video_duration_ms,
    }
}

/// `calculate_alignment` with the default tolerance and trim threshold.
pub fn calculate_alignment_default(video_duration_ms: i64, audio_duration_ms: i64) -> (s: AlignmentStrategy)
    requires
        i64::MIN < audio_duration_ms - video_duration_ms <= i64::MAX,
    ensures
        s == alignment_spec(
            video_duration_ms as int,
            audio_duration_ms as int,
            DEFAULT_TOLERANCE_MS as int,
            DEFAULT_TRIM_THRESHOLD_MS as int,
        ),
{
    calculate_alignment(video_duration_ms, audio_duration_ms, DEFAULT_TOLERANCE_MS, DEFAULT_TRIM_THRESHOLD_MS)
}

/// Every strategy but `Exact` records a gap or an excess larger than the
/// tolerance; padding is chosen exactly when the audio is the shorter one,
/// and regeneration only past the trim threshold.
pub proof fn lemma_alignment_classes(video: i64, audio: i64, tolerance: i64, trim_threshold: i64)
    requires
        i64::MIN < audio - video <= i64::MAX,
    ensures
        alignment_spec(video as int, audio as int, tolerance as int, trim_threshold as int) matches AlignmentStrategy::PadSilence { gap_ms }
            ==> audio < video && gap_ms == video - audio && gap_ms > tolerance,
        alignment_spec(video as int, audio as int, tolerance as int, trim_threshold as int) matches AlignmentStrategy::TrimAudio { excess_ms }
            ==> audio >= video && excess_ms == audio - video && tolerance < excess_ms <= trim_threshold,
        alignment_spec(video as int, audio as int, tolerance as int, trim_threshold as int) matches AlignmentStrategy::RegenerateNeeded { excess_ms, .. }
            ==> excess_ms == audio - video && excess_ms > trim_threshold && excess_ms > tolerance,
        (alignment_spec(video as int, audio as int, tolerance as int, trim_threshold as int) is Exact)
            <==> (video - tolerance <= audio <= video + tolerance),
{
}

} // verus!
