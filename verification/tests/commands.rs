use mango_core::error::CoreError;
use mango_core::ffmpeg::commands::{
    check_concat_compatibility, StreamFormat, check_concat_inputs, check_split_points, check_split_range, check_thumbnail_timestamp,
    check_trim_end, check_trim_range, ms_to_ffmpeg_time, split_part_name, split_segments,
    split_video,
};

fn message<T: std::fmt::Debug>(r: Result<T, CoreError>) -> String {
    r.unwrap_err().message()
}

#[test]
fn time_format_zero() {
    assert_eq!(ms_to_ffmpeg_time(0), "00:00:00.000");
}

#[test]
fn time_format_millis_only() {
    assert_eq!(ms_to_ffmpeg_time(123), "00:00:00.123");
}

#[test]
fn time_format_seconds() {
    assert_eq!(ms_to_ffmpeg_time(5500), "00:00:05.500");
}

#[test]
fn time_format_minutes() {
    assert_eq!(ms_to_ffmpeg_time(90061), "00:01:30.061");
}

#[test]
fn time_format_hours() {
    assert_eq!(ms_to_ffmpeg_time(3661500), "01:01:01.500");
}

#[test]
fn time_format_negative_clamps_to_zero() {
    assert_eq!(ms_to_ffmpeg_time(-100), "00:00:00.000");
}

#[test]
fn time_format_large_value() {
    assert_eq!(ms_to_ffmpeg_time(86400000), "24:00:00.000");
}

#[test]
fn time_format_hours_beyond_two_digits() {
    assert_eq!(ms_to_ffmpeg_time(360_000_000 + 1), "100:00:00.001");
}

#[test]
fn trim_invalid_start_gte_end() {
    let err = check_trim_range(5000, 3000);
    assert!(err.is_err());
    assert!(message(err).contains("end_ms must be > start_ms"));
}

#[test]
fn trim_negative_start() {
    let err = check_trim_range(-1, 3000);
    assert!(err.is_err());
    assert!(message(err).contains("start_ms must be >= 0"));
}

#[test]
fn trim_end_past_duration() {
    assert!(check_trim_end(3000, 3000).is_ok());
    assert_eq!(
        message(check_trim_end(3001, 3000)),
        "validation error: end_ms (3001) exceeds video duration (3000)"
    );
}

#[test]
fn split_empty_points() {
    let err = check_split_points(&[]);
    assert!(err.is_err());
    assert!(message(err).contains("must not be empty"));
}

#[test]
fn split_non_increasing() {
    let err = check_split_points(&[5000, 3000]);
    assert!(err.is_err());
    assert!(message(err).contains("strictly increasing"));
}

#[test]
fn split_point_out_of_range_is_named() {
    assert_eq!(
        message(check_split_range(&[1000, 9000], 8000)),
        "validation error: split point 9000ms is out of range (0, 8000)"
    );
    assert!(check_split_range(&[1000, 7999], 8000).is_ok());
}

#[test]
fn split_segments_tile_the_video() {
    assert_eq!(split_segments(&[2000, 5000], 9000), vec![(0, 2000), (2000, 5000), (5000, 9000)]);
}

#[test]
fn split_part_names_count_from_one() {
    assert_eq!(split_part_name("clip", 0, "mp4"), "clip_part1.mp4");
    assert_eq!(split_part_name("clip", 9, "mov"), "clip_part10.mov");
}

#[test]
fn split_video_plans_parts() {
    let parts = split_video(&[2000, 5000], 9000, "clip", "mp4").unwrap();
    assert_eq!(parts.len(), 3);
    assert_eq!((parts[0].start_ms, parts[0].end_ms), (0, 2000));
    assert_eq!((parts[2].start_ms, parts[2].end_ms), (5000, 9000));
    assert_eq!(parts[1].file_name, "clip_part2.mp4");
    assert!(message(split_video(&[], 9000, "clip", "mp4")).contains("must not be empty"));
    assert!(message(split_video(&[3, 3], 9000, "clip", "mp4")).contains("strictly increasing"));
    assert!(message(split_video(&[0], 9000, "clip", "mp4")).contains("split point 0ms is out of range"));
}

#[test]
fn concat_single_input() {
    let err = check_concat_inputs(1);
    assert!(err.is_err());
    assert!(message(err).contains("at least 2"));
    assert!(check_concat_inputs(2).is_ok());
}

#[test]
fn thumbnail_negative_timestamp() {
    let err = check_thumbnail_timestamp(-1);
    assert!(err.is_err());
    assert!(message(err).contains("timestamp_ms must be >= 0"));
    assert!(check_thumbnail_timestamp(0).is_ok());
}

fn fmt(w: u32, h: u32, fps: &str, same_fps: bool, codec: &str, audio: bool) -> StreamFormat {
    StreamFormat {
        width: w,
        height: h,
        fps_label: fps.to_string(),
        fps_matches_first: same_fps,
        video_codec: codec.to_string(),
        has_audio: audio,
    }
}

#[test]
fn concat_compatibility_reports_first_mismatch() {
    let a = fmt(1920, 1080, "30.00", true, "h264", true);
    assert!(check_concat_compatibility(&vec![a.clone(), a.clone()]).is_ok());
    assert_eq!(
        message(check_concat_compatibility(&vec![a.clone(), a.clone(), fmt(1280, 720, "30.00", true, "h264", true)])),
        "validation error: cannot concat: input #3 has resolution 1280x720, but input #1 has 1920x1080. All inputs must have the same resolution."
    );
    assert_eq!(
        message(check_concat_compatibility(&vec![a.clone(), fmt(1920, 1080, "25.00", false, "h264", true)])),
        "validation error: cannot concat: input #2 has fps 25.00, but input #1 has 30.00. All inputs must have the same frame rate."
    );
    assert_eq!(
        message(check_concat_compatibility(&vec![a.clone(), fmt(1920, 1080, "30.00", true, "hevc", true)])),
        "validation error: cannot concat: input #2 uses codec 'hevc', but input #1 uses 'h264'. All inputs must use the same video codec."
    );
    assert_eq!(
        message(check_concat_compatibility(&vec![a.clone(), fmt(1920, 1080, "30.00", true, "h264", false)])),
        "validation error: cannot concat: input #2 lacks audio but input #1 has. All inputs must either have audio or not."
    );
}
