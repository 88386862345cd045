use mango_core::error::CoreError;
use mango_core::ffmpeg::sidecar::{ensure_ffmpeg, parse_version, FfmpegConfig, FfmpegStatus};

#[test]
fn parse_version_standard() {
    let output = "ffmpeg version 7.1.1 Copyright (c) 2000-2025 the FFmpeg developers";
    assert_eq!(parse_version(output), Some("7.1.1".to_string()));
}

#[test]
fn parse_version_n_series() {
    let output = "ffmpeg version N-12345-gabcdef Copyright (c) 2000-2025";
    assert_eq!(parse_version(output), Some("N-12345-gabcdef".to_string()));
}

#[test]
fn parse_version_with_extras() {
    let output = "ffmpeg version 6.1.2-1ubuntu1 Copyright (c) 2000-2024 the FFmpeg developers";
    assert_eq!(parse_version(output), Some("6.1.2-1ubuntu1".to_string()));
}

#[test]
fn parse_version_empty() {
    assert_eq!(parse_version(""), None);
}

#[test]
fn parse_version_no_prefix() {
    assert_eq!(parse_version("something else entirely"), None);
}

#[test]
fn parse_version_reads_only_the_first_line() {
    assert_eq!(parse_version("ffmpeg version 5.0\r\nbuilt with gcc"), Some("5.0".to_string()));
    assert_eq!(parse_version("\nffmpeg version 5.0"), None);
}

#[test]
fn config_default_bins() {
    let config = FfmpegConfig { ffmpeg_path: None, ffprobe_path: None };
    assert_eq!(config.ffmpeg_bin(), "ffmpeg");
    assert_eq!(config.ffprobe_bin(), "ffprobe");
}

#[test]
fn config_with_explicit_paths() {
    let config = FfmpegConfig::with_paths(
        "/usr/local/bin/ffmpeg".to_string(),
        "/usr/local/bin/ffprobe".to_string(),
    );
    assert_eq!(config.ffmpeg_bin(), "/usr/local/bin/ffmpeg");
    assert_eq!(config.ffprobe_bin(), "/usr/local/bin/ffprobe");
}

#[test]
fn ensure_ffmpeg_fails_when_unavailable() {
    let ok = FfmpegStatus { available: true, version: Some("7.1".into()), path: Some("ffmpeg".into()) };
    assert!(ensure_ffmpeg(&ok).is_ok());
    let missing = FfmpegStatus { available: false, version: None, path: None };
    match ensure_ffmpeg(&missing) {
        Err(CoreError::Ffmpeg(m)) => assert!(m.contains("FFmpeg is not available")),
        other => panic!("unexpected: {other:?}"),
    }
}
