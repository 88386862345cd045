use mango_core::ffmpeg::commands::ms_to_ffmpeg_time;
use mango_core::ffmpeg::progress::{parse_time_field, time_field_fits, FfmpegProgressParser};

fn time_of(parser: &FfmpegProgressParser, line: &str) -> Option<i64> {
    assert!(time_field_fits(line));
    parser.current_time_ms(line)
}

#[test]
fn valid_line_time() {
    let parser = FfmpegProgressParser::new(10_000);
    let line = "frame=  120 fps= 30 q=28.0 size=    1024kB time=00:00:04.50 bitrate= 2097.2kbits/s speed=2.00x";
    assert_eq!(time_of(&parser, line), Some(4500));
    assert_eq!(parser.total_duration_ms(), 10_000);
}

#[test]
fn three_digit_millis() {
    let parser = FfmpegProgressParser::new(5000);
    assert_eq!(time_of(&parser, "time=00:00:02.500 speed=1.50x"), Some(2500));
}

#[test]
fn hour_minute() {
    let parser = FfmpegProgressParser::new(3_700_000);
    assert_eq!(time_of(&parser, "time=01:01:39.50 speed=1.00x"), Some(3_699_500));
}

#[test]
fn one_digit_and_long_fractions() {
    let parser = FfmpegProgressParser::new(0);
    assert_eq!(time_of(&parser, "time=00:00:01.5"), Some(1500));
    assert_eq!(time_of(&parser, "time=00:00:01.12345"), Some(1123));
    assert_eq!(time_of(&parser, "time=00:00:07"), Some(7000));
}

#[test]
fn line_without_time() {
    let parser = FfmpegProgressParser::new(10_000);
    assert_eq!(time_of(&parser, "Input #0, mov,mp4,m4a from 'test.mp4':"), None);
    assert_eq!(time_of(&parser, "time=N/A bitrate=N/A"), None);
}

#[test]
fn time_zero() {
    let parser = FfmpegProgressParser::new(10_000);
    assert_eq!(time_of(&parser, "time=00:00:00.00 speed=0.00x"), Some(0));
}

#[test]
fn overflowing_time_is_detected() {
    assert!(!time_field_fits("time=9999999999999:00:00.00"));
    assert!(time_field_fits("no time here"));
}

#[test]
fn written_time_stamps_read_back() {
    let parser = FfmpegProgressParser::new(0);
    for ms in [0i64, 1, 999, 1000, 59_999, 61_001, 3_661_500, 86_400_000, 360_000_000_123] {
        let line = format!("frame=1 time={} bitrate=1", ms_to_ffmpeg_time(ms));
        assert_eq!(time_of(&parser, &line), Some(ms));
        assert_eq!(parse_time_field(&line), Some(ms));
    }
}
