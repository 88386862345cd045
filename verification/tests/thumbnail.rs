use mango_core::error::CoreError;
use mango_core::ffmpeg::cache_key::{hex_encode, thumbnail_strip_cache_key, waveform_cache_key};
use mango_core::ffmpeg::thumbnail::{check_strip_params, check_waveform_params, is_jpg_file_name, strip_result};

fn message(r: Result<(), CoreError>) -> String {
    r.unwrap_err().message()
}

#[test]
fn thumbnail_cache_key_deterministic() {
    let k1 = thumbnail_strip_cache_key("/a/b.mp4", 1000, 120);
    let k2 = thumbnail_strip_cache_key("/a/b.mp4", 1000, 120);
    assert_eq!(k1, k2);
}

#[test]
fn cache_key_differs_by_interval() {
    let k1 = thumbnail_strip_cache_key("/a/b.mp4", 1000, 120);
    let k2 = thumbnail_strip_cache_key("/a/b.mp4", 2000, 120);
    assert_ne!(k1, k2);
}

#[test]
fn cache_key_differs_by_path() {
    let k1 = thumbnail_strip_cache_key("/a/b.mp4", 1000, 120);
    let k2 = thumbnail_strip_cache_key("/a/c.mp4", 1000, 120);
    assert_ne!(k1, k2);
}

#[test]
fn cache_key_shape() {
    // SHA-256("abc") begins ba7816bf8f01.
    assert_eq!(thumbnail_strip_cache_key("abc", 1000, 120), "ba7816bf8f01_1000_120");
    assert_eq!(waveform_cache_key("abc", 64, 50), "ba7816bf8f01_64_50");
    assert_eq!(hex_encode(&[0x00, 0x0f, 0xa0, 0xff]), "000fa0ff");
}

#[test]
fn waveform_cache_key_deterministic() {
    let k1 = waveform_cache_key("/a/b.mp3", 64, 50);
    let k2 = waveform_cache_key("/a/b.mp3", 64, 50);
    assert_eq!(k1, k2);
}

#[test]
fn cache_key_differs_by_height() {
    let k1 = waveform_cache_key("/a/b.mp3", 64, 50);
    let k2 = waveform_cache_key("/a/b.mp3", 128, 50);
    assert_ne!(k1, k2);
}

#[test]
fn cache_key_differs_by_px_per_sec() {
    let k1 = waveform_cache_key("/a/b.mp3", 64, 50);
    let k2 = waveform_cache_key("/a/b.mp3", 64, 100);
    assert_ne!(k1, k2);
}

#[test]
fn invalid_interval() {
    assert!(message(check_strip_params(0, 120)).contains("interval_ms must be > 0"));
}

#[test]
fn invalid_width() {
    assert!(message(check_strip_params(1000, 0)).contains("thumb_width must be > 0"));
}

#[test]
fn invalid_height_zero() {
    assert!(message(check_waveform_params(0, 50)).contains("height must be > 0"));
}

#[test]
fn invalid_px_per_sec_zero() {
    assert!(message(check_waveform_params(64, 0)).contains("px_per_sec must be > 0"));
}

#[test]
fn valid_parameters_pass() {
    assert!(check_strip_params(1, 1).is_ok());
    assert!(check_waveform_params(1, 1).is_ok());
}

#[test]
fn jpg_names_by_extension() {
    assert!(is_jpg_file_name("0001.jpg"));
    assert!(is_jpg_file_name("0001.JPG"));
    assert!(is_jpg_file_name("a.b.Jpg"));
    assert!(!is_jpg_file_name(".jpg"));
    assert!(!is_jpg_file_name("0001.jpeg"));
    assert!(!is_jpg_file_name("jpg"));
    assert!(!is_jpg_file_name("0001.png"));
}

#[test]
fn strip_result_keeps_only_frames() {
    let entries = vec![
        ("/t/0001.jpg".to_string(), "0001.jpg".to_string()),
        ("/t/notes.txt".to_string(), "notes.txt".to_string()),
        ("/t/0002.JPG".to_string(), "0002.JPG".to_string()),
    ];
    let r = strip_result(&entries, 1000);
    assert_eq!(r.thumbnails, vec!["/t/0001.jpg".to_string(), "/t/0002.JPG".to_string()]);
    assert_eq!(r.count, 2);
    assert_eq!(r.interval_ms, 1000);
}
