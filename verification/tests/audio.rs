use mango_core::ffmpeg::audio::{
    audio_end_seconds, audio_mix_graph, check_audio_end, check_mix_inputs, check_overlay_tracks,
    check_pad_target, pad_audio_graph,
};

#[test]
fn mix_audio_empty_inputs_rejected() {
    assert!(check_mix_inputs(0).is_err());
    assert!(check_mix_inputs(1).is_ok());
}

#[test]
fn overlay_empty_tracks_rejected() {
    let result = check_overlay_tracks(0);
    assert!(result.is_err());
    let msg = result.unwrap_err().message();
    assert!(msg.contains("at least one"));
}

#[test]
fn pad_audio_invalid_duration_rejected() {
    assert!(check_pad_target(-100).is_err());
    assert!(check_pad_target(1).is_ok());
}

#[test]
fn trim_audio_invalid_end_rejected() {
    assert!(check_audio_end(0).is_err());
    assert!(check_audio_end(1).is_ok());
}

#[test]
fn single_track_mix_maps_its_own_label() {
    let (g, map) = audio_mix_graph(&vec!["volume=0.8".to_string()], &vec![0], 0, "out");
    assert_eq!(g.build(), "[0:a]volume=0.8[v0]");
    assert_eq!(map, "v0");
    let (g, map) = audio_mix_graph(&vec!["volume=1".to_string()], &vec![1500], 1, "amixed");
    assert_eq!(g.build(), "[1:a]volume=1[v0];[v0]adelay=1500|1500[d0]");
    assert_eq!(map, "d0");
}

#[test]
fn several_tracks_are_delayed_and_mixed() {
    let vols = vec!["volume=0.8".to_string(), "volume=0.6".to_string(), "volume=1".to_string()];
    let (g, map) = audio_mix_graph(&vols, &vec![0, 2000, 0], 0, "out");
    assert_eq!(
        g.build(),
        "[0:a]volume=0.8[v0];[1:a]volume=0.6[v1];[v1]adelay=2000|2000[d1];[2:a]volume=1[v2];[v0][d1][v2]amix=inputs=3:duration=longest[out]"
    );
    assert_eq!(map, "out");
}

#[test]
fn pad_graph_pads_then_trims() {
    assert_eq!(pad_audio_graph(5000).build(), "[0:a]apad=whole_dur=5[padded];[padded]atrim=end=5[out]");
    assert_eq!(audio_end_seconds(2500), "2.5");
    assert_eq!(audio_end_seconds(3000), "3");
}
