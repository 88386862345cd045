use mango_core::ffmpeg::filter_graph::{escape_drawtext, AmixDuration, FilterGraph};

#[test]
fn empty_graph() {
    let g = FilterGraph::new();
    assert!(g.is_empty());
    assert_eq!(g.build(), "");
}

#[test]
fn amix_two_inputs() {
    let mut g = FilterGraph::new();
    g.amix(&["a0", "a1"], AmixDuration::Longest, "out");
    assert_eq!(g.build(), "[a0][a1]amix=inputs=2:duration=longest[out]");
}

#[test]
fn adelay_chain_joins_with_semicolons() {
    let mut g = FilterGraph::new();
    g.node(&["0:a"], "volume=0.5", &["v0"]);
    g.adelay("v0", 2000, "d0");
    assert_eq!(g.build(), "[0:a]volume=0.5[v0];[v0]adelay=2000|2000[d0]");
}

#[test]
fn aconcat_two_segments() {
    let mut g = FilterGraph::new();
    g.aconcat(&["0:a", "1:a"], "out");
    assert_eq!(g.build(), "[0:a][1:a]concat=n=2:v=0:a=1[out]");
}

#[test]
fn apad_and_atrim() {
    let mut g = FilterGraph::new();
    g.apad("0:a", 5000, "padded");
    g.atrim("padded", 3000, "trimmed");
    assert_eq!(g.build(), "[0:a]apad=whole_dur=5[padded];[padded]atrim=end=3[trimmed]");
}

#[test]
fn apad_fractional_seconds() {
    let mut g = FilterGraph::new();
    g.apad("a", 1500, "b");
    g.atrim("b", 250, "c");
    assert_eq!(g.build(), "[a]apad=whole_dur=1.5[b];[b]atrim=end=0.25[c]");
}

#[test]
fn scale_filter() {
    let mut g = FilterGraph::new();
    g.scale("0:v", 1920, 1080, "scaled");
    assert_eq!(g.build(), "[0:v]scale=1920:1080[scaled]");
}

#[test]
fn pad_filter() {
    let mut g = FilterGraph::new();
    g.pad("0:v", 1920, 1080, 0, 60, "black", "padded");
    assert_eq!(g.build(), "[0:v]pad=1920:1080:0:60:color=black[padded]");
}

#[test]
fn format_filter() {
    let mut g = FilterGraph::new();
    g.format("0:v", "yuv420p", "f");
    assert_eq!(g.build(), "[0:v]format=yuv420p[f]");
}

#[test]
fn drawtext_basic() {
    let mut g = FilterGraph::new();
    g.drawtext("0:v", "Hello World", None, 48, "white", "(w-text_w)/2", "h-60", None, "txt");
    assert_eq!(
        g.build(),
        "[0:v]drawtext=text='Hello World':fontsize=48:fontcolor=white:x=(w-text_w)/2:y=h-60[txt]"
    );
}

#[test]
fn drawtext_escape() {
    let mut g = FilterGraph::new();
    g.drawtext("0:v", "time: 3'30\"", None, 24, "yellow", "10", "10", None, "txt");
    let result = g.build();
    assert!(result.contains("time\\: 3'\\''30\""), "got: {result}");
}

#[test]
fn drawtext_escape_backslash() {
    assert_eq!(escape_drawtext("a\\b:c'd"), "a\\\\b\\:c'\\''d");
}

#[test]
fn drawtext_with_enable() {
    let mut g = FilterGraph::new();
    g.drawtext("0:v", "Hi", None, 32, "white", "10", "10", Some("between(t,1,5)"), "txt");
    let result = g.build();
    assert!(result.contains("enable='between(t,1,5)'"), "got: {result}");
}

#[test]
fn overlay_basic() {
    let mut g = FilterGraph::new();
    g.overlay("main", "logo", "10", "10", None, "out");
    assert_eq!(g.build(), "[main][logo]overlay=x=10:y=10[out]");
}

#[test]
fn overlay_with_enable() {
    let mut g = FilterGraph::new();
    g.overlay("main", "sticker", "100", "200", Some("between(t,2,8)"), "out");
    let result = g.build();
    assert_eq!(result, "[main][sticker]overlay=x=100:y=200:enable='between(t,2,8)'[out]");
}

#[test]
fn zoompan_expr() {
    let mut g = FilterGraph::new();
    g.zoompan("0:v", "1+0.001*in", "iw/2", "ih/2", 120, 1920, 1080, 30, "zp");
    let result = g.build();
    assert!(result.contains("zoompan=z='1+0.001*in'"), "got: {result}");
    assert!(result.contains("s=1920x1080"), "got: {result}");
    assert!(result.contains("d=120"), "got: {result}");
}

#[test]
fn video_concat_with_audio() {
    let mut g = FilterGraph::new();
    g.video_concat(&["v0", "a0", "v1", "a1"], 2, true, "vout", Some("aout"));
    assert_eq!(g.build(), "[v0][a0][v1][a1]concat=n=2:v=1:a=1[vout][aout]");
}

#[test]
fn video_concat_video_only() {
    let mut g = FilterGraph::new();
    g.video_concat(&["v0", "v1", "v2"], 3, false, "vout", None);
    assert_eq!(g.build(), "[v0][v1][v2]concat=n=3:v=1:a=0[vout]");
}

#[test]
fn building_two_graphs_in_turn_concatenates_their_texts() {
    let mut a = FilterGraph::new();
    a.scale("0:v", 640, 360, "s");
    let mut b = FilterGraph::new();
    b.format("s", "yuv420p", "f");
    let mut both = FilterGraph::new();
    both.scale("0:v", 640, 360, "s");
    both.format("s", "yuv420p", "f");
    assert_eq!(both.build(), format!("{};{}", a.build(), b.build()));
    assert_eq!(both.build().matches(';').count(), 1);
}
