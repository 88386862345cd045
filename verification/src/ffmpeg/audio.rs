//! The pure parts of the audio commands: the parameter checks, and the
//! filter graph that sets each track's volume, delays it to its offset and
//! mixes the tracks. The volume filters themselves carry decimal values and
//! are written by the caller.

use vstd::prelude::*;

use crate::error::{is_validation, validation, CoreError};
use crate::ffmpeg::filter_graph::{adelay_text, amix_text, one, AmixDuration, FilterGraph, NodeModel};
use crate::text::{millis_as_seconds, nat_digits, push_char, push_millis_as_seconds, push_str, push_u64, MAX_SECONDS_MILLIS};

verus! {

/// A label made of a letter and an index: `v3`, `d0`.
pub open spec fn indexed(prefix: char, i: nat) -> Seq<char> {
    seq![prefix] + nat_digits(i)
}

/// The audio stream of input `k`: `{k}:a`.
pub open spec fn stream_label(k: nat) -> Seq<char> {
    nat_digits(k) + ":a"@
}

/// The label a track enters the mix under: its delayed stream when it has a
/// positive offset, its volume-adjusted stream otherwise.
pub open spec fn mix_label(i: nat, offset: i64) -> Seq<char> {
    if offset > 0 { indexed('d', i) } else { indexed('v', i) }
}

/// The nodes of track `i`: its volume filter, then a delay when its offset
/// is positive.
pub open spec fn track_nodes(vols: Seq<Seq<char>>, offs: Seq<i64>, base: nat, i: nat) -> Seq<NodeModel> {
    seq![(seq![stream_label(i + base)], vols[i as int], seq![indexed('v', i)])] + if offs[i as int] > 0 {
        seq![(seq![indexed('v', i)], adelay_text(offs[i as int] as int), seq![indexed('d', i)])]
    } else {
        seq![]
    }
}

/// The nodes of the first `n` tracks, in order.
pub open spec fn chain_nodes(vols: Seq<Seq<char>>, offs: Seq<i64>, base: nat, n: nat) -> Seq<NodeModel>
    decreases n,
{
    if n == 0 {
        seq![]
    } else {
        chain_nodes(vols, offs, base, (n - 1) as nat) + track_nodes(vols, offs, base, (n - 1) as nat)
    }
}

/// The labels the tracks enter the mix under, in order.
pub open spec fn mix_labels(offs: Seq<i64>) -> Seq<Seq<char>> {
    Seq::new(offs.len(), |i: int| mix_label(i as nat, offs[i]))
}

/// The whole graph: every track's nodes, then, with more than one track, an
/// `amix` of them (lasting as long as the longest) into `mix_output`.
pub open spec fn mix_graph_nodes(vols: Seq<Seq<char>>, offs: Seq<i64>, base: nat, mix_output: Seq<char>) -> Seq<NodeModel> {
    chain_nodes(vols, offs, base, offs.len()) + if offs.len() > 1 {
        seq![(mix_labels(offs), amix_text(offs.len(), AmixDuration::Longest), seq![mix_output])]
    } else {
        seq![]
    }
}

/// The label the mixed audio is taken from.
pub open spec fn mix_map_label(offs: Seq<i64>, mix_output: Seq<char>) -> Seq<char> {
    if offs.len() > 1 { mix_output } else { mix_label(0, offs[0]) }
}

fn indexed_label(prefix: char, i: usize) -> (s: String)
    ensures
        s@ == indexed(prefix, i as nat),
{
    let mut s = String::new();
    push_char(&mut s, prefix);
    push_u64(&mut s, i as u64);
    s
}

/// The graph that mixes audio tracks: track `i` is read from input
/// `input_base + i`, passed through `volume_filters[i]` into `v{i}`, delayed
/// by `offsets[i]` into `d{i}` when that is positive, and all tracks are
/// mixed into `mix_output` when there are several. Also gives the label the
/// result is mapped from.
pub fn audio_mix_graph(
    volume_filters: &Vec<String>,
    offsets: &Vec<i64>,
    input_base: usize,
    mix_output: &str,
) -> (r: (FilterGraph, String))
    requires
        volume_filters@.len() == offsets@.len(),
        offsets@.len() > 0,
        offsets@.len() + input_base <= usize::MAX,
    ensures
        r.0@ == mix_graph_nodes(volume_filters.deep_view(), offsets@, input_base as nat, mix_output@),
        r.1@ == mix_map_label(offsets@, mix_output@),
{
    let ghost vols = volume_filters.deep_view();
    let n = offsets.len();
    let mut g = FilterGraph::new();
    let mut labels: Vec<String> = Vec::new();
    let mut i: usize = 0;
    while i < n
        invariant
            n == offsets@.len(),
            n == volume_filters@.len(),
            vols == volume_filters.deep_view(),
            n + input_base <= usize::MAX,
            i <= n,
            g@ == chain_nodes(vols, offsets@, input_base as nat, i as nat),
            labels.deep_view() == mix_labels(offsets@).take(i as int),
        decreases n - i,
    {
        let mut src = String::new();
        push_u64(&mut src, (i + input_base) as u64);
        push_str(&mut src, ":a");
        let v = indexed_label('v', i);
        let ghost before = g@;
        let mut ins: Vec<String> = Vec::new();
        ins.push(src);
        assert(ins.deep_view() =~= seq![stream_label((i + input_base) as nat)]);
        let vol = volume_filters[i].clone();
        g.push_node(ins, vol, one(v.as_str()));
        let off = offsets[i];
        if off > 0 {
            let d = indexed_label('d', i);
            g.adelay(v.as_str(), off, d.as_str());
            let ghost l = labels.deep_view();
            labels.push(d);
            assert(labels.deep_view() =~= l.push(mix_label(i as nat, off)));
        } else {
            let ghost l = labels.deep_view();
            labels.push(v);
            assert(labels.deep_view() =~= l.push(mix_label(i as nat, off)));
        }
        proof {
            assert(g@ =~= before + track_nodes(vols, offsets@, input_base as nat, i as nat));
            assert(mix_labels(offsets@).take(i + 1) =~= mix_labels(offsets@).take(i as int).push(
                mix_label(i as nat, offsets@[i as int]),
            ));
        }
        i = i + 1;
    }
    assert(mix_labels(offsets@).take(n as int) =~= mix_labels(offsets@));
    if n > 1 {
        let mut refs: Vec<&str> = Vec::new();
        let mut k: usize = 0;
        while k < n
            invariant
                k <= n,
                n == labels@.len(),
                refs@.map_values(|s: &str| s@) == labels.deep_view().take(k as int),
            decreases n - k,
        {
            let ghost before = refs@.map_values(|s: &str| s@);
            let l = labels[k].as_str();
            assert(labels.deep_view()[k as int] == labels@[k as int]@);
            refs.push(l);
            assert(refs@.map_values(|s: &str| s@) =~= before.push(l@));
            assert(refs@.map_values(|s: &str| s@) =~= labels.deep_view().take(k + 1));
            k = k + 1;
        }
        assert(labels.deep_view().take(n as int) =~= labels.deep_view());
        let ghost before = g@;
        g.amix(refs.as_slice(), AmixDuration::Longest, mix_output);
        assert(g@ =~= mix_graph_nodes(vols, offsets@, input_base as nat, mix_output@));
        (g, mix_output.to_owned())
    } else {
        assert(g@ =~= mix_graph_nodes(vols, offsets@, input_base as nat, mix_output@));
        assert(labels.deep_view()[0] == labels@[0]@);
        let first = labels[0].clone();
        (g, first)
    }
}

/// The check `mix_audio` makes on its input count.
pub fn check_mix_inputs(n_inputs: usize) -> (r: Result<(), CoreError>)
    ensures
        r is Ok <==> n_inputs > 0,
        n_inputs == 0 ==> is_validation(r, "mix_audio requires at least one input"@),
{
    if n_inputs == 0 {
        return Err(validation("mix_audio requires at least one input"));
    }
    Ok(())
}

/// The check `overlay_audio_on_video` makes on its track count.
pub fn check_overlay_tracks(n_tracks: usize) -> (r: Result<(), CoreError>)
    ensures
        r is Ok <==> n_tracks > 0,
        n_tracks == 0 ==> is_validation(r, "overlay requires at least one audio track"@),
{
    if n_tracks == 0 {
        return Err(validation("overlay requires at least one audio track"));
    }
    Ok(())
}

/// The check `pad_audio_to_duration` makes on its target.
pub fn check_pad_target(target_duration_ms: i64) -> (r: Result<(), CoreError>)
    ensures
        r is Ok <==> target_duration_ms > 0,
        target_duration_ms <= 0 ==> is_validation(r, "target_duration_ms must be positive"@),
{
    if target_duration_ms <= 0 {
        return Err(validation("target_duration_ms must be positive"));
    }
    Ok(())
}

/// The check `trim_audio` makes on its end point.
pub fn check_audio_end(end_ms: i64) -> (r: Result<(), CoreError>)
    ensures
        r is Ok <==> end_ms > 0,
        end_ms <= 0 ==> is_validation(r, "end_ms must be positive"@),
{
    if end_ms <= 0 {
        return Err(validation("end_ms must be positive"));
    }
    Ok(())
}

/// The graph that pads a track with silence to `target_duration_ms` and
/// cuts it there: `[0:a]apad=…[padded];[padded]atrim=…[out]`.
pub fn pad_audio_graph(target_duration_ms: i64) -> (g: FilterGraph)
    requires
        -MAX_SECONDS_MILLIS <= target_duration_ms <= MAX_SECONDS_MILLIS,
    ensures
        g@ == seq![
            (seq!["0:a"@], crate::ffmpeg::filter_graph::apad_text(target_duration_ms as int), seq!["padded"@]),
            (seq!["padded"@], crate::ffmpeg::filter_graph::atrim_text(target_duration_ms as int), seq!["out"@]),
        ],
{
    let mut g = FilterGraph::new();
    g.apad("0:a", target_duration_ms, "padded");
    g.atrim("padded", target_duration_ms, "out");
    assert(g@ =~= seq![
        (seq!["0:a"@], crate::ffmpeg::filter_graph::apad_text(target_duration_ms as int), seq!["padded"@]),
        (seq!["padded"@], crate::ffmpeg::filter_graph::atrim_text(target_duration_ms as int), seq!["out"@]),
    ]);
    g
}

/// The `-t` value that cuts a track at `end_ms`: the time in seconds, as a
/// decimal number is displayed.
pub fn audio_end_seconds(end_ms: i64) -> (s: String)
    requires
        -MAX_SECONDS_MILLIS <= end_ms <= MAX_SECONDS_MILLIS,
    ensures
        s@ == millis_as_seconds(end_ms as int),
{
    let mut s = String::new();
    push_millis_as_seconds(&mut s, end_ms);
    s
}

} // verus!
