//! What an episode's multi-track timeline resolves to before it is exported:
//! the clips of its video tracks in order, its transitions with their types,
//! its text items, the audio of its unmuted audio tracks, and where it ends.
//! Looking up asset files and probing them is the application's part.

use vstd::prelude::*;

use crate::error::{fails_validation, validation, CoreError};
use crate::export::{timeline_end_spec, timeline_total_duration, ResolvedTransition};
use crate::records::{json_string_field, json_string_of_key, TrackType};

verus! {

/// The kind of a timeline item, as far as resolution tells them apart.
#[derive(Debug, Clone, Copy, PartialEq, Eq)]
pub enum ItemType {
    Clip,
    Transition,
    Text,
    /// Any other kind of item.
    Other,
}

/// A track of the timeline, as stored.
#[derive(Debug, Clone)]
pub struct TrackRow {
    pub id: String,
    pub track_type: TrackType,
    pub muted: bool,
}

/// An item of the timeline, as stored.
#[derive(Debug, Clone)]
pub struct ItemRow {
    pub track_id: String,
    pub item_type: ItemType,
    pub asset_id: Option<String>,
    pub position_ms: i64,
    pub duration_ms: i64,
    pub in_point_ms: i64,
    pub out_point_ms: i64,
    pub params_json: String,
}

/// The first track with the given id.
pub open spec fn track_index(tracks: Seq<TrackRow>, id: Seq<char>) -> Option<int>
    decreases tracks.len(),
{
    if tracks.len() == 0 {
        None
    } else {
        match track_index(tracks.drop_last(), id) {
            Some(j) => Some(j),
            None => if tracks.last().id@ == id { Some(tracks.len() - 1) } else { None },
        }
    }
}

/// Whether the item lies on a track of the given type.
pub open spec fn on_track(tracks: Seq<TrackRow>, item: ItemRow, ty: TrackType) -> bool {
    track_index(tracks, item.track_id@) matches Some(j) && tracks[j].track_type == ty
}

/// Whether the item lies on an audio track that is not muted.
pub open spec fn on_unmuted_audio(tracks: Seq<TrackRow>, item: ItemRow) -> bool {
    track_index(tracks, item.track_id@) matches Some(j) && tracks[j].track_type == TrackType::Audio
        && !tracks[j].muted
}

/// The groups of items that resolution collects.
pub enum Pick {
    /// Clip items on video tracks.
    VideoClip,
    /// Transition items, on any track.
    Transition,
    /// Text items on text tracks.
    TextOverlay,
    /// Items with an asset on unmuted audio tracks.
    AudioInput,
}

pub open spec fn picked(tracks: Seq<TrackRow>, item: ItemRow, pick: Pick) -> bool {
    match pick {
        Pick::VideoClip => on_track(tracks, item, TrackType::Video) && item.item_type == ItemType::Clip,
        Pick::Transition => item.item_type == ItemType::Transition,
        Pick::TextOverlay => item.item_type == ItemType::Text && on_track(tracks, item, TrackType::Text),
        Pick::AudioInput => on_unmuted_audio(tracks, item) && item.asset_id is Some,
    }
}

/// The indices, in order, of the first `n` items that the pick collects.
pub open spec fn select(tracks: Seq<TrackRow>, items: Seq<ItemRow>, pick: Pick, n: nat) -> Seq<usize>
    decreases n,
{
    if n == 0 {
        seq![]
    } else {
        let s = select(tracks, items, pick, (n - 1) as nat);
        if picked(tracks, items[n - 1], pick) {
            s.push((n - 1) as usize)
        } else {
            s
        }
    }
}

/// The indices of all items that the pick collects.
pub open spec fn selected(tracks: Seq<TrackRow>, items: Seq<ItemRow>, pick: Pick) -> Seq<usize> {
    select(tracks, items, pick, items.len())
}

/// The type of a transition: the `transition_type` string of its parameters,
/// or `dissolve`.
pub open spec fn transition_type_spec(params_json: Seq<char>) -> Seq<char> {
    match json_string_of_key(params_json, "transition_type"@) {
        Some(t) => t,
        None => "dissolve"@,
    }
}

/// The timeline's result: the indices of its video clips, its resolved
/// transitions, the indices of its text items and of its audio inputs, where
/// it ends, and whether its video tracks hold anything but clips.
#[derive(Debug, Clone)]
pub struct TimelinePlan {
    pub clips: Vec<usize>,
    pub transitions: Vec<ResolvedTransition>,
    pub text_items: Vec<usize>,
    pub audio_items: Vec<usize>,
    pub total_duration_ms: i64,
    pub video_effects: bool,
}

/// The `(position, duration)` spans of the given items.
pub open spec fn spans_of(items: Seq<ItemRow>, idx: Seq<usize>) -> Seq<(i64, i64)> {
    idx.map_values(|i: usize| (items[i as int].position_ms, items[i as int].duration_ms))
}

proof fn lemma_track_index(tracks: Seq<TrackRow>, id: Seq<char>)
    ensures
        match track_index(tracks, id) {
            Some(j) => 0 <= j < tracks.len() && tracks[j].id@ == id && forall|i: int|
                0 <= i < j ==> #[trigger] tracks[i].id@ != id,
            None => forall|i: int| 0 <= i < tracks.len() ==> #[trigger] tracks[i].id@ != id,
        },
    decreases tracks.len(),
{
    if tracks.len() > 0 {
        let front = tracks.drop_last();
        lemma_track_index(front, id);
        assert forall|i: int| 0 <= i < front.len() implies #[trigger] tracks[i] == front[i] by {}
    }
}

proof fn lemma_select(tracks: Seq<TrackRow>, items: Seq<ItemRow>, pick: Pick, n: nat)
    requires
        n <= items.len(),
        n <= usize::MAX,
    ensures
        forall|k: int| 0 <= k < select(tracks, items, pick, n).len() ==> {
            let i = #[trigger] select(tracks, items, pick, n)[k];
            i < n && picked(tracks, items[i as int], pick)
        },
    decreases n,
{
    if n > 0 {
        lemma_select(tracks, items, pick, (n - 1) as nat);
        let s = select(tracks, items, pick, (n - 1) as nat);
        let t = select(tracks, items, pick, n);
        assert forall|k: int| 0 <= k < t.len() implies {
            let i = #[trigger] t[k];
            i < n && picked(tracks, items[i as int], pick)
        } by {
                if k < s.len() {
                assert(t[k] == s[k]);
            } else {
                assert(t[k] == (n - 1) as usize);
            }
        }
    }
}

/// The track an item lies on, by its id: the first track with that id.
fn find_track(tracks: &Vec<TrackRow>, id: &str) -> (r: Option<usize>)
    ensures
        match track_index(tracks@, id@) {
            Some(j) => 0 <= j < tracks@.len() && r == Some(j as usize),
            None => r is None,
        },
{
    proof { lemma_track_index(tracks@, id@); }
    let mut i: usize = 0;
    while i < tracks.len()
        invariant
            i <= tracks@.len(),
            forall|k: int| 0 <= k < i ==> #[trigger] tracks@[k].id@ != id@,
            match track_index(tracks@, id@) {
                Some(j) => 0 <= j < tracks@.len() && tracks@[j].id@ == id@ && forall|k: int|
                    0 <= k < j ==> #[trigger] tracks@[k].id@ != id@,
                None => forall|k: int| 0 <= k < tracks@.len() ==> #[trigger] tracks@[k].id@ != id@,
            },
        decreases tracks@.len() - i,
    {
        if crate::text::str_eq(tracks[i].id.as_str(), id) {
            assert(tracks@.len() == tracks.len());
            return Some(i);
        }
        i = i + 1;
    }
    None
}

fn is_type(a: TrackType, b: TrackType) -> (r: bool)
    ensures
        r == (a == b),
{
    match (a, b) {
        (TrackType::Video, TrackType::Video) => true,
        (TrackType::Overlay, TrackType::Overlay) => true,
        (TrackType::Text, TrackType::Text) => true,
        (TrackType::Audio, TrackType::Audio) => true,
        _ => false,
    }
}

/// Which groups an item belongs to: on a video track, a video clip, a
/// transition, a text overlay, an audio input.
fn classify(tracks: &Vec<TrackRow>, item: &ItemRow) -> (r: (bool, bool, bool, bool, bool))
    ensures
        r.0 == on_track(tracks@, *item, TrackType::Video),
        r.1 == picked(tracks@, *item, Pick::VideoClip),
        r.2 == picked(tracks@, *item, Pick::Transition),
        r.3 == picked(tracks@, *item, Pick::TextOverlay),
        r.4 == picked(tracks@, *item, Pick::AudioInput),
{
    assert(tracks@.len() == tracks.len());
    let (ty, muted): (Option<TrackType>, bool) = match find_track(tracks, item.track_id.as_str()) {
        Some(j) => (Some(tracks[j].track_type), tracks[j].muted),
        None => (None, false),
    };
    let on_video = match ty {
        Some(t) => is_type(t, TrackType::Video),
        None => false,
    };
    let on_text = match ty {
        Some(t) => is_type(t, TrackType::Text),
        None => false,
    };
    let on_audio = match ty {
        Some(t) => is_type(t, TrackType::Audio) && !muted,
        None => false,
    };
    let (is_clip, is_transition, is_text) = match item.item_type {
        ItemType::Clip => (true, false, false),
        ItemType::Transition => (false, true, false),
        ItemType::Text => (false, false, true),
        ItemType::Other => (false, false, false),
    };
    (on_video, on_video && is_clip, is_transition, is_text && on_text, on_audio && item.asset_id.is_some())
}

/// Resolves an episode's timeline from its tracks and items, both in their
/// stored order.
///
/// Refused, in this order: a timeline without tracks, one with no item on a
/// video track. Otherwise the clips are the clip items on video tracks; the transitions
/// are the transition items, typed by their parameters (`dissolve` by
/// default); the text items lie on text tracks; the audio inputs are the
/// items with an asset on unmuted audio tracks (each starts at its
/// position); the timeline ends at the latest end of a clip.
pub fn resolve_timeline_plan(tracks: &Vec<TrackRow>, items: &Vec<ItemRow>) -> (r: Result<TimelinePlan, CoreError>)
    requires
        forall|i: int|
            0 <= i < items@.len() && #[trigger] picked(tracks@, items@[i], Pick::VideoClip) ==> i64::MIN
                <= items@[i].position_ms + items@[i].duration_ms <= i64::MAX,
    ensures
        tracks@.len() == 0 ==> fails_validation(r, "no timeline tracks for this episode"@),
        tracks@.len() > 0 && !(exists|i: int|
            0 <= i < items@.len() && #[trigger] on_track(tracks@, items@[i], TrackType::Video)) ==> fails_validation(
            r,
            "no video clips in timeline"@,
        ),
        r is Ok <==> tracks@.len() > 0 && (exists|i: int|
            0 <= i < items@.len() && #[trigger] on_track(tracks@, items@[i], TrackType::Video)),
        r matches Ok(p) ==> {
            &&& p.clips@ == selected(tracks@, items@, Pick::VideoClip)
            &&& p.text_items@ == selected(tracks@, items@, Pick::TextOverlay)
            &&& p.audio_items@ == selected(tracks@, items@, Pick::AudioInput)
            &&& p.transitions@.len() == selected(tracks@, items@, Pick::Transition).len()
            &&& forall|k: int| 0 <= k < p.transitions@.len() ==> {
                let item = items@[selected(tracks@, items@, Pick::Transition)[k] as int];
                &&& (#[trigger] p.transitions@[k]).transition_type@ == transition_type_spec(item.params_json@)
                &&& p.transitions@[k].duration_ms == item.duration_ms
                &&& p.transitions@[k].position_ms == item.position_ms
            }
            &&& p.total_duration_ms == timeline_end_spec(spans_of(items@, p.clips@))
            &&& p.video_effects == exists|i: int|
                0 <= i < items@.len() && #[trigger] on_track(tracks@, items@[i], TrackType::Video)
                    && items@[i].item_type != ItemType::Clip
        },
{
    if tracks.len() == 0 {
        return Err(validation("no timeline tracks for this episode"));
    }
    let mut clips: Vec<usize> = Vec::new();
    let mut transitions: Vec<ResolvedTransition> = Vec::new();
    let mut text_items: Vec<usize> = Vec::new();
    let mut audio_items: Vec<usize> = Vec::new();
    let mut has_video = false;
    let mut video_effects = false;
    let mut i: usize = 0;
    while i < items.len()
        invariant
            i <= items@.len(),
            clips@ == select(tracks@, items@, Pick::VideoClip, i as nat),
            text_items@ == select(tracks@, items@, Pick::TextOverlay, i as nat),
            audio_items@ == select(tracks@, items@, Pick::AudioInput, i as nat),
            transitions@.len() == select(tracks@, items@, Pick::Transition, i as nat).len(),
            forall|k: int| 0 <= k < transitions@.len() ==> {
                let item = items@[select(tracks@, items@, Pick::Transition, i as nat)[k] as int];
                &&& (#[trigger] transitions@[k]).transition_type@ == transition_type_spec(item.params_json@)
                &&& transitions@[k].duration_ms == item.duration_ms
                &&& transitions@[k].position_ms == item.position_ms
            },
            has_video == exists|j: int| 0 <= j < i && #[trigger] on_track(tracks@, items@[j], TrackType::Video),
            video_effects == exists|j: int|
                0 <= j < i && #[trigger] on_track(tracks@, items@[j], TrackType::Video) && items@[j].item_type
                    != ItemType::Clip,
        decreases items@.len() - i,
    {
        let item = &items[i];
        assert(items@.len() == items.len());
        let (on_video, is_clip, is_transition, is_text, is_audio) = classify(tracks, item);
        proof { lemma_select(tracks@, items@, Pick::Transition, i as nat); }
        if on_video {
            has_video = true;
            let other = match item.item_type {
                ItemType::Clip => false,
                _ => true,
            };
            if other {
                video_effects = true;
            }
        }
        if is_clip {
            clips.push(i);
        }
        if is_transition {
            let tt = match json_string_field(item.params_json.as_str(), "transition_type") {
                Some(t) => t,
                None => "dissolve".to_owned(),
            };
            transitions.push(ResolvedTransition {
                transition_type: tt,
                duration_ms: item.duration_ms,
                position_ms: item.position_ms,
            });
        }
        if is_text {
            text_items.push(i);
        }
        if is_audio {
            audio_items.push(i);
        }
        i = i + 1;
    }
    if !has_video {
        return Err(validation("no video clips in timeline"));
    }
    let mut spans: Vec<(i64, i64)> = Vec::new();
    let mut k: usize = 0;
    assert(items@.len() == items.len());
    proof { lemma_select(tracks@, items@, Pick::VideoClip, items@.len()); }
    while k < clips.len()
        invariant
            k <= clips@.len(),
            clips@ == selected(tracks@, items@, Pick::VideoClip),
            spans@ == spans_of(items@, clips@.take(k as int)),
            forall|m: int| 0 <= m < clips@.len() ==> {
                let j = #[trigger] clips@[m];
                j < items@.len() && picked(tracks@, items@[j as int], Pick::VideoClip)
            },
            forall|i: int|
                0 <= i < items@.len() && #[trigger] picked(tracks@, items@[i], Pick::VideoClip) ==> i64::MIN
                    <= items@[i].position_ms + items@[i].duration_ms <= i64::MAX,
        decreases clips@.len() - k,
    {
        let j = clips[k];
        spans.push((items[j].position_ms, items[j].duration_ms));
        assert(clips@.take(k + 1) =~= clips@.take(k as int).push(j));
        assert(spans@ =~= spans_of(items@, clips@.take(k + 1)));
        k = k + 1;
    }
    assert(clips@.take(clips@.len() as int) =~= clips@);
    let total = timeline_total_duration(&spans);
    Ok(TimelinePlan { clips, transitions, text_items, audio_items, total_duration_ms: total, video_effects })
}

/// The asset a video clip is cut from; a clip that names none is refused.
/// The application asks this of each clip in turn, before it looks the
/// clip's file up.
pub fn clip_asset(item: &ItemRow) -> (r: Result<String, CoreError>)
    ensures
        item.asset_id matches Some(a) ==> r matches Ok(s) && s@ == a@,
        item.asset_id is None ==> fails_validation(r, "video clip item missing asset_id"@),
{
    match &item.asset_id {
        Some(a) => Ok(a.clone()),
        None => Err(validation("video clip item missing asset_id")),
    }
}

} // verus!
