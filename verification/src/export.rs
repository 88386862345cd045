//! The decisions of an episode export: which clips are cut and how they are
//! joined, where each clip starts on the assembled timeline, which audio
//! roles are mixed in, and whether the timeline can be stream-copied or must
//! be rendered. Probing media, running FFmpeg and touching files is the
//! application's part.

use vstd::prelude::*;

use crate::error::{validation, CoreError};

verus! {

/// A clip of an episode, with the file it is cut from and its optional trim
/// points.
#[derive(Debug, Clone)]
pub struct ResolvedClip {
    pub source_path: String,
    pub trim_start_ms: Option<i64>,
    pub trim_end_ms: Option<i64>,
}

impl ResolvedClip {
    /// Whether either trim point is set.
    pub open spec fn spec_needs_trim(&self) -> bool {
        self.trim_start_ms.is_some() || self.trim_end_ms.is_some()
    }

    /// Whether the clip is cut rather than used whole.
    pub fn needs_trim(&self) -> (b: bool)
        ensures
            b == self.spec_needs_trim(),
    {
        self.trim_start_ms.is_some() || self.trim_end_ms.is_some()
    }

    /// The cut of the clip: from its start point (or 0) to its end point
    /// (or the full length of the source, `source_duration_ms`).
    pub fn trim_bounds(&self, source_duration_ms: i64) -> (r: (i64, i64))
        ensures
            r.0 == match self.trim_start_ms { Some(s) => s, None => 0 },
            r.1 == match self.trim_end_ms { Some(e) => e, None => source_duration_ms },
    {
        let start = match self.trim_start_ms {
            Some(s) => s,
            None => 0,
        };
        let end = match self.trim_end_ms {
            Some(e) => e,
            None => source_duration_ms,
        };
        (start, end)
    }

    /// How long the clip plays: its end point less its start point.
    pub fn played_duration(&self, source_duration_ms: i64) -> (d: i64)
        requires
            i64::MIN <= (match self.trim_end_ms { Some(e) => e as int, None => source_duration_ms as int })
                - (match self.trim_start_ms { Some(s) => s as int, None => 0int }) <= i64::MAX,
        ensures
            d == (match self.trim_end_ms { Some(e) => e as int, None => source_duration_ms as int })
                - (match self.trim_start_ms { Some(s) => s as int, None => 0int }),
    {
        let (start, end) = self.trim_bounds(source_duration_ms);
        end - start
    }
}

/// How a list of clips becomes one file.
#[derive(Debug, Clone, Copy, PartialEq, Eq)]
pub enum ClipExportPlan {
    /// A single untrimmed clip: the source file is copied.
    CopySingle,
    /// A single trimmed clip: it is cut straight into the output.
    TrimSingle,
    /// Several clips: those with trim points are cut first, then all are
    /// concatenated in order.
    Concat,
}

/// The plan for exporting `clips`, or the refusal of an empty list.
pub fn plan_clip_export(clips: &Vec<ResolvedClip>) -> (r: Result<ClipExportPlan, CoreError>)
    ensures
        clips@.len() == 0 <==> r is Err,
        r matches Err(e) ==> e matches CoreError::Validation(m) && m@ == "no video clips to export"@,
        clips@.len() == 1 && !clips@[0].spec_needs_trim() <==> r == Ok::<ClipExportPlan, CoreError>(ClipExportPlan::CopySingle),
        clips@.len() == 1 && clips@[0].spec_needs_trim() <==> r == Ok::<ClipExportPlan, CoreError>(ClipExportPlan::TrimSingle),
        clips@.len() > 1 <==> r == Ok::<ClipExportPlan, CoreError>(ClipExportPlan::Concat),
{
    if clips.len() == 0 {
        return Err(validation("no video clips to export"));
    }
    if clips.len() == 1 {
        if clips[0].needs_trim() {
            Ok(ClipExportPlan::TrimSingle)
        } else {
            Ok(ClipExportPlan::CopySingle)
        }
    } else {
        Ok(ClipExportPlan::Concat)
    }
}

/// Sum of a sequence of durations.
pub open spec fn total_ms(s: Seq<i64>) -> int
    decreases s.len(),
{
    if s.len() == 0 {
        0
    } else {
        total_ms(s.drop_last()) + s.last()
    }
}

/// Whether every partial sum of `s` fits in an `i64`.
pub open spec fn prefix_sums_fit(s: Seq<i64>) -> bool {
    forall|k: int| 0 <= k <= s.len() ==> i64::MIN <= #[trigger] total_ms(s.take(k)) <= i64::MAX
}

/// Where each clip starts on the assembled timeline, and where the last one
/// ends: the offset of clip `i` is the sum of the durations before it.
pub fn timeline_offsets(durations: &Vec<i64>) -> (r: (Vec<i64>, i64))
    requires
        prefix_sums_fit(durations@),
    ensures
        r.0@.len() == durations@.len(),
        forall|i: int| 0 <= i < durations@.len() ==> r.0@[i] == total_ms(#[trigger] durations@.take(i)),
        r.1 == total_ms(durations@),
{
    let mut offsets: Vec<i64> = Vec::new();
    let mut acc: i64 = 0;
    let mut i: usize = 0;
    while i < durations.len()
        invariant
            i <= durations@.len(),
            prefix_sums_fit(durations@),
            offsets@.len() == i,
            acc == total_ms(durations@.take(i as int)),
            forall|j: int| 0 <= j < i ==> offsets@[j] == total_ms(#[trigger] durations@.take(j)),
        decreases durations@.len() - i,
    {
        offsets.push(acc);
        proof {
            assert(durations@.take(i + 1).drop_last() =~= durations@.take(i as int));
            assert(durations@.take(i + 1).last() == durations@[i as int]);
            assert(i64::MIN <= total_ms(durations@.take(i + 1)) <= i64::MAX);
        }
        acc = acc + durations[i];
        i = i + 1;
    }
    assert(durations@.take(durations@.len() as int) =~= durations@);
    (offsets, acc)
}

/// The role an audio binding plays in a shot.
#[derive(Debug, Clone, Copy, PartialEq, Eq)]
pub enum AudioRole {
    Voice,
    Sfx,
    Bgm,
}

/// Which audio roles a final export mixes over the video.
#[derive(Debug, Clone, Copy, PartialEq, Eq)]
pub struct FinalExportSettings {
    pub include_voice: bool,
    pub include_sfx: bool,
    pub include_bgm: bool,
}

impl Default for FinalExportSettings {
    /// Every role is included.
    fn default() -> (s: Self)
        ensures
            s.include_voice && s.include_sfx && s.include_bgm,
    {
        FinalExportSettings { include_voice: true, include_sfx: true, include_bgm: true }
    }
}

impl FinalExportSettings {
    /// Whether tracks of `role` are mixed in.
    pub open spec fn spec_includes(&self, role: AudioRole) -> bool {
        match role {
            AudioRole::Voice => self.include_voice,
            AudioRole::Sfx => self.include_sfx,
            AudioRole::Bgm => self.include_bgm,
        }
    }

    /// Whether tracks of `role` are mixed in.
    pub fn includes(&self, role: AudioRole) -> (b: bool)
        ensures
            b == self.spec_includes(role),
    {
        match role {
            AudioRole::Voice => self.include_voice,
            AudioRole::Sfx => self.include_sfx,
            AudioRole::Bgm => self.include_bgm,
        }
    }
}

/// An audio binding of a shot, as the final export sees it: its role, its
/// offset within the shot, and whether its file is on disk.
#[derive(Debug, Clone, Copy, PartialEq, Eq)]
pub struct ShotAudioRef {
    pub role: AudioRole,
    pub offset_ms: i64,
    pub file_present: bool,
}

/// An audio binding placed on the assembled timeline: which clip and which
/// of its shot's bindings, and where it starts.
#[derive(Debug, Clone, Copy, PartialEq, Eq)]
pub struct PlacedAudio {
    pub clip_index: usize,
    pub binding_index: usize,
    pub absolute_offset_ms: i64,
}

/// The first `k` bindings of clip `i` that are mixed in: of an included role
/// and with the file present, each starting at the clip's offset plus its own.
pub open spec fn placed_in_clip(
    settings: FinalExportSettings,
    clip_offset: int,
    i: nat,
    bindings: Seq<ShotAudioRef>,
    k: nat,
) -> Seq<PlacedAudio>
    decreases k,
{
    if k == 0 {
        seq![]
    } else {
        let j = (k - 1) as nat;
        let b = bindings[j as int];
        placed_in_clip(settings, clip_offset, i, bindings, j) + if settings.spec_includes(b.role) && b.file_present {
            seq![PlacedAudio { clip_index: i as usize, binding_index: j as usize, absolute_offset_ms: (clip_offset + b.offset_ms) as i64 }]
        } else {
            seq![]
        }
    }
}

/// The bindings of the first `n` clips that are mixed in, clip by clip; a
/// clip whose source has no shot contributes none.
pub open spec fn placed_audio(
    settings: FinalExportSettings,
    offsets: Seq<i64>,
    shots: Seq<Option<Seq<ShotAudioRef>>>,
    n: nat,
) -> Seq<PlacedAudio>
    decreases n,
{
    if n == 0 {
        seq![]
    } else {
        let i = (n - 1) as nat;
        placed_audio(settings, offsets, shots, i) + match shots[i as int] {
            Some(bs) => placed_in_clip(settings, offsets[i as int] as int, i, bs, bs.len()),
            None => seq![],
        }
    }
}

/// The bindings of each clip's shot, by view.
pub open spec fn shots_view(shots: Seq<Option<Vec<ShotAudioRef>>>) -> Seq<Option<Seq<ShotAudioRef>>> {
    shots.map_values(|o: Option<Vec<ShotAudioRef>>| match o {
        Some(v) => Some(v@),
        None => None,
    })
}

/// Places the audio of a final export: for each clip (starting at
/// `offsets[i]` on the timeline) whose source belongs to a shot
/// (`shots[i]`), every binding of an included role whose file is present,
/// at the clip's offset plus the binding's own.
pub fn place_audio(
    settings: &FinalExportSettings,
    offsets: &Vec<i64>,
    shots: &Vec<Option<Vec<ShotAudioRef>>>,
) -> (r: Vec<PlacedAudio>)
    requires
        offsets@.len() == shots@.len(),
        forall|i: int, j: int|
            #![trigger shots_view(shots@)[i]->0[j]]
            0 <= i < shots@.len() && shots_view(shots@)[i] is Some && 0 <= j < shots_view(shots@)[i]->0.len()
                ==> i64::MIN <= offsets@[i] + shots_view(shots@)[i]->0[j].offset_ms <= i64::MAX,
    ensures
        r@ == placed_audio(*settings, offsets@, shots_view(shots@), shots@.len()),
{
    let ghost sv = shots_view(shots@);
    let mut out: Vec<PlacedAudio> = Vec::new();
    let mut i: usize = 0;
    while i < shots.len()
        invariant
            offsets@.len() == shots@.len(),
            sv == shots_view(shots@),
            i <= shots@.len(),
            forall|a: int, j: int|
                #![trigger shots_view(shots@)[a]->0[j]]
                0 <= a < shots@.len() && shots_view(shots@)[a] is Some && 0 <= j < shots_view(shots@)[a]->0.len()
                    ==> i64::MIN <= offsets@[a] + shots_view(shots@)[a]->0[j].offset_ms <= i64::MAX,
            out@ == placed_audio(*settings, offsets@, sv, i as nat),
        decreases shots@.len() - i,
    {
        let base = offsets[i];
        match &shots[i] {
            None => {
                assert(sv[i as int] is None);
            },
            Some(bs) => {
                assert(sv[i as int] == Some(bs@));
                let ghost start = out@;
                assert forall|k: int| 0 <= k < bs@.len() implies i64::MIN <= base + #[trigger] bs@[k].offset_ms <= i64::MAX by {
                    assert(shots_view(shots@)[i as int]->0[k] == bs@[k]);
                }
                let mut j: usize = 0;
                while j < bs.len()
                    invariant
                        j <= bs@.len(),
                        sv[i as int] == Some(bs@),
                        base == offsets@[i as int],
                        0 <= i < shots@.len(),
                        forall|k: int| 0 <= k < bs@.len() ==> i64::MIN <= base + #[trigger] bs@[k].offset_ms <= i64::MAX,
                        out@ == start + placed_in_clip(*settings, base as int, i as nat, bs@, j as nat),
                    decreases bs@.len() - j,
                {
                    let b = bs[j];
                    if settings.includes(b.role) && b.file_present {
                        out.push(PlacedAudio { clip_index: i, binding_index: j, absolute_offset_ms: base + b.offset_ms });
                    }
                    proof {
                        assert(out@ =~= start + placed_in_clip(*settings, base as int, i as nat, bs@, (j + 1) as nat));
                    }
                    j = j + 1;
                }
            },
        }
        proof {
            assert(out@ =~= placed_audio(*settings, offsets@, sv, (i + 1) as nat));
        }
        i = i + 1;
    }
    out
}

/// Whether a timeline is exported by stream copy or by a full render.
#[derive(Debug, Clone, Copy, PartialEq, Eq)]
pub enum ExportMode {
    Copy,
    Render,
}

/// A timeline needs rendering when it carries effects, transitions or text,
/// or when its clips do not all share one format; otherwise it is copied.
pub fn choose_export_mode(
    has_effects: bool,
    transition_count: usize,
    text_overlay_count: usize,
    clips_share_format: bool,
) -> (m: ExportMode)
    ensures
        m == (if has_effects || transition_count > 0 || text_overlay_count > 0 || !clips_share_format {
            ExportMode::Render
        } else {
            ExportMode::Copy
        }),
{
    if has_effects || transition_count > 0 || text_overlay_count > 0 {
        ExportMode::Render
    } else if clips_share_format {
        ExportMode::Copy
    } else {
        ExportMode::Render
    }
}

/// The copy-mode clip for a timeline item: its in point is a start trim when
/// past 0, its out point an end trim when before the item's duration.
pub fn clip_for_copy(source_path: String, in_point_ms: i64, out_point_ms: i64, duration_ms: i64) -> (c: ResolvedClip)
    ensures
        c.source_path@ == source_path@,
        c.trim_start_ms == (if in_point_ms > 0 { Some(in_point_ms) } else { None::<i64> }),
        c.trim_end_ms == (if out_point_ms < duration_ms { Some(out_point_ms) } else { None::<i64> }),
{
    ResolvedClip {
        source_path,
        trim_start_ms: if in_point_ms > 0 { Some(in_point_ms) } else { None },
        trim_end_ms: if out_point_ms < duration_ms { Some(out_point_ms) } else { None },
    }
}

/// The largest of `position + duration` over the spans, or 0 with none.
pub open spec fn timeline_end_spec(spans: Seq<(i64, i64)>) -> int
    decreases spans.len(),
{
    if spans.len() == 0 {
        0
    } else {
        let rest = timeline_end_spec(spans.drop_last());
        let e = spans.last().0 + spans.last().1;
        if spans.len() == 1 || e > rest { e } else { rest }
    }
}

/// Where a timeline ends: the latest `position + duration` of its clips
/// (given as `(position_ms, duration_ms)`), or 0 when there are none.
pub fn timeline_total_duration(spans: &Vec<(i64, i64)>) -> (t: i64)
    requires
        forall|i: int| 0 <= i < spans@.len() ==> i64::MIN <= #[trigger] spans@[i].0 + spans@[i].1 <= i64::MAX,
    ensures
        t == timeline_end_spec(spans@),
        spans@.len() == 0 ==> t == 0,
        forall|i: int| 0 <= i < spans@.len() ==> #[trigger] spans@[i].0 + spans@[i].1 <= t,
        spans@.len() > 0 ==> exists|i: int| 0 <= i < spans@.len() && #[trigger] spans@[i].0 + spans@[i].1 == t,
{
    let mut best: i64 = 0;
    let mut i: usize = 0;
    while i < spans.len()
        invariant
            i <= spans@.len(),
            forall|j: int| 0 <= j < spans@.len() ==> i64::MIN <= #[trigger] spans@[j].0 + spans@[j].1 <= i64::MAX,
            best == timeline_end_spec(spans@.take(i as int)),
            forall|j: int| 0 <= j < i ==> #[trigger] spans@[j].0 + spans@[j].1 <= best,
            i > 0 ==> exists|j: int| 0 <= j < i && #[trigger] spans@[j].0 + spans@[j].1 == best,
        decreases spans@.len() - i,
    {
        let (p, d) = spans[i];
        let e = p + d;
        proof {
            assert(spans@.take(i + 1).drop_last() =~= spans@.take(i as int));
            assert(spans@.take(i + 1).last() == spans@[i as int]);
        }
        if i == 0 || e > best {
            best = e;
        }
        i = i + 1;
    }
    assert(spans@.take(spans@.len() as int) =~= spans@);
    best
}

/// A transition between two clips of a timeline.
#[derive(Debug, Clone)]
pub struct ResolvedTransition {
    pub transition_type: String,
    pub duration_ms: i64,
    pub position_ms: i64,
}

/// The transition of a timeline item; without a type of its own it dissolves.
pub fn resolve_transition(transition_type: Option<String>, duration_ms: i64, position_ms: i64) -> (t: ResolvedTransition)
    ensures
        t.transition_type@ == (match transition_type { Some(s) => s@, None => "dissolve"@ }),
        t.duration_ms == duration_ms,
        t.position_ms == position_ms,
{
    let tt = match transition_type {
        Some(s) => s,
        None => "dissolve".to_owned(),
    };
    ResolvedTransition { transition_type: tt, duration_ms, position_ms }
}

/// A text drawn over the video between two instants.
#[derive(Debug, Clone)]
pub struct ResolvedTextOverlay {
    pub text: String,
    pub fontfile: Option<String>,
    pub fontsize: u32,
    pub fontcolor: String,
    pub x: String,
    pub y: String,
    pub start_ms: i64,
    pub end_ms: i64,
}

/// An image laid over the video between two instants.
#[derive(Debug, Clone)]
pub struct ResolvedStickerOverlay {
    pub image_path: String,
    pub x: String,
    pub y: String,
    pub start_ms: i64,
    pub end_ms: i64,
}

/// How many of the first `k` bindings are of an included role with their
/// file present.
pub open spec fn mixed_count(settings: FinalExportSettings, bindings: Seq<ShotAudioRef>, k: nat) -> nat
    decreases k,
{
    if k == 0 {
        0
    } else {
        mixed_count(settings, bindings, (k - 1) as nat) + if settings.spec_includes(bindings[k - 1].role)
            && bindings[k - 1].file_present {
            1nat
        } else {
            0nat
        }
    }
}

/// A clip's placed audio is exactly its shot's bindings of an included role
/// whose file is present, each once, in binding order, each on this clip and
/// starting at the clip's offset plus its own: none is dropped, none is
/// made up, and there are as many as such bindings.
pub proof fn law_every_mixed_binding_placed(
    settings: FinalExportSettings,
    clip_offset: int,
    i: nat,
    bindings: Seq<ShotAudioRef>,
    k: nat,
)
    requires
        k <= bindings.len(),
        bindings.len() <= usize::MAX,
        i <= usize::MAX,
    ensures
        ({
            let r = placed_in_clip(settings, clip_offset, i, bindings, k);
            &&& r.len() == mixed_count(settings, bindings, k)
            &&& forall|m: int| 0 <= m < r.len() ==> {
                let e = #[trigger] r[m];
                let j = e.binding_index as int;
                &&& e.clip_index as int == i
                &&& 0 <= j < k
                &&& settings.spec_includes(bindings[j].role) && bindings[j].file_present
                &&& e.absolute_offset_ms == (clip_offset + bindings[j].offset_ms) as i64
            }
            &&& forall|j: int| 0 <= j < k && settings.spec_includes(#[trigger] bindings[j].role)
                && bindings[j].file_present ==> exists|m: int| 0 <= m < r.len() && r[m].binding_index as int == j
            &&& forall|m1: int, m2: int| 0 <= m1 < m2 < r.len() ==> #[trigger] r[m1].binding_index
                < #[trigger] r[m2].binding_index
        }),
    decreases k,
{
    if k > 0 {
        let j = (k - 1) as nat;
        law_every_mixed_binding_placed(settings, clip_offset, i, bindings, j);
        let prev = placed_in_clip(settings, clip_offset, i, bindings, j);
        let r = placed_in_clip(settings, clip_offset, i, bindings, k);
        let b = bindings[j as int];
        if settings.spec_includes(b.role) && b.file_present {
            let e = PlacedAudio {
                clip_index: i as usize,
                binding_index: j as usize,
                absolute_offset_ms: (clip_offset + b.offset_ms) as i64,
            };
            assert(r == prev.push(e));
            assert forall|m: int| 0 <= m < r.len() implies {
                let e = #[trigger] r[m];
                let jj = e.binding_index as int;
                &&& e.clip_index as int == i
                &&& 0 <= jj < k
                &&& settings.spec_includes(bindings[jj].role) && bindings[jj].file_present
                &&& e.absolute_offset_ms == (clip_offset + bindings[jj].offset_ms) as i64
            } by {
                if m < prev.len() {
                    assert(r[m] == prev[m]);
                }
            }
            assert forall|jj: int| 0 <= jj < k && settings.spec_includes(#[trigger] bindings[jj].role)
                && bindings[jj].file_present implies exists|m: int| 0 <= m < r.len() && r[m].binding_index as int == jj by {
                if jj < j {
                    let m = choose|m: int| 0 <= m < prev.len() && prev[m].binding_index as int == jj;
                    assert(r[m] == prev[m]);
                } else {
                    assert(r[prev.len() as int].binding_index as int == jj);
                }
            }
            assert forall|m1: int, m2: int| 0 <= m1 < m2 < r.len() implies #[trigger] r[m1].binding_index
                < #[trigger] r[m2].binding_index by {
                assert(r[m1] == prev[m1]);
                if m2 < prev.len() {
                    assert(r[m2] == prev[m2]);
                } else {
                    assert(prev[m1].binding_index < j);
                }
            }
        } else {
            assert(r =~= prev);
            assert forall|jj: int| 0 <= jj < k && settings.spec_includes(#[trigger] bindings[jj].role)
                && bindings[jj].file_present implies exists|m: int| 0 <= m < r.len() && r[m].binding_index as int == jj by {
                let m = choose|m: int| 0 <= m < prev.len() && prev[m].binding_index as int == jj;
                assert(r[m] == prev[m]);
            }
        }
    }
}

/// Whether binding `j` of clip `i` is mixed in.
pub open spec fn mixes(settings: FinalExportSettings, shots: Seq<Option<Seq<ShotAudioRef>>>, i: int, j: int) -> bool {
    shots[i] matches Some(bs) && 0 <= j < bs.len() && settings.spec_includes(bs[j].role) && bs[j].file_present
}

/// Across the first `n` clips, the placed audio holds every mixed binding
/// of every clip's shot, at the clip's offset plus the binding's own, and
/// nothing else; clips come in order.
pub proof fn law_placed_audio_covers_clips(
    settings: FinalExportSettings,
    offsets: Seq<i64>,
    shots: Seq<Option<Seq<ShotAudioRef>>>,
    n: nat,
)
    requires
        n <= shots.len(),
        n <= offsets.len(),
        n <= usize::MAX,
        forall|i: int| 0 <= i < n && #[trigger] shots[i] is Some ==> shots[i]->0.len() <= usize::MAX,
    ensures
        ({
            let r = placed_audio(settings, offsets, shots, n);
            &&& forall|m: int| 0 <= m < r.len() ==> {
                let e = #[trigger] r[m];
                let i = e.clip_index as int;
                let j = e.binding_index as int;
                &&& 0 <= i < n
                &&& mixes(settings, shots, i, j)
                &&& e.absolute_offset_ms == (offsets[i] + shots[i]->0[j].offset_ms) as i64
            }
            &&& forall|i: int, j: int| 0 <= i < n && #[trigger] mixes(settings, shots, i, j) ==> exists|m: int|
                0 <= m < r.len() && r[m].clip_index as int == i && r[m].binding_index as int == j
            &&& forall|m1: int, m2: int| 0 <= m1 < m2 < r.len() ==> #[trigger] r[m1].clip_index
                <= #[trigger] r[m2].clip_index
        }),
    decreases n,
{
    if n > 0 {
        let i = (n - 1) as nat;
        law_placed_audio_covers_clips(settings, offsets, shots, i);
        let prev = placed_audio(settings, offsets, shots, i);
        let r = placed_audio(settings, offsets, shots, n);
        match shots[i as int] {
            None => {
                assert(r =~= prev);
                assert forall|a: int, j: int| 0 <= a < n && #[trigger] mixes(settings, shots, a, j) implies exists|m: int|
                    0 <= m < r.len() && r[m].clip_index as int == a && r[m].binding_index as int == j by {
                    assert(a < i);
                }
            },
            Some(bs) => {
                let c = placed_in_clip(settings, offsets[i as int] as int, i, bs, bs.len());
                law_every_mixed_binding_placed(settings, offsets[i as int] as int, i, bs, bs.len());
                assert(r =~= prev + c);
                assert forall|m: int| 0 <= m < r.len() implies {
                    let e = #[trigger] r[m];
                    let a = e.clip_index as int;
                    let j = e.binding_index as int;
                    &&& 0 <= a < n
                    &&& mixes(settings, shots, a, j)
                    &&& e.absolute_offset_ms == (offsets[a] + shots[a]->0[j].offset_ms) as i64
                } by {
                    if m < prev.len() {
                        assert(r[m] == prev[m]);
                    } else {
                        assert(r[m] == c[m - prev.len()]);
                    }
                }
                assert forall|a: int, j: int| 0 <= a < n && #[trigger] mixes(settings, shots, a, j) implies exists|m: int|
                    0 <= m < r.len() && r[m].clip_index as int == a && r[m].binding_index as int == j by {
                    if a < i {
                        let m = choose|m: int|
                            0 <= m < prev.len() && prev[m].clip_index as int == a && prev[m].binding_index as int == j;
                        assert(r[m] == prev[m]);
                    } else {
                        assert(settings.spec_includes(bs[j].role));
                        let m = choose|m: int| 0 <= m < c.len() && c[m].binding_index as int == j;
                        assert(r[prev.len() + m] == c[m]);
                    }
                }
                assert forall|m1: int, m2: int| 0 <= m1 < m2 < r.len() implies #[trigger] r[m1].clip_index
                    <= #[trigger] r[m2].clip_index by {
                    if m2 < prev.len() {
                        assert(r[m1] == prev[m1]);
                        assert(r[m2] == prev[m2]);
                    } else if m1 < prev.len() {
                        assert(r[m1] == prev[m1]);
                        assert(r[m2] == c[m2 - prev.len()]);
                    } else {
                        assert(r[m1] == c[m1 - prev.len()]);
                        assert(r[m2] == c[m2 - prev.len()]);
                    }
                }
            },
        }
    }
}

} // verus!
