//! How the clips of a rendered timeline are joined: all at once by one
//! concatenation when the timeline has no transitions, otherwise pairwise,
//! each clip cross-fading into the next where a transition sits at the
//! boundary between them and concatenated to it where none does.

use vstd::prelude::*;

use crate::error::{fails_validation, validation, CoreError};
use crate::export::ResolvedTransition;
use crate::text::{nat_digits, push_str, push_u64};

verus! {

/// How clip `i + 1` is attached to what clips `0..=i` became.
#[derive(Debug, Clone, Copy, PartialEq, Eq)]
pub enum ClipJoin {
    /// Cross-fade with the given transition of the timeline, starting
    /// `offset_ms` into the joined video.
    Crossfade { transition: usize, offset_ms: i128 },
    /// Plain concatenation.
    Concat,
}

/// The shape of the join of all clips.
#[derive(Debug, Clone, PartialEq, Eq)]
pub enum JoinPlan {
    /// One clip and no transitions: its stream is the video.
    Single,
    /// No transitions: all clips concatenated in one step.
    ConcatAll,
    /// One join per clip after the first, in order.
    Pairwise(Vec<ClipJoin>),
}

/// A transition belongs to a boundary when it lies within a tenth of a second
/// of it.
pub open spec fn near_boundary(position_ms: int, boundary_ms: int) -> bool {
    -100 < position_ms - boundary_ms < 100
}

/// The first transition near the boundary.
pub open spec fn first_near(transitions: Seq<ResolvedTransition>, boundary_ms: int) -> Option<int>
    decreases transitions.len(),
{
    if transitions.len() == 0 {
        None
    } else {
        match first_near(transitions.drop_last(), boundary_ms) {
            Some(j) => Some(j),
            None => if near_boundary(transitions.last().position_ms as int, boundary_ms) {
                Some(transitions.len() - 1)
            } else {
                None
            },
        }
    }
}

/// The joins of clips `1..=k` and the length of the video they make: each
/// boundary lies where the joined video so far ends, and a cross-fade
/// overlaps the two clips by the transition's duration.
pub open spec fn joins_upto(durations: Seq<i64>, transitions: Seq<ResolvedTransition>, k: nat) -> (Seq<ClipJoin>, int)
    decreases k,
{
    if k == 0 {
        (seq![], 0)
    } else {
        let (joins, length) = joins_upto(durations, transitions, (k - 1) as nat);
        let boundary = length + durations[k - 1];
        match first_near(transitions, boundary) {
            Some(j) => {
                let offset = boundary - transitions[j].duration_ms;
                (joins.push(ClipJoin::Crossfade { transition: j as usize, offset_ms: offset as i128 }), offset)
            },
            None => (joins.push(ClipJoin::Concat), boundary),
        }
    }
}

/// The joins of all clips after the first.
pub open spec fn pairwise_joins(durations: Seq<i64>, transitions: Seq<ResolvedTransition>) -> Seq<ClipJoin> {
    if durations.len() == 0 {
        seq![]
    } else {
        joins_upto(durations, transitions, (durations.len() - 1) as nat).0
    }
}

/// After `k` joins there is one join per clip after the first, and the joined
/// length lies within `k * 2^64` of 0.
proof fn lemma_length_bound(durations: Seq<i64>, transitions: Seq<ResolvedTransition>, k: nat)
    ensures
        -(k * 0x1_0000_0000_0000_0000) <= joins_upto(durations, transitions, k).1 <= k * 0x1_0000_0000_0000_0000,
        joins_upto(durations, transitions, k).0.len() == k,
    decreases k,
{
    if k > 0 {
        lemma_length_bound(durations, transitions, (k - 1) as nat);
        let boundary = joins_upto(durations, transitions, (k - 1) as nat).1 + durations[k - 1];
        lemma_first_near(transitions, boundary);
    }
}

/// `first_near` gives the first transition near the boundary, or `None` when
/// none is.
proof fn lemma_first_near(transitions: Seq<ResolvedTransition>, boundary_ms: int)
    ensures
        match first_near(transitions, boundary_ms) {
            Some(j) => 0 <= j < transitions.len() && near_boundary(transitions[j].position_ms as int, boundary_ms)
                && forall|i: int| 0 <= i < j ==> !near_boundary(#[trigger] transitions[i].position_ms as int, boundary_ms),
            None => forall|i: int| 0 <= i < transitions.len() ==> !near_boundary(#[trigger] transitions[i].position_ms as int, boundary_ms),
        },
    decreases transitions.len(),
{
    if transitions.len() > 0 {
        let front = transitions.drop_last();
        lemma_first_near(front, boundary_ms);
        assert forall|i: int| 0 <= i < front.len() implies #[trigger] transitions[i] == front[i] by {}
    }
}

/// How far from 0 a boundary can lie for its distance to any `i64` position
/// to fit in an `i128`.
const BOUNDARY_LIMIT: i128 = 0x7fff_ffff_ffff_ffff_7fff_ffff_ffff_ffff;

/// The first transition near `boundary_ms`.
fn find_near(transitions: &Vec<ResolvedTransition>, boundary_ms: i128) -> (r: Option<usize>)
    requires
        -BOUNDARY_LIMIT <= boundary_ms <= BOUNDARY_LIMIT,
    ensures
        match first_near(transitions@, boundary_ms as int) {
            Some(j) => 0 <= j < transitions@.len() && r == Some(j as usize),
            None => r is None,
        },
{
    proof { lemma_first_near(transitions@, boundary_ms as int); }
    let mut j: usize = 0;
    while j < transitions.len()
        invariant
            j <= transitions@.len(),
            forall|i: int| 0 <= i < j ==> !near_boundary(#[trigger] transitions@[i].position_ms as int, boundary_ms as int),
            match first_near(transitions@, boundary_ms as int) {
                Some(f) => 0 <= f < transitions@.len() && near_boundary(transitions@[f].position_ms as int, boundary_ms as int)
                    && forall|i: int| 0 <= i < f ==> !near_boundary(#[trigger] transitions@[i].position_ms as int, boundary_ms as int),
                None => forall|i: int| 0 <= i < transitions@.len() ==> !near_boundary(#[trigger] transitions@[i].position_ms as int, boundary_ms as int),
            },
            -BOUNDARY_LIMIT <= boundary_ms <= BOUNDARY_LIMIT,
        decreases transitions@.len() - j,
    {
        let diff: i128 = transitions[j].position_ms as i128 - boundary_ms;
        if -100 < diff && diff < 100 {
            return Some(j);
        }
        j = j + 1;
    }
    None
}

/// How the clips of the given durations are joined, given the timeline's
/// transitions (see `joins_upto`).
pub fn plan_joins(durations_ms: &Vec<i64>, transitions: &Vec<ResolvedTransition>) -> (r: JoinPlan)
    requires
        durations_ms@.len() < 0x8000_0000_0000_0000,
    ensures
        transitions@.len() == 0 && durations_ms@.len() == 1 ==> r == JoinPlan::Single,
        transitions@.len() == 0 && durations_ms@.len() != 1 ==> r == JoinPlan::ConcatAll,
        transitions@.len() > 0 ==> (r matches JoinPlan::Pairwise(joins) && joins@ == pairwise_joins(
            durations_ms@,
            transitions@,
        )),
        transitions@.len() > 0 && durations_ms@.len() > 0 ==> (r matches JoinPlan::Pairwise(joins)
            && joins@.len() == durations_ms@.len() - 1),
{
    if transitions.len() == 0 {
        if durations_ms.len() == 1 {
            return JoinPlan::Single;
        }
        return JoinPlan::ConcatAll;
    }
    let mut joins: Vec<ClipJoin> = Vec::new();
    if durations_ms.len() == 0 {
        return JoinPlan::Pairwise(joins);
    }
    let mut length: i128 = 0;
    let mut k: usize = 0;
    while k < durations_ms.len() - 1
        invariant
            k < durations_ms@.len(),
            durations_ms@.len() < 0x8000_0000_0000_0000,
            joins@ == joins_upto(durations_ms@, transitions@, k as nat).0,
            length == joins_upto(durations_ms@, transitions@, k as nat).1,
        decreases durations_ms@.len() - k,
    {
        proof {
            lemma_length_bound(durations_ms@, transitions@, k as nat);
            lemma_length_bound(durations_ms@, transitions@, (k + 1) as nat);
        }
        let boundary: i128 = length + durations_ms[k] as i128;
        let found = find_near(transitions, boundary);
        assert(transitions@.len() == transitions.len());
        match found {
            Some(j) => {
                let offset: i128 = boundary - transitions[j].duration_ms as i128;
                joins.push(ClipJoin::Crossfade { transition: j, offset_ms: offset });
                length = offset;
            },
            None => {
                joins.push(ClipJoin::Concat);
                length = boundary;
            },
        }
        k = k + 1;
    }
    proof { lemma_length_bound(durations_ms@, transitions@, k as nat); }
    JoinPlan::Pairwise(joins)
}

/// A render needs at least one clip.
pub fn check_render_clips(clip_count: usize) -> (r: Result<(), CoreError>)
    ensures
        clip_count > 0 <==> r is Ok,
        clip_count == 0 ==> fails_validation(r, "no clips in timeline"@),
{
    if clip_count == 0 {
        return Err(validation("no clips in timeline"));
    }
    Ok(())
}

/// A stream label: a prefix and a clip or overlay index.
pub open spec fn label_text(prefix: Seq<char>, i: nat) -> Seq<char> {
    prefix + nat_digits(i)
}

/// The label `{prefix}{i}`: `xf{i}` for a cross-fade into clip `i`, `cat{i}`
/// for a concatenation, `txt{i}` and `stk{i}` for the `i`-th text and
/// sticker overlays, `stk_in{i}` for a sticker's input.
pub fn stream_label(prefix: &str, i: usize) -> (r: String)
    ensures
        r@ == label_text(prefix@, i as nat),
{
    let mut r = String::new();
    push_str(&mut r, prefix);
    push_u64(&mut r, i as u64);
    r
}

/// The labels clip `i` of a render passes through: `n{i}` once normalised,
/// then `kb{i}` after a Ken Burns move, then `ce{i}` after a colour effect;
/// the last one is the clip's stream.
pub open spec fn clip_stage_labels_spec(i: nat, ken_burns: bool, color: bool) -> Seq<Seq<char>> {
    seq![label_text("n"@, i)] + (if ken_burns { seq![label_text("kb"@, i)] } else { seq![] }) + (if color {
        seq![label_text("ce"@, i)]
    } else {
        seq![]
    })
}

/// The stream labels of clip `i` (see `clip_stage_labels_spec`).
pub fn clip_stage_labels(i: usize, ken_burns: bool, color: bool) -> (r: Vec<String>)
    ensures
        r.deep_view() == clip_stage_labels_spec(i as nat, ken_burns, color),
{
    let mut r: Vec<String> = Vec::new();
    r.push(stream_label("n", i));
    if ken_burns {
        r.push(stream_label("kb", i));
    }
    if color {
        r.push(stream_label("ce", i));
    }
    assert(r.deep_view() =~= clip_stage_labels_spec(i as nat, ken_burns, color));
    r
}

} // verus!
