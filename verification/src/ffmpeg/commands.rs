//! The pure parts of the trim / split / concat / thumbnail commands: time
//! stamps, parameter checks and the split plan. Running FFmpeg and looking
//! at files is the application's part.

use vstd::prelude::*;

use crate::error::{fails_validation, is_validation, validation, CoreError};
use crate::text::{
    i64_to_string, int_digits, nat_digits, padded_digits, push_char, push_str, push_u64,
};

verus! {

/// How a cut is produced: stream copy, or re-encoding.
#[derive(Clone, Copy, Debug, PartialEq, Eq)]
pub enum TrimMode {
    Copy,
    Reencode,
}

/// `HH:MM:SS.mmm` for a millisecond count; negative counts are clamped to 0
/// and the hour field grows past two digits when needed.
pub open spec fn ffmpeg_time(ms: int) -> Seq<char> {
    let m: nat = if ms < 0 { 0 } else { ms as nat };
    let total_secs = m / 1000;
    padded_digits(total_secs / 3600, 2) + seq![':'] + padded_digits((total_secs % 3600) / 60, 2)
        + seq![':'] + padded_digits(total_secs % 60, 2) + seq!['.'] + padded_digits(m % 1000, 3)
}

/// Appends `n` left-padded with zeros to `width` digits.
pub fn push_padded(s: &mut String, n: u64, width: u64)
    ensures
        final(s)@ == old(s)@ + padded_digits(n as nat, width as nat),
{
    let d = crate::text::u64_to_string(n);
    let len = d.as_str().unicode_len() as u64;
    let ghost start = s@;
    let mut k = len;
    while k < width
        invariant
            len <= k,
            k == len || k <= width,
            len == nat_digits(n as nat).len(),
            s@ == start + Seq::new((k - len) as nat, |i: int| '0'),
        decreases width - k,
    {
        push_char(s, '0');
        assert(s@ =~= start + Seq::new((k + 1 - len) as nat, |i: int| '0'));
        k = k + 1;
    }
    push_str(s, d.as_str());
    proof {
        let dg = nat_digits(n as nat);
        if dg.len() >= width {
            assert(k == len);
            assert(s@ =~= start + dg);
        } else {
            assert(k == width);
            assert(s@ =~= start + (Seq::new((width - dg.len()) as nat, |i: int| '0') + dg));
        }
    }
}

/// `HH:MM:SS.mmm` for `ms` (see `ffmpeg_time`).
pub fn ms_to_ffmpeg_time(ms: i64) -> (s: String)
    ensures
        s@ == ffmpeg_time(ms as int),
{
    let m: u64 = if ms < 0 { 0 } else { ms as u64 };
    let total_secs = m / 1000;
    let millis = m % 1000;
    let hours = total_secs / 3600;
    let minutes = (total_secs % 3600) / 60;
    let seconds = total_secs % 60;
    let mut s = String::new();
    push_padded(&mut s, hours, 2);
    push_char(&mut s, ':');
    push_padded(&mut s, minutes, 2);
    push_char(&mut s, ':');
    push_padded(&mut s, seconds, 2);
    push_char(&mut s, '.');
    push_padded(&mut s, millis, 3);
    assert(s@ =~= ffmpeg_time(ms as int));
    s
}

/// The checks `trim` makes before it looks at any file: the start is not
/// negative and the end lies after it.
pub fn check_trim_range(start_ms: i64, end_ms: i64) -> (r: Result<(), CoreError>)
    ensures
        start_ms < 0 ==> is_validation(r, "start_ms must be >= 0"@),
        start_ms >= 0 && end_ms <= start_ms ==> is_validation(r, "end_ms must be > start_ms"@),
        r is Ok <==> (start_ms >= 0 && end_ms > start_ms),
{
    if start_ms < 0 {
        return Err(validation("start_ms must be >= 0"));
    }
    if end_ms <= start_ms {
        return Err(validation("end_ms must be > start_ms"));
    }
    Ok(())
}

pub open spec fn trim_end_message(end_ms: int, duration_ms: int) -> Seq<char> {
    "end_ms ("@ + int_digits(end_ms) + ") exceeds video duration ("@ + int_digits(duration_ms) + seq![')']
}

/// The check `trim` makes once the source's duration is known.
pub fn check_trim_end(end_ms: i64, duration_ms: i64) -> (r: Result<(), CoreError>)
    ensures
        r is Ok <==> end_ms <= duration_ms,
        end_ms > duration_ms ==> is_validation(r, trim_end_message(end_ms as int, duration_ms as int)),
{
    if end_ms > duration_ms {
        let mut m = String::new();
        push_str(&mut m, "end_ms (");
        push_str(&mut m, i64_to_string(end_ms).as_str());
        push_str(&mut m, ") exceeds video duration (");
        push_str(&mut m, i64_to_string(duration_ms).as_str());
        push_char(&mut m, ')');
        assert(m@ =~= trim_end_message(end_ms as int, duration_ms as int));
        return Err(CoreError::Validation(m));
    }
    Ok(())
}

pub open spec fn strictly_increasing(p: Seq<i64>) -> bool {
    forall|i: int| 0 < i < p.len() ==> #[trigger] p[i - 1] < p[i]
}

/// The checks `split` makes before it looks at any file.
pub fn check_split_points(points: &[i64]) -> (r: Result<(), CoreError>)
    ensures
        points@.len() == 0 ==> is_validation(r, "split_points_ms must not be empty"@),
        points@.len() > 0 && !strictly_increasing(points@) ==> is_validation(
            r,
            "split_points_ms must be strictly increasing"@,
        ),
        r is Ok <==> (points@.len() > 0 && strictly_increasing(points@)),
{
    if points.len() == 0 {
        return Err(validation("split_points_ms must not be empty"));
    }
    let mut i: usize = 1;
    while i < points.len()
        invariant
            1 <= i <= points@.len(),
            forall|k: int| 0 < k < i ==> #[trigger] points@[k - 1] < points@[k],
        decreases points@.len() - i,
    {
        if points[i] <= points[i - 1] {
            assert(!(points@[i - 1] < points@[i as int]));
            return Err(validation("split_points_ms must be strictly increasing"));
        }
        i = i + 1;
    }
    Ok(())
}

pub open spec fn split_range_message(point: int, duration_ms: int) -> Seq<char> {
    "split point "@ + int_digits(point) + "ms is out of range (0, "@ + int_digits(duration_ms) + seq![')']
}

/// Whether every split point lies strictly inside `(0, duration_ms)`.
pub open spec fn points_in_range(points: Seq<i64>, duration_ms: int) -> bool {
    forall|i: int| 0 <= i < points.len() ==> 0 < #[trigger] points[i] && points[i] < duration_ms
}

/// The check `split` makes once the source's duration is known: the first
/// point outside `(0, duration_ms)` is reported.
pub fn check_split_range(points: &[i64], duration_ms: i64) -> (r: Result<(), CoreError>)
    ensures
        r is Ok <==> points_in_range(points@, duration_ms as int),
        r is Err ==> exists|i: int|
            0 <= i < points@.len() && !(0 < points@[i] && points@[i] < duration_ms) && (forall|j: int|
                0 <= j < i ==> 0 < #[trigger] points@[j] && points@[j] < duration_ms) && is_validation(
                r,
                split_range_message(points@[i] as int, duration_ms as int),
            ),
{
    let mut i: usize = 0;
    while i < points.len()
        invariant
            i <= points@.len(),
            forall|j: int| 0 <= j < i ==> 0 < #[trigger] points@[j] && points@[j] < duration_ms,
        decreases points@.len() - i,
    {
        let p = points[i];
        if p <= 0 || p >= duration_ms {
            let mut m = String::new();
            push_str(&mut m, "split point ");
            push_str(&mut m, i64_to_string(p).as_str());
            push_str(&mut m, "ms is out of range (0, ");
            push_str(&mut m, i64_to_string(duration_ms).as_str());
            push_char(&mut m, ')');
            assert(m@ =~= split_range_message(p as int, duration_ms as int));
            let r = Err(CoreError::Validation(m));
            assert(is_validation(r, split_range_message(points@[i as int] as int, duration_ms as int)));
            return r;
        }
        i = i + 1;
    }
    Ok(())
}

/// The cut points of a split: 0, the split points, then the duration.
pub open spec fn split_boundaries(points: Seq<i64>, duration_ms: i64) -> Seq<i64> {
    seq![0i64] + points + seq![duration_ms]
}

/// The `(start, end)` of each part a split produces, in order.
pub fn split_segments(points: &[i64], duration_ms: i64) -> (r: Vec<(i64, i64)>)
    requires
        points@.len() + 2 <= usize::MAX,
    ensures
        r@.len() == points@.len() + 1,
        forall|i: int| 0 <= i < r@.len() ==> #[trigger] r@[i] == (
            split_boundaries(points@, duration_ms)[i],
            split_boundaries(points@, duration_ms)[i + 1],
        ),
{
    let mut b: Vec<i64> = Vec::new();
    b.push(0);
    let mut k: usize = 0;
    while k < points.len()
        invariant
            k <= points@.len(),
            b@ == seq![0i64] + points@.take(k as int),
        decreases points@.len() - k,
    {
        b.push(points[k]);
        assert(b@ =~= seq![0i64] + points@.take(k + 1));
        k = k + 1;
    }
    b.push(duration_ms);
    assert(b@ =~= split_boundaries(points@, duration_ms));
    let mut r: Vec<(i64, i64)> = Vec::new();
    let mut i: usize = 0;
    while i < b.len() - 1
        invariant
            b@ == split_boundaries(points@, duration_ms),
            b@.len() == points@.len() + 2,
            i <= points@.len() + 1,
            r@.len() == i,
            forall|j: int| 0 <= j < i ==> #[trigger] r@[j] == (b@[j], b@[j + 1]),
        decreases b@.len() - i,
    {
        r.push((b[i], b[i + 1]));
        i = i + 1;
    }
    r
}

pub open spec fn split_part_name_spec(stem: Seq<char>, index: nat, ext: Seq<char>) -> Seq<char> {
    stem + "_part"@ + nat_digits(index + 1) + seq!['.'] + ext
}

/// The file name of part `index` (counted from 0) of a split:
/// `{stem}_part{index + 1}.{ext}`.
pub fn split_part_name(stem: &str, index: usize, ext: &str) -> (s: String)
    requires
        index < u64::MAX,
    ensures
        s@ == split_part_name_spec(stem@, index as nat, ext@),
{
    let mut s = String::new();
    push_str(&mut s, stem);
    push_str(&mut s, "_part");
    push_u64(&mut s, index as u64 + 1);
    push_char(&mut s, '.');
    push_str(&mut s, ext);
    assert(s@ =~= split_part_name_spec(stem@, index as nat, ext@));
    s
}

/// One part of a split: the span it covers and the file it is written to.
#[derive(Debug, Clone)]
pub struct SplitPart {
    pub start_ms: i64,
    pub end_ms: i64,
    pub file_name: String,
}

/// The parts a split of a `duration_ms` long video named `{stem}.{ext}` at
/// `split_points_ms` produces, after the checks `split` makes on the points:
/// they must be given, strictly increasing and inside `(0, duration_ms)`.
/// The parts tile `[0, duration_ms]` in order, each of positive length.
pub fn split_video(split_points_ms: &[i64], duration_ms: i64, stem: &str, ext: &str) -> (r: Result<Vec<SplitPart>, CoreError>)
    requires
        split_points_ms@.len() + 2 <= usize::MAX,
    ensures
        r is Ok <==> (split_points_ms@.len() > 0 && strictly_increasing(split_points_ms@)
            && points_in_range(split_points_ms@, duration_ms as int)),
        split_points_ms@.len() == 0 ==> fails_validation(r, "split_points_ms must not be empty"@),
        split_points_ms@.len() > 0 && !strictly_increasing(split_points_ms@) ==> fails_validation(
            r,
            "split_points_ms must be strictly increasing"@,
        ),
        split_points_ms@.len() > 0 && strictly_increasing(split_points_ms@) && !points_in_range(split_points_ms@, duration_ms as int)
            ==> exists|i: int|
                0 <= i < split_points_ms@.len() && !(0 < split_points_ms@[i] && split_points_ms@[i] < duration_ms)
                && (forall|j: int| 0 <= j < i ==> 0 < #[trigger] split_points_ms@[j] && split_points_ms@[j] < duration_ms)
                && fails_validation(r, split_range_message(split_points_ms@[i] as int, duration_ms as int)),
        r matches Ok(parts) ==> {
            &&& parts@.len() == split_points_ms@.len() + 1
            &&& forall|i: int| 0 <= i < parts@.len() ==> {
                &&& #[trigger] parts@[i].start_ms == split_boundaries(split_points_ms@, duration_ms)[i]
                &&& parts@[i].end_ms == split_boundaries(split_points_ms@, duration_ms)[i + 1]
                &&& parts@[i].file_name@ == split_part_name_spec(stem@, i as nat, ext@)
                &&& parts@[i].start_ms < parts@[i].end_ms
            }
            &&& parts@[0].start_ms == 0
            &&& parts@[parts@.len() - 1].end_ms == duration_ms
            &&& forall|i: int| 0 <= i < parts@.len() - 1 ==> #[trigger] parts@[i].end_ms == parts@[i + 1].start_ms
        },
{
    let c = check_split_points(split_points_ms);
    if let Err(e) = c {
        return Err(e);
    }
    let c2 = check_split_range(split_points_ms, duration_ms);
    if let Err(e) = c2 {
        return Err(e);
    }
    let segs = split_segments(split_points_ms, duration_ms);
    let ghost b = split_boundaries(split_points_ms@, duration_ms);
    proof {
        assert forall|i: int| 0 <= i < b.len() - 1 implies #[trigger] b[i] < b[i + 1] by {
            if i == 0 {
                assert(b[1] == split_points_ms@[0]);
            } else if i == b.len() - 2 {
                assert(b[i] == split_points_ms@[i - 1]);
            } else {
                assert(b[i] == split_points_ms@[i - 1]);
                assert(b[i + 1] == split_points_ms@[i]);
            }
        }
    }
    let mut parts: Vec<SplitPart> = Vec::new();
    let mut i: usize = 0;
    while i < segs.len()
        invariant
            segs@.len() == split_points_ms@.len() + 1,
            split_points_ms@.len() + 2 <= usize::MAX,
            b == split_boundaries(split_points_ms@, duration_ms),
            forall|j: int| 0 <= j < segs@.len() ==> #[trigger] segs@[j] == (b[j], b[j + 1]),
            forall|j: int| 0 <= j < b.len() - 1 ==> #[trigger] b[j] < b[j + 1],
            i <= segs@.len(),
            parts@.len() == i,
            forall|j: int| 0 <= j < i ==> {
                &&& #[trigger] parts@[j].start_ms == b[j]
                &&& parts@[j].end_ms == b[j + 1]
                &&& parts@[j].file_name@ == split_part_name_spec(stem@, j as nat, ext@)
            },
        decreases segs@.len() - i,
    {
        let (s, e) = segs[i];
        let name = split_part_name(stem, i, ext);
        parts.push(SplitPart { start_ms: s, end_ms: e, file_name: name });
        i = i + 1;
    }
    proof {
        assert forall|j: int| 0 <= j < parts@.len() implies parts@[j].start_ms < parts@[j].end_ms by {
            assert(b[j] < b[j + 1]);
        }
        assert forall|j: int| 0 <= j < parts@.len() - 1 implies #[trigger] parts@[j].end_ms == parts@[j + 1].start_ms by {
            assert(parts@[j + 1].start_ms == b[j + 1]);
        }
    }
    Ok(parts)
}

/// The check `concat` makes on its input count.
pub fn check_concat_inputs(n_inputs: usize) -> (r: Result<(), CoreError>)
    ensures
        r is Ok <==> n_inputs >= 2,
        n_inputs < 2 ==> is_validation(r, "concat requires at least 2 input files"@),
{
    if n_inputs < 2 {
        return Err(validation("concat requires at least 2 input files"));
    }
    Ok(())
}

/// What `concat` compares of each input: its frame size, its frame rate (as
/// displayed with two decimals, and whether it is within 0.01 of the first
/// input's), its video codec and whether it has audio.
#[derive(Debug, Clone)]
pub struct StreamFormat {
    pub width: u32,
    pub height: u32,
    pub fps_label: String,
    pub fps_matches_first: bool,
    pub video_codec: String,
    pub has_audio: bool,
}

/// The first mismatch of input `i` (counted from 0) against the first
/// input, in the order resolution, frame rate, codec, audio.
pub open spec fn format_problem(first: StreamFormat, f: StreamFormat, i: int) -> Option<Seq<char>> {
    let n = nat_digits((i + 1) as nat);
    if f.width != first.width || f.height != first.height {
        Some("cannot concat: input #"@ + n + " has resolution "@ + nat_digits(f.width as nat) + seq!['x']
            + nat_digits(f.height as nat) + ", but input #1 has "@ + nat_digits(first.width as nat) + seq!['x']
            + nat_digits(first.height as nat) + ". All inputs must have the same resolution."@)
    } else if !f.fps_matches_first {
        Some("cannot concat: input #"@ + n + " has fps "@ + f.fps_label@ + ", but input #1 has "@
            + first.fps_label@ + ". All inputs must have the same frame rate."@)
    } else if f.video_codec@ != first.video_codec@ {
        Some("cannot concat: input #"@ + n + " uses codec '"@ + f.video_codec@ + "', but input #1 uses '"@
            + first.video_codec@ + "'. All inputs must use the same video codec."@)
    } else if f.has_audio != first.has_audio {
        Some("cannot concat: input #"@ + n + seq![' '] + (if f.has_audio { "has"@ } else { "lacks"@ })
            + " audio but input #1 "@ + (if first.has_audio { "has"@ } else { "lacks"@ })
            + ". All inputs must either have audio or not."@)
    } else {
        None
    }
}

fn push_format_problem(m: &mut String, first: &StreamFormat, f: &StreamFormat, i: usize) -> (found: bool)
    requires
        i < u64::MAX,
    ensures
        found == format_problem(*first, *f, i as int) is Some,
        found ==> final(m)@ == old(m)@ + format_problem(*first, *f, i as int)->0,
        !found ==> final(m)@ == old(m)@,
{
    let ghost start = m@;
    if f.width != first.width || f.height != first.height {
        push_str(m, "cannot concat: input #");
        push_u64(m, i as u64 + 1);
        push_str(m, " has resolution ");
        push_u64(m, f.width as u64);
        push_char(m, 'x');
        push_u64(m, f.height as u64);
        push_str(m, ", but input #1 has ");
        push_u64(m, first.width as u64);
        push_char(m, 'x');
        push_u64(m, first.height as u64);
        push_str(m, ". All inputs must have the same resolution.");
        assert(m@ =~= start + format_problem(*first, *f, i as int)->0);
        return true;
    }
    if !f.fps_matches_first {
        push_str(m, "cannot concat: input #");
        push_u64(m, i as u64 + 1);
        push_str(m, " has fps ");
        push_str(m, f.fps_label.as_str());
        push_str(m, ", but input #1 has ");
        push_str(m, first.fps_label.as_str());
        push_str(m, ". All inputs must have the same frame rate.");
        assert(m@ =~= start + format_problem(*first, *f, i as int)->0);
        return true;
    }
    if !crate::text::str_eq(f.video_codec.as_str(), first.video_codec.as_str()) {
        push_str(m, "cannot concat: input #");
        push_u64(m, i as u64 + 1);
        push_str(m, " uses codec '");
        push_str(m, f.video_codec.as_str());
        push_str(m, "', but input #1 uses '");
        push_str(m, first.video_codec.as_str());
        push_str(m, "'. All inputs must use the same video codec.");
        assert(m@ =~= start + format_problem(*first, *f, i as int)->0);
        return true;
    }
    if f.has_audio != first.has_audio {
        push_str(m, "cannot concat: input #");
        push_u64(m, i as u64 + 1);
        push_char(m, ' ');
        push_str(m, if f.has_audio { "has" } else { "lacks" });
        push_str(m, " audio but input #1 ");
        push_str(m, if first.has_audio { "has" } else { "lacks" });
        push_str(m, ". All inputs must either have audio or not.");
        assert(m@ =~= start + format_problem(*first, *f, i as int)->0);
        return true;
    }
    false
}

/// The compatibility check `concat` makes on the probed inputs: every input
/// after the first must match it; the first mismatch is reported.
pub fn check_concat_compatibility(formats: &Vec<StreamFormat>) -> (r: Result<(), CoreError>)
    requires
        formats@.len() > 0,
    ensures
        r is Ok <==> forall|i: int| 1 <= i < formats@.len() ==> #[trigger] format_problem(formats@[0], formats@[i], i) is None,
        r is Err ==> exists|i: int|
            1 <= i < formats@.len() && (forall|j: int| 1 <= j < i ==> #[trigger] format_problem(formats@[0], formats@[j], j) is None)
                && fails_validation(r, format_problem(formats@[0], formats@[i], i)->0),
{
    let mut i: usize = 1;
    while i < formats.len()
        invariant
            1 <= i <= formats@.len(),
            forall|j: int| 1 <= j < i ==> #[trigger] format_problem(formats@[0], formats@[j], j) is None,
        decreases formats@.len() - i,
    {
        let mut m = String::new();
        if push_format_problem(&mut m, &formats[0], &formats[i], i) {
            assert(m@ =~= format_problem(formats@[0], formats@[i as int], i as int)->0);
            return Err(CoreError::Validation(m));
        }
        i = i + 1;
    }
    Ok(())
}

/// The check `extract_thumbnail` makes on its time stamp.
pub fn check_thumbnail_timestamp(timestamp_ms: i64) -> (r: Result<(), CoreError>)
    ensures
        r is Ok <==> timestamp_ms >= 0,
        timestamp_ms < 0 ==> is_validation(r, "timestamp_ms must be >= 0"@),
{
    if timestamp_ms < 0 {
        return Err(validation("timestamp_ms must be >= 0"));
    }
    Ok(())
}

} // verus!
