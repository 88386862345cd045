//! The pure parts of thumbnail-strip and waveform extraction: the parameter
//! checks, which files of an output directory are strip frames, and the
//! result records.

use vstd::prelude::*;

use crate::error::{is_validation, validation, CoreError};
use crate::text::ascii_lower;

verus! {

/// The frames of a thumbnail strip, one every `interval_ms`.
#[derive(Debug, Clone)]
pub struct ThumbnailStripResult {
    pub thumbnails: Vec<String>,
    pub interval_ms: i64,
    pub count: u32,
}

/// The rendered waveform image of an audio track.
#[derive(Debug, Clone)]
pub struct WaveformResult {
    pub path: String,
    pub width: u32,
    pub height: u32,
}

/// The checks a thumbnail strip makes on its parameters before it looks at
/// any file.
pub fn check_strip_params(interval_ms: i64, thumb_width: u32) -> (r: Result<(), CoreError>)
    ensures
        r is Ok <==> interval_ms > 0 && thumb_width > 0,
        interval_ms <= 0 ==> is_validation(r, "interval_ms must be > 0"@),
        interval_ms > 0 && thumb_width == 0 ==> is_validation(r, "thumb_width must be > 0"@),
{
    if interval_ms <= 0 {
        return Err(validation("interval_ms must be > 0"));
    }
    if thumb_width == 0 {
        return Err(validation("thumb_width must be > 0"));
    }
    Ok(())
}

/// The checks a waveform makes on its parameters before it looks at any file.
pub fn check_waveform_params(height: u32, px_per_sec: u32) -> (r: Result<(), CoreError>)
    ensures
        r is Ok <==> height > 0 && px_per_sec > 0,
        height == 0 ==> is_validation(r, "height must be > 0"@),
        height > 0 && px_per_sec == 0 ==> is_validation(r, "px_per_sec must be > 0"@),
{
    if height == 0 {
        return Err(validation("height must be > 0"));
    }
    if px_per_sec == 0 {
        return Err(validation("px_per_sec must be > 0"));
    }
    Ok(())
}

/// The index of the last `.` in `name`, if any.
pub open spec fn last_dot(name: Seq<char>) -> Option<int>
    decreases name.len(),
{
    if name.len() == 0 {
        None
    } else if name.last() == '.' {
        Some(name.len() - 1)
    } else {
        last_dot(name.drop_last())
    }
}

/// The extension of a file name as `Path::extension` reads it: the text
/// after the last `.`, unless there is no dot or nothing precedes it.
pub open spec fn file_extension(name: Seq<char>) -> Option<Seq<char>> {
    match last_dot(name) {
        Some(d) => if d == 0 { None } else { Some(name.subrange(d + 1, name.len() as int)) },
        None => None,
    }
}

/// Whether a file name has the extension `jpg`, in any letter case.
pub open spec fn is_jpg_name(name: Seq<char>) -> bool {
    match file_extension(name) {
        Some(e) => e.len() == 3 && ascii_lower(e[0]) == 'j' && ascii_lower(e[1]) == 'p' && ascii_lower(e[2]) == 'g',
        None => false,
    }
}

proof fn lemma_last_dot_bounds(name: Seq<char>)
    ensures
        last_dot(name) matches Some(d) ==> 0 <= d < name.len() && name[d] == '.'
            && forall|k: int| d < k < name.len() ==> name[k] != '.',
        last_dot(name) is None ==> forall|k: int| 0 <= k < name.len() ==> name[k] != '.',
    decreases name.len(),
{
    if name.len() > 0 && name.last() != '.' {
        let p = name.drop_last();
        lemma_last_dot_bounds(p);
        assert forall|k: int| 0 <= k < p.len() implies p[k] == name[k] by {}
    }
}

fn lower_ascii_char(c: char) -> (r: char)
    ensures
        r == ascii_lower(c),
{
    let u = c as u32;
    if 65 <= u && u <= 90 { ((u + 32) as u8) as char } else { c }
}

/// Whether the file `name` is a frame of a thumbnail strip (a `.jpg`, in any
/// letter case).
pub fn is_jpg_file_name(name: &str) -> (b: bool)
    ensures
        b == is_jpg_name(name@),
{
    let cs = crate::text::chars_of(name);
    let n = cs.len();
    let mut i: usize = n;
    while i > 0 && cs[i - 1] != '.'
        invariant
            i <= n,
            n == cs@.len(),
            cs@ == name@,
            forall|k: int| i <= k < n ==> cs@[k] != '.',
        decreases i,
    {
        i = i - 1;
    }
    proof {
        lemma_last_dot_bounds(name@);
    }
    if i == 0 {
        assert(last_dot(name@) is None || last_dot(name@) == Some(0int)) by {
            if let Some(d) = last_dot(name@) {
                if d > 0 {
                    assert(cs@[d] == '.');
                }
            }
        }
        return false;
    }
    let dot = i - 1;
    assert(last_dot(name@) == Some(dot as int)) by {
        if let Some(d) = last_dot(name@) {
            if d < dot {
                assert(name@[dot as int] == '.');
            } else if d > dot {
                assert(cs@[d] != '.');
            }
        } else {
            assert(name@[dot as int] == '.');
        }
    }
    if dot == 0 {
        return false;
    }
    if n - i != 3 {
        return false;
    }
    let a = lower_ascii_char(cs[i]);
    let b = lower_ascii_char(cs[i + 1]);
    let c = lower_ascii_char(cs[i + 2]);
    a == 'j' && b == 'p' && c == 'g'
}

/// The strip frames among `paths` (each given with its file name), in the
/// order given.
pub open spec fn jpg_paths(entries: Seq<(Seq<char>, Seq<char>)>) -> Seq<Seq<char>>
    decreases entries.len(),
{
    if entries.len() == 0 {
        seq![]
    } else {
        let rest = jpg_paths(entries.drop_last());
        if is_jpg_name(entries.last().1) { rest.push(entries.last().0) } else { rest }
    }
}

/// The strip result for the frames found in an output directory: the paths
/// of those whose file name is a `.jpg`, their count, and the interval.
/// `entries` pairs each path with its file name, in the order to keep.
pub fn strip_result(entries: &Vec<(String, String)>, interval_ms: i64) -> (r: ThumbnailStripResult)
    requires
        entries@.len() <= u32::MAX,
    ensures
        r.thumbnails@.map_values(|s: String| s@) == jpg_paths(entries@.map_values(|e: (String, String)| (e.0@, e.1@))),
        r.count as int == r.thumbnails@.len(),
        r.interval_ms == interval_ms,
{
    let ghost ev = entries@.map_values(|e: (String, String)| (e.0@, e.1@));
    let mut out: Vec<String> = Vec::new();
    let mut i: usize = 0;
    while i < entries.len()
        invariant
            i <= entries@.len(),
            entries@.len() <= u32::MAX,
            ev == entries@.map_values(|e: (String, String)| (e.0@, e.1@)),
            out@.len() <= i,
            out@.map_values(|s: String| s@) == jpg_paths(ev.take(i as int)),
        decreases entries@.len() - i,
    {
        proof {
            assert(ev.take(i + 1).drop_last() =~= ev.take(i as int));
            assert(ev.take(i + 1).last() == ev[i as int]);
        }
        if is_jpg_file_name(entries[i].1.as_str()) {
            out.push(entries[i].0.clone());
            assert(out@.map_values(|s: String| s@) =~= jpg_paths(ev.take(i as int)).push(ev[i as int].0));
        }
        i = i + 1;
    }
    assert(ev.take(entries@.len() as int) =~= ev);
    let count = out.len() as u32;
    ThumbnailStripResult { thumbnails: out, interval_ms, count }
}

} // verus!
