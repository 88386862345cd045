//! Ken Burns (slow zoom and pan) presets and the `zoompan` expressions that
//! animate them. Zoom factors and centre positions are fixed-point numbers
//! in millionths: `1_150_000` is a zoom of 1.15, `500_000` the middle.

use vstd::prelude::*;

use crate::error::CoreError;
use crate::text::{
    nat_digits, padded_digits, pop_trailing, push_char, push_str, push_u64, str_eq,
    trim_end_char,
};

verus! {

/// How the animation progresses over the frames.
#[derive(Clone, Copy, Debug, PartialEq, Eq)]
pub enum Easing {
    Linear,
    EaseIn,
}

#[derive(Debug, Clone)]
pub struct KenBurnsPreset {
    pub id: String,
    pub label: String,
    pub description: String,
    pub start_zoom: i64,
    pub end_zoom: i64,
    pub start_x: i64,
    pub end_x: i64,
    pub start_y: i64,
    pub end_y: i64,
    pub easing: Easing,
}

/// The expressions that drive FFmpeg's `zoompan` filter.
#[derive(Debug, Clone)]
pub struct KenBurnsParams {
    pub zoom_expr: String,
    pub x_expr: String,
    pub y_expr: String,
}

/// A preset's id, then start/end zoom, x and y, then its easing.
pub type PresetModel = (Seq<char>, int, int, int, int, int, int, Easing);

pub open spec fn preset_model(p: KenBurnsPreset) -> PresetModel {
    (p.id@, p.start_zoom as int, p.end_zoom as int, p.start_x as int, p.end_x as int,
        p.start_y as int, p.end_y as int, p.easing)
}

/// The eight presets, in order.
pub open spec fn preset_table() -> Seq<PresetModel> {
    seq![
        ("slow_zoom_in"@, 1_000_000, 1_150_000, 500_000, 500_000, 500_000, 500_000, Easing::Linear),
        ("slow_zoom_out"@, 1_150_000, 1_000_000, 500_000, 500_000, 500_000, 500_000, Easing::Linear),
        ("pan_left"@, 1_050_000, 1_050_000, 550_000, 450_000, 500_000, 500_000, Easing::Linear),
        ("pan_right"@, 1_050_000, 1_050_000, 450_000, 550_000, 500_000, 500_000, Easing::Linear),
        ("pan_up"@, 1_050_000, 1_050_000, 500_000, 500_000, 550_000, 450_000, Easing::Linear),
        ("pan_down"@, 1_050_000, 1_050_000, 500_000, 500_000, 450_000, 550_000, Easing::Linear),
        ("zoom_pan_right"@, 1_000_000, 1_150_000, 450_000, 550_000, 500_000, 500_000, Easing::Linear),
        ("dramatic_zoom"@, 1_000_000, 1_400_000, 500_000, 500_000, 500_000, 500_000, Easing::EaseIn),
    ]
}

fn preset(
    id: &str,
    label: &str,
    description: &str,
    zoom: (i64, i64),
    x: (i64, i64),
    y: (i64, i64),
    easing: Easing,
) -> (p: KenBurnsPreset)
    ensures
        preset_model(p) == (id@, zoom.0 as int, zoom.1 as int, x.0 as int, x.1 as int, y.0 as int, y.1 as int, easing),
{
    KenBurnsPreset {
        id: id.to_owned(),
        label: label.to_owned(),
        description: description.to_owned(),
        start_zoom: zoom.0,
        end_zoom: zoom.1,
        start_x: x.0,
        end_x: x.1,
        start_y: y.0,
        end_y: y.1,
        easing,
    }
}

/// All presets, in the order of `preset_table`.
pub fn list_presets() -> (r: Vec<KenBurnsPreset>)
    ensures
        r@.map_values(|p: KenBurnsPreset| preset_model(p)) == preset_table(),
{
    let mut r: Vec<KenBurnsPreset> = Vec::new();
    r.push(preset("slow_zoom_in", "Slow Zoom In", "缓慢推进", (1_000_000, 1_150_000), (500_000, 500_000), (500_000, 500_000), Easing::Linear));
    r.push(preset("slow_zoom_out", "Slow Zoom Out", "缓慢拉远", (1_150_000, 1_000_000), (500_000, 500_000), (500_000, 500_000), Easing::Linear));
    r.push(preset("pan_left", "Pan Left", "左移", (1_050_000, 1_050_000), (550_000, 450_000), (500_000, 500_000), Easing::Linear));
    r.push(preset("pan_right", "Pan Right", "右移", (1_050_000, 1_050_000), (450_000, 550_000), (500_000, 500_000), Easing::Linear));
    r.push(preset("pan_up", "Pan Up", "上移", (1_050_000, 1_050_000), (500_000, 500_000), (550_000, 450_000), Easing::Linear));
    r.push(preset("pan_down", "Pan Down", "下移", (1_050_000, 1_050_000), (500_000, 500_000), (450_000, 550_000), Easing::Linear));
    r.push(preset("zoom_pan_right", "Zoom + Pan Right", "推进+右移", (1_000_000, 1_150_000), (450_000, 550_000), (500_000, 500_000), Easing::Linear));
    r.push(preset("dramatic_zoom", "Dramatic Zoom", "戏剧推进", (1_000_000, 1_400_000), (500_000, 500_000), (500_000, 500_000), Easing::EaseIn));
    assert(r@.map_values(|p: KenBurnsPreset| preset_model(p)) =~= preset_table());
    r
}

/// The first preset of the table with the given id.
pub open spec fn find_preset(table: Seq<PresetModel>, id: Seq<char>) -> Option<int>
    decreases table.len(),
{
    if table.len() == 0 {
        None
    } else {
        match find_preset(table.drop_last(), id) {
            Some(i) => Some(i),
            None => if table.last().0 == id { Some(table.len() - 1) } else { None },
        }
    }
}

/// The preset with the given id, if there is one.
pub fn get_preset(id: &str) -> (r: Option<KenBurnsPreset>)
    ensures
        r matches Some(p) ==> (find_preset(preset_table(), id@) matches Some(i) && preset_model(p)
            == preset_table()[i]),
        r is None ==> find_preset(preset_table(), id@) is None,
{
    let mut all = list_presets();
    let ghost table = preset_table();
    let mut i: usize = 0;
    while i < all.len()
        invariant
            all@.map_values(|p: KenBurnsPreset| preset_model(p)) == table,
            table == preset_table(),
            i <= all@.len(),
            find_preset(table.take(i as int), id@) is None,
        decreases all@.len() - i,
    {
        assert(table.take(i + 1).drop_last() =~= table.take(i as int));
        assert(table[i as int] == preset_model(all@[i as int]));
        if str_eq(all[i].id.as_str(), id) {
            proof {
                assert(find_preset(table.take(i + 1), id@) == Some(i as int));
                lemma_find_prefix(table, id@, (i + 1) as nat);
            }
            let p = all.swap_remove(i);
            return Some(p);
        }
        i = i + 1;
    }
    assert(table.take(all@.len() as int) =~= table);
    None
}

proof fn lemma_find_prefix(table: Seq<PresetModel>, id: Seq<char>, k: nat)
    requires
        k <= table.len(),
        find_preset(table.take(k as int), id) is Some,
    ensures
        find_preset(table, id) == find_preset(table.take(k as int), id),
    decreases table.len(),
{
    if k < table.len() {
        assert(table.drop_last().take(k as int) =~= table.take(k as int));
        lemma_find_prefix(table.drop_last(), id, k);
    } else {
        assert(table.take(k as int) =~= table);
    }
}

/// `find_preset` gives the first row with the id, or `None` when no row has it.
proof fn lemma_find_preset_first(table: Seq<PresetModel>, id: Seq<char>)
    ensures
        match find_preset(table, id) {
            Some(i) => 0 <= i < table.len() && table[i].0 == id && forall|j: int|
                0 <= j < i ==> #[trigger] table[j].0 != id,
            None => forall|j: int| 0 <= j < table.len() ==> #[trigger] table[j].0 != id,
        },
    decreases table.len(),
{
    if table.len() > 0 {
        let front = table.drop_last();
        lemma_find_preset_first(front, id);
        assert forall|j: int| 0 <= j < front.len() implies #[trigger] table[j].0 == front[j].0 by {}
        match find_preset(front, id) {
            Some(i) => {
                assert forall|j: int| 0 <= j < i implies #[trigger] table[j].0 != id by {
                    assert(front[j].0 != id);
                }
            },
            None => {
                assert forall|j: int| 0 <= j < front.len() implies #[trigger] table[j].0 != id by {
                    assert(front[j].0 != id);
                }
            },
        }
    }
}

/// Every listed preset is found again by its own id: no two presets share an
/// id.
pub proof fn law_every_preset_found(i: int)
    requires
        0 <= i < preset_table().len(),
    ensures
        find_preset(preset_table(), preset_table()[i].0) == Some(i),
{
    reveal_strlit("slow_zoom_in");
    reveal_strlit("slow_zoom_out");
    reveal_strlit("pan_left");
    reveal_strlit("pan_right");
    reveal_strlit("pan_up");
    reveal_strlit("pan_down");
    reveal_strlit("zoom_pan_right");
    reveal_strlit("dramatic_zoom");
    let t = preset_table();
    assert("pan_left"@[4] != "pan_down"@[4]);
    assert("slow_zoom_out"@[0] != "dramatic_zoom"@[0]);
    assert forall|j: int, k: int| 0 <= j < k < t.len() implies #[trigger] t[j].0 != #[trigger] t[k].0 by {
        assert(t[0].0.len() == 12 && t[1].0.len() == 13 && t[2].0.len() == 8 && t[3].0.len() == 9
            && t[4].0.len() == 6 && t[5].0.len() == 8 && t[6].0.len() == 14 && t[7].0.len() == 13);
    }
    lemma_find_preset_first(t, t[i].0);
}

/// The six-decimal rendering of a millionths value with trailing zeros (and
/// then a trailing `.`) removed: `1_150_000` is `1.15`, `-100_000` is `-0.1`.
pub open spec fn micro_text(v: int) -> Seq<char> {
    let a: nat = if v < 0 { (-v) as nat } else { v as nat };
    let sign: Seq<char> = if v < 0 { seq!['-'] } else { seq![] };
    let frac: Seq<char> = if a % 1_000_000 == 0 {
        seq![]
    } else {
        seq!['.'] + trim_end_char(padded_digits(a % 1_000_000, 6), '0')
    };
    sign + nat_digits(a / 1_000_000) + frac
}

/// The largest magnitude of a millionths value `push_micro` renders.
pub const MAX_MICRO: i64 = 1_000_000_000_000_000;

fn push_micro(s: &mut String, v: i64)
    requires
        -MAX_MICRO <= v <= MAX_MICRO,
    ensures
        final(s)@ == old(s)@ + micro_text(v as int),
{
    let a: u64 = if v < 0 { (-v) as u64 } else { v as u64 };
    if v < 0 {
        push_char(s, '-');
    }
    push_u64(s, a / 1_000_000);
    let r = a % 1_000_000;
    if r != 0 {
        push_char(s, '.');
        let mut digits = String::new();
        crate::ffmpeg::commands::push_padded(&mut digits, r, 6);
        let mut cs = crate::text::chars_of(digits.as_str());
        pop_trailing(&mut cs, '0');
        let t = crate::text::string_from_chars(cs.as_slice());
        push_str(s, t.as_str());
    }
    proof {
        let sign: Seq<char> = if v < 0 { seq!['-'] } else { seq![] };
        let frac: Seq<char> = if r == 0 {
            seq![]
        } else {
            seq!['.'] + trim_end_char(padded_digits(r as nat, 6), '0')
        };
        assert(s@ =~= old(s)@ + (sign + nat_digits((a / 1_000_000) as nat) + frac));
    }
}

/// `start + delta * (frame / n)`, or its square with ease-in; the constant
/// when start and end agree.
pub open spec fn interp_text(start: int, end: int, n: nat, easing: Easing) -> Seq<char> {
    if start == end {
        micro_text(start)
    } else {
        micro_text(start) + seq!['+'] + micro_text(end - start) + match easing {
            Easing::EaseIn => "*pow(on/"@ + nat_digits(n) + ",2)"@,
            Easing::Linear => "*on/"@ + nat_digits(n),
        }
    }
}

/// The top-left coordinate that keeps the animated centre in view along a
/// dimension (`iw` or `ih`).
pub open spec fn pan_text(start: int, end: int, n: nat, easing: Easing, dim: Seq<char>) -> Seq<char> {
    let center = if start == end {
        micro_text(start) + seq!['*'] + dim
    } else {
        seq!['('] + interp_text(start, end, n, easing) + seq![')', '*'] + dim
    };
    center + seq!['-'] + dim + "/(2*zoom)"@
}

fn push_interp(s: &mut String, start: i64, end: i64, n: u32, easing: Easing)
    requires
        -MAX_MICRO / 2 <= start <= MAX_MICRO / 2,
        -MAX_MICRO / 2 <= end <= MAX_MICRO / 2,
    ensures
        final(s)@ == old(s)@ + interp_text(start as int, end as int, n as nat, easing),
{
    if start == end {
        push_micro(s, start);
        return;
    }
    push_micro(s, start);
    push_char(s, '+');
    push_micro(s, end - start);
    let ghost mid = s@;
    match easing {
        Easing::EaseIn => {
            push_str(s, "*pow(on/");
            push_u64(s, n as u64);
            push_str(s, ",2)");
        },
        Easing::Linear => {
            push_str(s, "*on/");
            push_u64(s, n as u64);
        },
    }
    assert(s@ =~= old(s)@ + interp_text(start as int, end as int, n as nat, easing));
}

fn pan_expr(start: i64, end: i64, n: u32, easing: Easing, dim: &str) -> (r: String)
    requires
        -MAX_MICRO / 2 <= start <= MAX_MICRO / 2,
        -MAX_MICRO / 2 <= end <= MAX_MICRO / 2,
    ensures
        r@ == pan_text(start as int, end as int, n as nat, easing, dim@),
{
    let mut s = String::new();
    if start == end {
        push_micro(&mut s, start);
        push_char(&mut s, '*');
        push_str(&mut s, dim);
    } else {
        push_char(&mut s, '(');
        push_interp(&mut s, start, end, n, easing);
        push_char(&mut s, ')');
        push_char(&mut s, '*');
        push_str(&mut s, dim);
    }
    push_char(&mut s, '-');
    push_str(&mut s, dim);
    push_str(&mut s, "/(2*zoom)");
    assert(s@ =~= pan_text(start as int, end as int, n as nat, easing, dim@));
    s
}

/// The frame divisor: one less than the frame count, but at least 1.
pub open spec fn frame_divisor(duration_frames: nat) -> nat {
    if duration_frames <= 1 { 1 } else { (duration_frames - 1) as nat }
}

/// The `zoompan` expressions of a preset model over `duration_frames`.
pub open spec fn zoompan_model(p: PresetModel, duration_frames: nat) -> (Seq<char>, Seq<char>, Seq<char>) {
    let n = frame_divisor(duration_frames);
    (
        interp_text(p.1, p.2, n, p.7),
        pan_text(p.3, p.4, n, p.7, "iw"@),
        pan_text(p.5, p.6, n, p.7, "ih"@),
    )
}

pub open spec fn unknown_preset_message(id: Seq<char>) -> Seq<char> {
    "unknown ken burns preset: "@ + id
}

/// The `zoompan` expressions of the preset `preset_id` over
/// `duration_frames` frames; an unknown id is a validation error.
pub fn preset_to_zoompan(preset_id: &str, duration_frames: u32) -> (r: Result<KenBurnsParams, CoreError>)
    ensures
        find_preset(preset_table(), preset_id@) is None <==> r is Err,
        r matches Err(e) ==> (e matches CoreError::Validation(m) && m@ == unknown_preset_message(preset_id@)),
        r matches Ok(kb) ==> (find_preset(preset_table(), preset_id@) matches Some(i) && (kb.zoom_expr@,
            kb.x_expr@, kb.y_expr@) == zoompan_model(preset_table()[i], duration_frames as nat)),
{
    let p = match get_preset(preset_id) {
        Some(p) => p,
        None => {
            let mut m = String::new();
            push_str(&mut m, "unknown ken burns preset: ");
            push_str(&mut m, preset_id);
            return Err(CoreError::Validation(m));
        },
    };
    proof {
        let i = find_preset(preset_table(), preset_id@)->0;
        lemma_find_in_range(preset_table(), preset_id@);
        lemma_table_bounded(i);
    }
    let n: u32 = if duration_frames <= 1 { 1 } else { duration_frames - 1 };
    let mut zoom_expr = String::new();
    push_interp(&mut zoom_expr, p.start_zoom, p.end_zoom, n, p.easing);
    let x_expr = pan_expr(p.start_x, p.end_x, n, p.easing, "iw");
    let y_expr = pan_expr(p.start_y, p.end_y, n, p.easing, "ih");
    Ok(KenBurnsParams { zoom_expr, x_expr, y_expr })
}

proof fn lemma_find_in_range(table: Seq<PresetModel>, id: Seq<char>)
    ensures
        find_preset(table, id) matches Some(i) ==> 0 <= i < table.len(),
    decreases table.len(),
{
    if table.len() > 0 {
        lemma_find_in_range(table.drop_last(), id);
    }
}

proof fn lemma_table_bounded(i: int)
    requires
        0 <= i < preset_table().len(),
    ensures
        ({
            let p = preset_table()[i];
            &&& 0 <= p.1 <= 2_000_000
            &&& 0 <= p.2 <= 2_000_000
            &&& 0 <= p.3 <= 2_000_000
            &&& 0 <= p.4 <= 2_000_000
            &&& 0 <= p.5 <= 2_000_000
            &&& 0 <= p.6 <= 2_000_000
        }),
{
}

/// The zoom of a preset moves from its start to its end zoom along the
/// preset's own easing: `start+delta*on/n` for a linear preset,
/// `start+delta*pow(on/n,2)` for an ease-in one (with `n` one less than the
/// frame count, at least 1), and the constant zoom when the two agree.
pub proof fn law_zoom_follows_preset_easing(p: PresetModel, duration_frames: nat)
    ensures
        ({
            let n = if duration_frames <= 1 { 1nat } else { (duration_frames - 1) as nat };
            let zoom = zoompan_model(p, duration_frames).0;
            let head = micro_text(p.1) + seq!['+'] + micro_text(p.2 - p.1);
            &&& p.1 == p.2 ==> zoom == micro_text(p.1)
            &&& p.1 != p.2 && p.7 == Easing::Linear ==> zoom == head + "*on/"@ + nat_digits(n)
            &&& p.1 != p.2 && p.7 == Easing::EaseIn ==> zoom == head + "*pow(on/"@ + nat_digits(n) + ",2)"@
        }),
{
}

/// The text of a coordinate along `dim` moving from `start` to `end` with
/// the given easing over `n` steps, centred for the zoom.
pub open spec fn expected_pan(start: int, end: int, n: nat, easing: Easing, dim: Seq<char>) -> Seq<char> {
    let centre = if start == end {
        micro_text(start)
    } else {
        seq!['('] + micro_text(start) + seq!['+'] + micro_text(end - start) + match easing {
            Easing::Linear => "*on/"@ + nat_digits(n),
            Easing::EaseIn => "*pow(on/"@ + nat_digits(n) + ",2)"@,
        } + seq![')']
    };
    centre + seq!['*'] + dim + seq!['-'] + dim + "/(2*zoom)"@
}

/// The pan expressions of a preset follow its own easing too: each
/// coordinate interpolates from its start to its end like the zoom (linear
/// or squared), times the input width or height, less half the zoomed
/// frame; a fixed coordinate keeps its centre in place.
pub proof fn law_pan_follows_preset_easing(p: PresetModel, duration_frames: nat)
    ensures
        ({
            let n = if duration_frames <= 1 { 1nat } else { (duration_frames - 1) as nat };
            let (_, x, y) = zoompan_model(p, duration_frames);
            &&& x == expected_pan(p.3, p.4, n, p.7, "iw"@)
            &&& y == expected_pan(p.5, p.6, n, p.7, "ih"@)
        }),
{
    let n = frame_divisor(duration_frames);
    assert(pan_text(p.3, p.4, n, p.7, "iw"@) =~= expected_pan(p.3, p.4, n, p.7, "iw"@));
    assert(pan_text(p.5, p.6, n, p.7, "ih"@) =~= expected_pan(p.5, p.6, n, p.7, "ih"@));
}

/// Every listed preset except the last eases linearly, and the last
/// (`dramatic_zoom`) eases in: the listed easings reach the zoom text
/// through `law_zoom_follows_preset_easing`.
pub proof fn law_preset_easings()
    ensures
        forall|i: int| 0 <= i < 7 ==> #[trigger] preset_table()[i].7 == Easing::Linear,
        preset_table()[7].7 == Easing::EaseIn,
        preset_table().len() == 8,
{
}

} // verus!
