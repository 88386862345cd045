//! Reading FFmpeg's `time=` progress field out of its stderr lines.

use vstd::prelude::*;

use crate::ffmpeg::commands::ffmpeg_time;
use crate::text::{
    chars_of, find, find_exec, first_word, first_word_exec, is_digit, is_ws, padded_digits, parse_i64,
    parse_i64_exec, slice_chars, split_exec, split_on, trim_start, until_ws,
};

verus! {

/// The fraction of a second after `.` as milliseconds: two digits are
/// hundredths, three are milliseconds, one is tenths, more are cut to three;
/// anything that does not parse counts as 0.
pub open spec fn fraction_millis(f: Seq<char>) -> int {
    if f.len() == 2 {
        match parse_i64(f) { Some(v) => v * 10, None => 0 }
    } else if f.len() == 3 {
        match parse_i64(f) { Some(v) => v, None => 0 }
    } else if f.len() == 1 {
        match parse_i64(f) { Some(v) => v * 100, None => 0 }
    } else if f.len() > 3 {
        match parse_i64(f.take(3)) { Some(v) => v, None => 0 }
    } else {
        0
    }
}

/// The hours, minutes, seconds and milliseconds of the `time=HH:MM:SS.ff`
/// field of a progress line, when the line has one that parses.
pub open spec fn time_fields(line: Seq<char>) -> Option<(int, int, int, int)> {
    match find(line, seq!['t', 'i', 'm', 'e', '=']) {
        None => None,
        Some(i) => match first_word(line.skip(i + 5)) {
            None => None,
            Some(w) => {
                let parts = split_on(w, ':');
                if parts.len() != 3 {
                    None
                } else {
                    let sec_parts = split_on(parts[2], '.');
                    match (parse_i64(parts[0]), parse_i64(parts[1]), parse_i64(sec_parts[0])) {
                        (Some(h), Some(m), Some(s)) => Some(
                            (h, m, s, if sec_parts.len() > 1 { fraction_millis(sec_parts[1]) } else { 0 }),
                        ),
                        _ => None,
                    }
                }
            },
        },
    }
}

pub open spec fn in_i64(x: int) -> bool {
    i64::MIN <= x <= i64::MAX
}

/// Whether adding up the fields stays within `i64` at every step.
pub open spec fn time_fits(line: Seq<char>) -> bool {
    match time_fields(line) {
        Some((h, m, s, c)) => {
            &&& in_i64(h * 3_600_000)
            &&& in_i64(m * 60_000)
            &&& in_i64(h * 3_600_000 + m * 60_000)
            &&& in_i64(s * 1000)
            &&& in_i64(h * 3_600_000 + m * 60_000 + s * 1000)
            &&& in_i64(h * 3_600_000 + m * 60_000 + s * 1000 + c)
        },
        None => true,
    }
}

/// The time of a progress line in milliseconds.
pub open spec fn time_millis(line: Seq<char>) -> Option<int> {
    match time_fields(line) {
        Some((h, m, s, c)) => Some(h * 3_600_000 + m * 60_000 + s * 1000 + c),
        None => None,
    }
}

fn fraction_millis_exec(f: &[char]) -> (r: i64)
    ensures
        r == fraction_millis(f@),
{
    proof {
        if f@.len() <= 3 {
            lemma_small_parse(f@);
        } else {
            lemma_small_parse(f@.take(3));
        }
    }
    if f.len() == 2 {
        match parse_i64_exec(f) {
            Some(v) => v * 10,
            None => 0,
        }
    } else if f.len() == 3 {
        match parse_i64_exec(f) {
            Some(v) => v,
            None => 0,
        }
    } else if f.len() == 1 {
        match parse_i64_exec(f) {
            Some(v) => v * 100,
            None => 0,
        }
    } else if f.len() > 3 {
        let head = slice_chars(f, 0, 3);
        assert(head@ =~= f@.take(3));
        match parse_i64_exec(head.as_slice()) {
            Some(v) => v,
            None => 0,
        }
    } else {
        0
    }
}

proof fn lemma_small_parse(f: Seq<char>)
    requires
        f.len() <= 3,
    ensures
        parse_i64(f) matches Some(v) ==> -999 <= v <= 999,
{
    if let Some(v) = parse_i64(f) {
        let signed = f.len() > 0 && (f[0] == '+' || f[0] == '-');
        let body = if signed { f.drop_first() } else { f };
        crate::text::lemma_digits_value_bound(body);
        assert(crate::text::pow10(0) == 1);
        assert(crate::text::pow10(1) == 10);
        assert(crate::text::pow10(2) == 100);
        assert(crate::text::pow10(3) == 1000);
        assert(crate::text::pow10(body.len()) <= 1000);
    }
}

/// The four fields of the `time=` field of a progress line (see
/// `time_fields`).
fn time_fields_exec(line: &str) -> (r: Option<(i64, i64, i64, i64)>)
    ensures
        match time_fields(line@) {
            Some((h, m, sec, c)) => r matches Some(t) && t.0 == h && t.1 == m && t.2 == sec && t.3 == c,
            None => r is None,
        },
{
    let cs = chars_of(line);
    let pat = ['t', 'i', 'm', 'e', '='];
    assert(pat@ =~= seq!['t', 'i', 'm', 'e', '=']);
    let i = match find_exec(cs.as_slice(), &pat) {
        Some(i) => i,
        None => return None,
    };
    let n = cs.len();
    assert(pat@.len() == 5);
    assert(i + 5 <= n);
    let after = slice_chars(cs.as_slice(), i + 5, n);
    assert(after@ =~= line@.skip(i + 5));
    let w = match first_word_exec(after.as_slice()) {
        Some(w) => w,
        None => return None,
    };
    let parts = split_exec(w.as_slice(), ':');
    if parts.len() != 3 {
        return None;
    }
    let hours = match parse_i64_exec(parts[0].as_slice()) {
        Some(v) => v,
        None => return None,
    };
    let minutes = match parse_i64_exec(parts[1].as_slice()) {
        Some(v) => v,
        None => return None,
    };
    let sec_parts = split_exec(parts[2].as_slice(), '.');
    proof {
        crate::text::lemma_split_nonempty(parts[2]@, '.');
    }
    let seconds = match parse_i64_exec(sec_parts[0].as_slice()) {
        Some(v) => v,
        None => return None,
    };
    let millis: i64 = if sec_parts.len() > 1 {
        proof {
            let f = sec_parts[1]@;
            if f.len() <= 3 {
                lemma_small_parse(f);
            } else {
                lemma_small_parse(f.take(3));
            }
        }
        fraction_millis_exec(sec_parts[1].as_slice())
    } else {
        0
    };
    Some((hours, minutes, seconds, millis))
}

/// Reads the `time=` field of an FFmpeg progress line.
pub fn parse_time_field(line: &str) -> (r: Option<i64>)
    requires
        time_fits(line@),
    ensures
        r matches Some(v) ==> time_millis(line@) == Some(v as int),
        r is None ==> time_millis(line@) is None,
{
    match time_fields_exec(line) {
        Some((hours, minutes, seconds, millis)) => Some(hours * 3_600_000 + minutes * 60_000 + seconds * 1000 + millis),
        None => None,
    }
}

/// Whether the time of a progress line can be added up in an `i64` (see
/// `time_fits`); lines without a time field pass.
pub fn time_field_fits(line: &str) -> (b: bool)
    ensures
        b == time_fits(line@),
{
    match time_fields_exec(line) {
        Some((h, m, sec, c)) => {
            let lo: i128 = i64::MIN as i128;
            let hi: i128 = i64::MAX as i128;
            let a: i128 = (h as i128) * 3_600_000;
            let b: i128 = (m as i128) * 60_000;
            let d: i128 = (sec as i128) * 1000;
            let ab = a + b;
            let abd = ab + d;
            let all = abd + (c as i128);
            lo <= a && a <= hi && lo <= b && b <= hi && lo <= ab && ab <= hi && lo <= d && d <= hi
                && lo <= abd && abd <= hi && lo <= all && all <= hi
        },
        None => true,
    }
}

/// Turns FFmpeg progress lines into elapsed milliseconds; the total duration
/// is what the application divides by for a percentage.
pub struct FfmpegProgressParser {
    total_duration_ms: i64,
}

impl FfmpegProgressParser {
    pub fn new(total_duration_ms: i64) -> (p: FfmpegProgressParser)
        ensures
            p.total() == total_duration_ms,
    {
        FfmpegProgressParser { total_duration_ms }
    }

    pub closed spec fn total(&self) -> i64 {
        self.total_duration_ms
    }

    pub fn total_duration_ms(&self) -> (t: i64)
        ensures
            t == self.total(),
    {
        self.total_duration_ms
    }

    /// The elapsed time a line reports, when it has a `time=` field.
    pub fn current_time_ms(&self, line: &str) -> (r: Option<i64>)
        requires
            time_fits(line@),
        ensures
            r matches Some(v) ==> time_millis(line@) == Some(v as int),
            r is None ==> time_millis(line@) is None,
    {
        parse_time_field(line)
    }
}

/// The characters of a rendered time stamp: digits, `:` and `.`.
spec fn time_char(c: char) -> bool {
    is_digit(c) || c == ':' || c == '.'
}

/// The pieces of a rendered time stamp.
spec fn stamp(a: Seq<char>, b: Seq<char>, sec: Seq<char>, f: Seq<char>) -> Seq<char> {
    a + seq![':'] + b + seq![':'] + sec + seq!['.'] + f
}

spec fn all_digit(s: Seq<char>) -> bool {
    forall|k: int| 0 <= k < s.len() ==> is_digit(#[trigger] s[k])
}

/// A stamp of digit runs is a single word.
proof fn lemma_stamp_word(a: Seq<char>, b: Seq<char>, sec: Seq<char>, f: Seq<char>)
    requires
        all_digit(a),
        all_digit(b),
        all_digit(sec),
        all_digit(f),
        a.len() > 0,
    ensures
        first_word(stamp(a, b, sec, f)) == Some(stamp(a, b, sec, f)),
{
    let w = stamp(a, b, sec, f);
    assert forall|k: int| 0 <= k < w.len() implies time_char(#[trigger] w[k]) by {
        let la = a.len() as int;
        let lb = b.len() as int;
        let ls = sec.len() as int;
        if k < la {
            assert(w[k] == a[k]);
        } else if k == la {
            assert(w[k] == ':');
        } else if k < la + 1 + lb {
            assert(w[k] == b[k - la - 1]);
        } else if k == la + 1 + lb {
            assert(w[k] == ':');
        } else if k < la + 2 + lb + ls {
            assert(w[k] == sec[k - la - 2 - lb]);
        } else if k == la + 2 + lb + ls {
            assert(w[k] == '.');
        } else {
            assert(w[k] == f[k - la - 3 - lb - ls]);
        }
    }
    assert forall|k: int| 0 <= k < w.len() implies !is_ws(#[trigger] w[k]) by {
        assert(time_char(w[k]));
    }
    crate::text::lemma_until_ws_plain(w);
    assert(w[0] == a[0]);
    assert(trim_start(w) == w);
}

/// A stamp of digit runs splits into hours, minutes, and seconds, and its
/// seconds into whole seconds and the fraction.
proof fn lemma_stamp_split(a: Seq<char>, b: Seq<char>, sec: Seq<char>, f: Seq<char>)
    requires
        all_digit(a),
        all_digit(b),
        all_digit(sec),
        all_digit(f),
    ensures
        split_on(stamp(a, b, sec, f), ':') == seq![a, b, sec + seq!['.'] + f],
        split_on(sec + seq!['.'] + f, '.') == seq![sec, f],
{
    let c = sec + seq!['.'] + f;
    assert forall|k: int| 0 <= k < a.len() implies #[trigger] a[k] != ':' by { assert(is_digit(a[k])); }
    assert forall|k: int| 0 <= k < b.len() implies #[trigger] b[k] != ':' by { assert(is_digit(b[k])); }
    assert forall|k: int| 0 <= k < sec.len() implies #[trigger] sec[k] != '.' by { assert(is_digit(sec[k])); }
    assert forall|k: int| 0 <= k < f.len() implies #[trigger] f[k] != '.' by { assert(is_digit(f[k])); }
    assert forall|k: int| 0 <= k < c.len() implies #[trigger] c[k] != ':' by {
        if k < sec.len() {
            assert(c[k] == sec[k]);
            assert(is_digit(sec[k]));
        } else if k == sec.len() {
            assert(c[k] == '.');
        } else {
            assert(c[k] == f[k - sec.len() - 1]);
            assert(is_digit(f[k - sec.len() - 1]));
        }
    }
    crate::text::lemma_split_plain(a, ':');
    crate::text::lemma_split_plain(b, ':');
    crate::text::lemma_split_plain(c, ':');
    crate::text::lemma_split_concat(b, c, ':');
    crate::text::lemma_split_concat(a, b + seq![':'] + c, ':');
    assert(stamp(a, b, sec, f) =~= a + seq![':'] + (b + seq![':'] + c));
    assert(split_on(stamp(a, b, sec, f), ':') =~= seq![a, b, c]);
    crate::text::lemma_split_plain(sec, '.');
    crate::text::lemma_split_plain(f, '.');
    crate::text::lemma_split_concat(sec, f, '.');
    assert(split_on(c, '.') =~= seq![sec, f]);
}

/// Hours, minutes, seconds and milliseconds taken out of `m` add back up.
proof fn lemma_time_arith(m: nat)
    ensures
        (m / 1000) / 3600 * 3_600_000 + ((m / 1000) % 3600) / 60 * 60_000 + (m / 1000) % 60 * 1000 + m % 1000 == m,
{
    let total: nat = m / 1000;
    let h: nat = total / 3600;
    let mi: nat = (total % 3600) / 60;
    let se: nat = total % 60;
    let r: nat = m % 1000;
    assert(total * 1000 + r == m);
    assert(h * 3600 + total % 3600 == total);
    assert((total % 3600) % 60 == se) by {
        assert(total % 3600 == total - 3600 * h);
    }
    assert(mi * 60 + se == total % 3600);
    assert(h * 3_600_000 + mi * 60_000 + se * 1000 + r == m) by (nonlinear_arith)
        requires
            total * 1000 + r == m,
            h * 3600 + total % 3600 == total,
            mi * 60 + se == total % 3600,
    ;
}

/// What the cutting commands write as a time stamp, the progress reader
/// reads back: a `time=` field holding `ms_to_ffmpeg_time(ms)` parses to
/// `ms` milliseconds, without overflow, for every non-negative `ms`.
pub proof fn law_progress_reads_written_time(ms: int)
    requires
        0 <= ms <= i64::MAX,
    ensures
        time_fits(seq!['t', 'i', 'm', 'e', '='] + ffmpeg_time(ms)),
        time_millis(seq!['t', 'i', 'm', 'e', '='] + ffmpeg_time(ms)) == Some(ms),
{
    let pat = seq!['t', 'i', 'm', 'e', '='];
    let m: nat = ms as nat;
    let total: nat = m / 1000;
    let h: nat = total / 3600;
    let mi: nat = (total % 3600) / 60;
    let se: nat = total % 60;
    let r: nat = m % 1000;
    let a = padded_digits(h, 2);
    let b = padded_digits(mi, 2);
    let sec = padded_digits(se, 2);
    let f = padded_digits(r, 3);
    let w = ffmpeg_time(ms);
    let line = pat + w;
    assert(w == stamp(a, b, sec, f));

    crate::text::lemma_padded_parse(h, 2);
    crate::text::lemma_padded_parse(mi, 2);
    crate::text::lemma_padded_parse(se, 2);
    crate::text::lemma_padded_parse(r, 3);

    assert(line.subrange(0, 5) =~= pat);
    assert(crate::text::occurs_at(line, pat, 0));
    assert(find(line, pat) == Some(0int));
    assert(line.skip(5) =~= w);

    lemma_stamp_word(a, b, sec, f);
    lemma_stamp_split(a, b, sec, f);
    crate::text::lemma_nat_digits_len3(r);
    assert(f.len() == 3);
    assert(fraction_millis(f) == r);
    assert(time_fields(line) == Some((h as int, mi as int, se as int, r as int)));

    lemma_time_arith(m);
    assert(0 <= h * 3_600_000 <= m) by (nonlinear_arith)
        requires
            h * 3_600_000 + mi * 60_000 + se * 1000 + r == m,
            mi >= 0,
            se >= 0,
            r >= 0,
            h >= 0,
    ;
}

} // verus!
