//! The on-disk directory name a new project gets from its display name.

use vstd::prelude::*;

use crate::text::{
    byte_len, chars_of, is_char_boundary, is_control, is_whitespace, is_ws, lemma_byte_len_split, lemma_byte_prefix,
    prefix_char_count, prefix_chars, push_str, slice_chars, string_from_chars,
};

verus! {

/// Characters no file system segment may hold: path separators, the
/// Windows-reserved set, NUL, and control characters.
pub open spec fn is_forbidden(c: char) -> bool {
    c == '/' || c == '\\' || c == ':' || c == '*' || c == '?' || c == '"' || c == '<' || c == '>'
        || c == '|' || c == '\0' || is_control(c)
}

/// The left-to-right pass of the sanitiser: the characters written so far,
/// and whether the last thing written was a dash standing for whitespace.
pub open spec fn sanitize_pass(s: Seq<char>) -> (Seq<char>, bool)
    decreases s.len(),
{
    if s.len() == 0 {
        (seq![], false)
    } else {
        let prev = sanitize_pass(s.drop_last());
        let c = s.last();
        if is_ws(c) {
            if !prev.1 && prev.0.len() > 0 {
                (prev.0.push('-'), true)
            } else {
                prev
            }
        } else if is_forbidden(c) {
            prev
        } else {
            (prev.0.push(c), false)
        }
    }
}

pub open spec fn is_dot_dash(c: char) -> bool {
    c == '.' || c == '-'
}

pub open spec fn strip_start(s: Seq<char>) -> Seq<char>
    decreases s.len(),
{
    if s.len() > 0 && is_dot_dash(s[0]) { strip_start(s.drop_first()) } else { s }
}

pub open spec fn strip_end(s: Seq<char>) -> Seq<char>
    decreases s.len(),
{
    if s.len() > 0 && is_dot_dash(s.last()) { strip_end(s.drop_last()) } else { s }
}

/// A display name made safe as a directory segment: forbidden characters
/// dropped, whitespace runs collapsed into one `-`, leading and trailing
/// `.` and `-` removed.
pub open spec fn sanitized(name: Seq<char>) -> Seq<char> {
    strip_end(strip_start(sanitize_pass(name).0))
}

fn is_forbidden_exec(c: char) -> (b: bool)
    ensures
        b == is_forbidden(c),
{
    let u = c as u32;
    c == '/' || c == '\\' || c == ':' || c == '*' || c == '?' || c == '"' || c == '<' || c == '>'
        || c == '|' || c == '\0' || u <= 0x1F || (0x7F <= u && u <= 0x9F)
}

proof fn lemma_strip_start_skip(s: Seq<char>, a: int)
    requires
        0 <= a <= s.len(),
        forall|k: int| 0 <= k < a ==> is_dot_dash(#[trigger] s[k]),
    ensures
        strip_start(s) == strip_start(s.skip(a)),
    decreases a,
{
    if a > 0 {
        assert(s.drop_first().skip(a - 1) =~= s.skip(a));
        assert(is_dot_dash(s[0]));
        lemma_strip_start_skip(s.drop_first(), a - 1);
    } else {
        assert(s.skip(0) =~= s);
    }
}

proof fn lemma_strip_end_take(s: Seq<char>, b: int)
    requires
        0 <= b <= s.len(),
        forall|k: int| b <= k < s.len() ==> is_dot_dash(#[trigger] s[k]),
    ensures
        strip_end(s) == strip_end(s.take(b)),
    decreases s.len() - b,
{
    if b < s.len() {
        assert(s.drop_last().take(b) =~= s.take(b));
        lemma_strip_end_take(s.drop_last(), b);
    } else {
        assert(s.take(b) =~= s);
    }
}

proof fn lemma_pass_clean(s: Seq<char>)
    ensures
        forall|i: int| 0 <= i < sanitize_pass(s).0.len() ==> !is_forbidden(#[trigger] sanitize_pass(s).0[i])
            && !is_ws(sanitize_pass(s).0[i]),
    decreases s.len(),
{
    if s.len() > 0 {
        lemma_pass_clean(s.drop_last());
        let prev = sanitize_pass(s.drop_last());
        assert forall|i: int| 0 <= i < sanitize_pass(s).0.len() implies !is_forbidden(#[trigger] sanitize_pass(s).0[i])
            && !is_ws(sanitize_pass(s).0[i]) by {
            if i < prev.0.len() {
                assert(!is_forbidden(prev.0[i]) && !is_ws(prev.0[i]));
            }
        }
    }
}

proof fn lemma_strip_start_props(s: Seq<char>) -> (k: int)
    ensures
        0 <= k <= s.len(),
        strip_start(s) == s.skip(k),
        strip_start(s).len() > 0 ==> !is_dot_dash(strip_start(s)[0]),
    decreases s.len(),
{
    if s.len() > 0 && is_dot_dash(s[0]) {
        let k = lemma_strip_start_props(s.drop_first());
        assert(s.drop_first().skip(k) =~= s.skip(k + 1));
        k + 1
    } else {
        assert(s.skip(0) =~= s);
        0
    }
}

proof fn lemma_strip_end_props(s: Seq<char>) -> (k: int)
    ensures
        0 <= k <= s.len(),
        strip_end(s) == s.take(k),
        strip_end(s).len() > 0 ==> !is_dot_dash(strip_end(s).last()),
    decreases s.len(),
{
    if s.len() > 0 && is_dot_dash(s.last()) {
        let k = lemma_strip_end_props(s.drop_last());
        assert(s.drop_last().take(k) =~= s.take(k));
        k
    } else {
        assert(s.take(s.len() as int) =~= s);
        s.len() as int
    }
}

/// A sanitised name is safe as a directory segment: it holds no forbidden
/// character and no whitespace, and neither begins nor ends with `.` or `-`.
pub proof fn law_sanitized_is_safe(name: Seq<char>)
    ensures
        forall|i: int| 0 <= i < sanitized(name).len() ==> !is_forbidden(#[trigger] sanitized(name)[i])
            && !is_ws(sanitized(name)[i]),
        sanitized(name).len() > 0 ==> !is_dot_dash(sanitized(name)[0]) && !is_dot_dash(sanitized(name).last()),
{
    let p = sanitize_pass(name).0;
    lemma_pass_clean(name);
    let a = lemma_strip_start_props(p);
    let t = strip_start(p);
    let b = lemma_strip_end_props(t);
    assert forall|i: int| 0 <= i < sanitized(name).len() implies !is_forbidden(#[trigger] sanitized(name)[i])
        && !is_ws(sanitized(name)[i]) by {
        assert(sanitized(name)[i] == t[i]);
        assert(t[i] == p[i + a]);
        assert(!is_forbidden(p[i + a]) && !is_ws(p[i + a]));
    }
    if sanitized(name).len() > 0 {
        assert(sanitized(name)[0] == t[0]);
    }
}

/// Cleans a unicode display name into a directory segment (see `sanitized`):
/// `"路径/测试  名"` gives `"路径测试-名"`.
pub fn sanitize_unicode_for_subdir(name: &str) -> (r: String)
    ensures
        r@ == sanitized(name@),
{
    let cs = chars_of(name);
    let mut out: Vec<char> = Vec::new();
    let mut last_was_dash = false;
    let mut i: usize = 0;
    while i < cs.len()
        invariant
            cs@ == name@,
            i <= cs@.len(),
            (out@, last_was_dash) == sanitize_pass(name@.take(i as int)),
        decreases cs@.len() - i,
    {
        let c = cs[i];
        assert(name@.take(i + 1).drop_last() =~= name@.take(i as int));
        if is_whitespace(c) {
            if !last_was_dash && out.len() > 0 {
                out.push('-');
                last_was_dash = true;
            }
        } else if is_forbidden_exec(c) {
        } else {
            out.push(c);
            last_was_dash = false;
        }
        i = i + 1;
    }
    assert(name@.take(cs@.len() as int) =~= name@);
    let mut a: usize = 0;
    while a < out.len() && (out[a] == '.' || out[a] == '-')
        invariant
            a <= out@.len(),
            forall|k: int| 0 <= k < a ==> is_dot_dash(#[trigger] out@[k]),
        decreases out@.len() - a,
    {
        a = a + 1;
    }
    proof {
        lemma_strip_start_skip(out@, a as int);
        let t = out@.skip(a as int);
        if t.len() > 0 {
            assert(!is_dot_dash(t[0]));
        }
        assert(strip_start(t) == t);
    }
    let mut b: usize = out.len();
    while b > a && (out[b - 1] == '.' || out[b - 1] == '-')
        invariant
            a <= b <= out@.len(),
            forall|k: int| b <= k < out@.len() ==> is_dot_dash(#[trigger] out@[k]),
        decreases b,
    {
        b = b - 1;
    }
    proof {
        let t = out@.skip(a as int);
        let bb = (b - a) as int;
        assert forall|k: int| bb <= k < t.len() implies is_dot_dash(#[trigger] t[k]) by {
            assert(t[k] == out@[a + k]);
        }
        lemma_strip_end_take(t, bb);
        let u = t.take(bb);
        if u.len() > 0 {
            assert(u.last() == out@[b - 1]);
        }
        assert(strip_end(u) == u);
        assert(u =~= out@.subrange(a as int, b as int));
    }
    let kept = slice_chars(out.as_slice(), a, b);
    string_from_chars(kept.as_slice())
}

/// What `slug::slugify` makes of a text.
pub uninterp spec fn slugify_of(s: Seq<char>) -> Seq<char>;

/// The shape the `slug` crate documents for its output: only `a-z`, `0-9`
/// and `-`, never two dashes in a row, never a dash first or last.
pub open spec fn slug_shaped(s: Seq<char>) -> bool {
    &&& forall|i: int| 0 <= i < s.len() ==> {
        let c = #[trigger] s[i];
        ('a' <= c && c <= 'z') || ('0' <= c && c <= '9') || c == '-'
    }
    &&& forall|i: int| 0 <= i < s.len() - 1 ==> !(#[trigger] s[i] == '-' && s[i + 1] == '-')
    &&& s.len() > 0 ==> s[0] != '-' && s.last() != '-'
}

/// Calls `slug::slugify`: an ASCII slug of the text, of the documented shape.
#[verifier::external_body]
fn slugify(s: &str) -> (r: String)
    ensures
        r@ == slugify_of(s@),
        slug_shaped(r@),
{
    slug::slugify(s)
}

/// The first eight bytes of an id, as characters.
pub open spec fn id_head(id: Seq<char>) -> Seq<char> {
    id.take(prefix_chars(id, 8) as int)
}

/// The default directory name of a project: an ASCII slug of its name, or
/// the sanitised name when the slug is empty, then `-` and the first eight
/// bytes of its id; `p-` and those bytes when both are empty.
pub open spec fn subdir_slug(name: Seq<char>, id: Seq<char>) -> Seq<char> {
    let ascii = slugify_of(name);
    let candidate = if ascii.len() == 0 { sanitized(name) } else { ascii };
    if candidate.len() == 0 {
        "p-"@ + id_head(id)
    } else {
        candidate + seq!['-'] + id_head(id)
    }
}

/// The directory name of a project (see `subdir_slug`). The id must have at
/// least eight bytes, and its byte eight must start a character.
pub fn derive_subdir_slug(name: &str, id: &str) -> (r: String)
    requires
        byte_len(id@) >= 8,
        is_char_boundary(id@, 8),
    ensures
        r@ == subdir_slug(name@, id@),
{
    let ascii = slugify(name);
    let candidate = if ascii.as_str().is_empty() { sanitize_unicode_for_subdir(name) } else { ascii };
    let ids = chars_of(id);
    let n = prefix_char_count(ids.as_slice(), 8);
    let head = slice_chars(ids.as_slice(), 0, n);
    assert(head@ =~= id_head(id@));
    let short = string_from_chars(head.as_slice());
    let mut r = String::new();
    if candidate.as_str().is_empty() {
        push_str(&mut r, "p-");
        push_str(&mut r, short.as_str());
    } else {
        push_str(&mut r, candidate.as_str());
        crate::text::push_char(&mut r, '-');
        push_str(&mut r, short.as_str());
    }
    r
}

/// The directory name of a project ends in the first eight bytes of its id,
/// after a `-`, so two projects whose ids differ there never share a
/// directory, whatever their names.
pub proof fn law_subdir_suffix_unique(name1: Seq<char>, name2: Seq<char>, id1: Seq<char>, id2: Seq<char>)
    requires
        byte_len(id1) >= 8,
        is_char_boundary(id1, 8),
        byte_len(id2) >= 8,
        is_char_boundary(id2, 8),
    ensures
        byte_len(id_head(id1)) == 8,
        subdir_slug(name1, id1).len() >= id_head(id1).len() + 2,
        subdir_slug(name1, id1).skip(subdir_slug(name1, id1).len() - id_head(id1).len() - 1) == seq!['-']
            + id_head(id1),
        id_head(id1) != id_head(id2) ==> subdir_slug(name1, id1) != subdir_slug(name2, id2),
{
    reveal_strlit("p-");
    lemma_byte_prefix(id1, 8);
    lemma_byte_prefix(id2, 8);
    let h1 = id_head(id1);
    let h2 = id_head(id2);
    let s1 = subdir_slug(name1, id1);
    let s2 = subdir_slug(name2, id2);
    let t1 = seq!['-'] + h1;
    let t2 = seq!['-'] + h2;
    assert(s1.skip(s1.len() - t1.len()) =~= t1);
    assert(s2.skip(s2.len() - t2.len()) =~= t2);
    if h1 != h2 && s1 == s2 {
        assert(t1.skip(1) =~= h1);
        assert(t2.skip(1) =~= h2);
        if t1.len() == t2.len() {
            assert(false);
        } else if t1.len() < t2.len() {
            let d = t2.len() - t1.len();
            assert(t2.skip(d) =~= t1);
            assert(h2.skip(d) =~= h1) by {
                assert(t2.skip(d) =~= h2.skip(d - 1));
                assert(h2.skip(d - 1).skip(1) =~= h2.skip(d));
            }
            lemma_byte_len_split(h2, d);
            assert(false);
        } else {
            let d = t1.len() - t2.len();
            assert(t1.skip(d) =~= t2);
            assert(h1.skip(d) =~= h2) by {
                assert(t1.skip(d) =~= h1.skip(d - 1));
                assert(h1.skip(d - 1).skip(1) =~= h1.skip(d));
            }
            lemma_byte_len_split(h1, d);
            assert(false);
        }
    }
}

} // verus!
