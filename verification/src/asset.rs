//! Naming and admission rules for asset files: display titles derived from
//! prompts, duplicate-name numbering, extensions, import limits.

use vstd::prelude::*;

use crate::account::service::{json_quote, json_string_of};
use crate::error::{is_validation, CoreError};
use crate::text::{
    ascii_lower, chars_of, contains, contains_exec, nat_digits, push_char, push_str, push_u64,
    slice_chars, str_eq, string_from_chars, trim, trim_range, trim_str,
};

verus! {

/// The separators that end the first clause of a prompt: ASCII and
/// full-width comma and semicolon, and line breaks.
pub open spec fn is_title_separator(c: char) -> bool {
    c == ',' || c == ';' || c == '\n' || c == '\r' || c == '\u{FF0C}' || c == '\u{FF1B}'
}

/// The text before the first separator.
pub open spec fn first_clause(s: Seq<char>) -> Seq<char>
    decreases s.len(),
{
    if s.len() == 0 {
        s
    } else if is_title_separator(s[0]) {
        seq![]
    } else {
        seq![s[0]] + first_clause(s.drop_first())
    }
}

/// The most characters a title keeps.
pub const MAX_TITLE_CHARS: usize = 12;

/// A short display title from a generation prompt: the first clause,
/// trimmed, cut to twelve characters, trimmed again.
pub open spec fn title_of(prompt: Seq<char>) -> Seq<char> {
    trim(trim(first_clause(prompt)).take(if trim(first_clause(prompt)).len() < 12 {
        trim(first_clause(prompt)).len() as int
    } else {
        12
    }))
}

fn first_clause_end(v: &[char]) -> (k: usize)
    ensures
        k <= v@.len(),
        first_clause(v@) == v@.take(k as int),
{
    let mut k: usize = 0;
    assert(v@.skip(0) =~= v@);
    assert(v@.take(0) + first_clause(v@) =~= first_clause(v@));
    while k < v.len() && !(v[k] == ',' || v[k] == ';' || v[k] == '\n' || v[k] == '\r'
        || v[k] == '\u{FF0C}' || v[k] == '\u{FF1B}')
        invariant
            k <= v@.len(),
            first_clause(v@) == v@.take(k as int) + first_clause(v@.skip(k as int)),
        decreases v@.len() - k,
    {
        let ghost t = v@.skip(k as int);
        assert(t.drop_first() =~= v@.skip(k + 1));
        assert(v@.take(k + 1) =~= v@.take(k as int) + seq![t[0]]);
        k = k + 1;
    }
    proof {
        let t = v@.skip(k as int);
        assert(first_clause(t) =~= Seq::<char>::empty());
    }
    k
}

/// A short display title for a generated asset (see `title_of`):
/// `"赛博朋克少女, 霓虹街头"` gives `"赛博朋克少女"`.
pub fn display_title_from_prompt(prompt: &str) -> (r: String)
    ensures
        r@ == title_of(prompt@),
{
    let cs = chars_of(prompt);
    let k = first_clause_end(cs.as_slice());
    let clause = slice_chars(cs.as_slice(), 0, k);
    let (a, b) = trim_range(clause.as_slice());
    let n = if b - a < MAX_TITLE_CHARS { b - a } else { MAX_TITLE_CHARS };
    let head = slice_chars(clause.as_slice(), a, a + n);
    let ghost t = trim(first_clause(prompt@));
    assert(head@ =~= t.take(n as int));
    let (c, d) = trim_range(head.as_slice());
    let title = slice_chars(head.as_slice(), c, d);
    string_from_chars(title.as_slice())
}

/// The name a generated asset is first offered under: the display title
/// of its (trimmed) prompt and the extension, or `generated.{ext}` when
/// there is no prompt or the title comes out empty.
pub open spec fn base_name_spec(prompt: Option<Seq<char>>, ext: Seq<char>) -> Seq<char> {
    let head = match prompt {
        Some(p) => if trim(p).len() > 0 { title_of(trim(p)) } else { seq![] },
        None => seq![],
    };
    if head.len() == 0 {
        "generated."@ + ext
    } else {
        head + seq!['.'] + ext
    }
}

/// The name a generated asset is first offered under (see `base_name_spec`).
pub fn base_original_name(prompt: Option<&str>, ext: &str) -> (r: String)
    ensures
        r@ == base_name_spec(match prompt { Some(p) => Some(p@), None => None }, ext@),
{
    let head = match prompt {
        Some(p) => {
            let t = trim_str(p);
            if t.unicode_len() > 0 { display_title_from_prompt(t) } else { String::new() }
        },
        None => String::new(),
    };
    let mut r = String::new();
    if head.unicode_len() == 0 {
        push_str(&mut r, "generated.");
        push_str(&mut r, ext);
    } else {
        push_str(&mut r, head.as_str());
        push_char(&mut r, '.');
        push_str(&mut r, ext);
    }
    r
}

/// The index of the last `.` of a name.
pub open spec fn last_dot(s: Seq<char>) -> Option<int>
    decreases s.len(),
{
    if s.len() == 0 {
        None
    } else if s.last() == '.' {
        Some(s.len() - 1)
    } else {
        last_dot(s.drop_last())
    }
}

/// A name split before its last `.`: `("项羽v1.2", ".png")`; the whole name
/// and an empty extension when there is no dot.
pub open spec fn stem_ext(s: Seq<char>) -> (Seq<char>, Seq<char>) {
    match last_dot(s) {
        Some(i) => (s.take(i), s.skip(i)),
        None => (s, seq![]),
    }
}

proof fn lemma_last_dot_range(s: Seq<char>)
    ensures
        last_dot(s) matches Some(i) ==> 0 <= i < s.len(),
    decreases s.len(),
{
    if s.len() > 0 {
        lemma_last_dot_range(s.drop_last());
    }
}

pub fn split_stem_ext(name: &str) -> (r: (&str, &str))
    ensures
        (r.0@, r.1@) == stem_ext(name@),
{
    let cs = chars_of(name);
    let mut k = cs.len();
    assert(name@.take(k as int) =~= name@);
    while k > 0 && cs[k - 1] != '.'
        invariant
            k <= cs@.len(),
            cs@ == name@,
            last_dot(name@) == last_dot(name@.take(k as int)),
        decreases k,
    {
        assert(name@.take(k as int).drop_last() =~= name@.take(k - 1));
        k = k - 1;
    }
    if k == 0 {
        assert(name@.take(0) =~= Seq::<char>::empty());
        (name, name.substring_char(0, 0))
    } else {
        assert(name@.take(k as int).last() == '.');
        assert(name@.take(k - 1) =~= name@.take(k as int).take(k - 1));
        let stem = name.substring_char(0, k - 1);
        let ext = name.substring_char(k - 1, cs.len());
        assert(stem@ =~= name@.take(k - 1));
        assert(ext@ =~= name@.skip(k - 1));
        (stem, ext)
    }
}

/// The name of the `n`-th copy of `base`: `stem (n).ext`, as Finder and
/// Explorer name duplicates.
pub open spec fn numbered_name_spec(base: Seq<char>, n: nat) -> Seq<char> {
    stem_ext(base).0 + " ("@ + nat_digits(n) + seq![')'] + stem_ext(base).1
}

pub fn numbered_name(base: &str, n: u32) -> (r: String)
    ensures
        r@ == numbered_name_spec(base@, n as nat),
{
    let (stem, ext) = split_stem_ext(base);
    let mut r = String::new();
    push_str(&mut r, stem);
    push_str(&mut r, " (");
    push_u64(&mut r, n as u64);
    push_char(&mut r, ')');
    push_str(&mut r, ext);
    r
}

/// Splitting a name before its last dot loses nothing: stem and extension
/// put back together give the name, and the extension is empty or a dot
/// followed by dot-free text.
pub proof fn law_stem_ext_round_trip(name: Seq<char>)
    ensures
        stem_ext(name).0 + stem_ext(name).1 == name,
        stem_ext(name).1.len() == 0 || (stem_ext(name).1[0] == '.'
            && forall|i: int| 1 <= i < stem_ext(name).1.len() ==> #[trigger] stem_ext(name).1[i] != '.'),
    decreases name.len(),
{
    lemma_last_dot_range(name);
    match last_dot(name) {
        Some(i) => {
            assert(name.take(i) + name.skip(i) =~= name);
            lemma_last_dot_after(name);
        },
        None => {
            assert(name + Seq::<char>::empty() =~= name);
        },
    }
}

proof fn lemma_last_dot_after(s: Seq<char>)
    ensures
        last_dot(s) matches Some(i) ==> s[i] == '.' && forall|k: int| i < k < s.len() ==> #[trigger] s[k] != '.',
    decreases s.len(),
{
    if s.len() > 0 && s.last() != '.' {
        lemma_last_dot_after(s.drop_last());
        lemma_last_dot_range(s.drop_last());
        let p = s.drop_last();
        assert forall|k: int| 0 <= k < p.len() implies p[k] == s[k] by {}
    }
}

/// Distinct copy numbers give distinct names, so numbering a duplicate
/// always produces a new candidate.
pub proof fn law_numbered_names_distinct(base: Seq<char>, a: nat, b: nat)
    ensures
        a != b ==> numbered_name_spec(base, a) != numbered_name_spec(base, b),
{
    let st = stem_ext(base).0;
    let ex = stem_ext(base).1;
    let pre = st + " ("@;
    let x = numbered_name_spec(base, a);
    let y = numbered_name_spec(base, b);
    if a != b && x == y {
        let da = nat_digits(a);
        let db = nat_digits(b);
        assert(x =~= pre + da + (seq![')'] + ex));
        assert(y =~= pre + db + (seq![')'] + ex));
        assert(da.len() == db.len());
        assert(x.subrange(pre.len() as int, (pre.len() + da.len()) as int) =~= da);
        assert(y.subrange(pre.len() as int, (pre.len() + db.len()) as int) =~= db);
        crate::text::lemma_nat_digits_injective(a, b);
    }
}

/// Whether `name` is one of `taken`.
pub fn name_in(taken: &Vec<String>, name: &str) -> (b: bool)
    ensures
        b == taken.deep_view().contains(name@),
{
    let mut i: usize = 0;
    while i < taken.len()
        invariant
            i <= taken@.len(),
            forall|k: int| 0 <= k < i ==> taken.deep_view()[k] != name@,
        decreases taken@.len() - i,
    {
        if str_eq(taken[i].as_str(), name) {
            assert(taken.deep_view()[i as int] == name@);
            return true;
        }
        i = i + 1;
    }
    false
}

/// The `original_name` a new asset gets in a project whose assets already
/// use the names `taken`: `base` itself when it is free, otherwise the
/// first free `stem (n).ext` counting from 2.
pub fn disambiguate_original_name(base: &str, taken: &Vec<String>) -> (r: String)
    requires
        taken@.len() + 2 <= u32::MAX,
    ensures
        !taken.deep_view().contains(r@),
        !taken.deep_view().contains(base@) ==> r@ == base@,
        taken.deep_view().contains(base@) ==> exists|n: nat|
            2 <= n && r@ == numbered_name_spec(base@, n)
                && forall|k: nat| 2 <= k < n ==> taken.deep_view().contains(#[trigger] numbered_name_spec(base@, k)),
{
    if !name_in(taken, base) {
        return base.to_owned();
    }
    let ghost tv = taken.deep_view();
    let mut n: u32 = 2;
    let mut candidate = numbered_name(base, n);
    while name_in(taken, candidate.as_str())
        invariant
            tv == taken.deep_view(),
            taken@.len() + 2 <= u32::MAX,
            2 <= n <= taken@.len() + 2,
            candidate@ == numbered_name_spec(base@, n as nat),
            forall|k: nat| 2 <= k < n ==> tv.contains(#[trigger] numbered_name_spec(base@, k)),
        decreases taken@.len() + 2 - n,
    {
        proof {
            let f = |k: int| numbered_name_spec(base@, k as nat);
            let range = vstd::set_lib::set_int_range(2, n + 1);
            vstd::set_lib::lemma_int_range(2, n + 1);
            assert(vstd::relations::injective_on(f, range)) by {
                assert forall|x: int, y: int| range.contains(x) && range.contains(y) && #[trigger] f(x) == #[trigger] f(y)
                    implies x == y by {
                    law_numbered_names_distinct(base@, x as nat, y as nat);
                }
            }
            let img = range.map(f);
            vstd::set_lib::lemma_map_size(range, img, f);
            assert(img.subset_of(tv.to_set())) by {
                assert forall|v: Seq<char>| img.contains(v) implies tv.to_set().contains(v) by {
                    let k = choose|k: int| range.contains(k) && f(k) == v;
                    if k < n {
                        assert(tv.contains(numbered_name_spec(base@, k as nat)));
                    }
                }
            }
            vstd::set_lib::lemma_len_subset(img, tv.to_set());
            tv.lemma_cardinality_of_set();
        }
        n = n + 1;
        candidate = numbered_name(base, n);
    }
    candidate
}

/// The file extension a download gets from its asset type and content type.
pub open spec fn ext_for(asset_type: Seq<char>, content_type: Seq<char>) -> Seq<char> {
    if asset_type == "image"@ {
        if contains(content_type, "png"@) { "png"@ } else if contains(content_type, "webp"@) { "webp"@ } else { "jpg"@ }
    } else if asset_type == "video"@ {
        if contains(content_type, "webm"@) { "webm"@ } else { "mp4"@ }
    } else if asset_type == "audio"@ {
        if contains(content_type, "wav"@) { "wav"@ } else { "mp3"@ }
    } else {
        "bin"@
    }
}

/// The extension of a downloaded result (`content_type` is the response's
/// `Content-Type`, empty when it has none).
pub fn ext_from_content_type(content_type: &str, asset_type: &str) -> (r: &'static str)
    ensures
        r@ == ext_for(asset_type@, content_type@),
{
    let ct = chars_of(content_type);
    let has = |p: &str| -> (b: bool)
        ensures
            b == contains(content_type@, p@),
    {
        let pc = chars_of(p);
        contains_exec(ct.as_slice(), pc.as_slice())
    };
    if str_eq(asset_type, "image") {
        if has("png") {
            "png"
        } else if has("webp") {
            "webp"
        } else {
            "jpg"
        }
    } else if str_eq(asset_type, "video") {
        if has("webm") {
            "webm"
        } else {
            "mp4"
        }
    } else if str_eq(asset_type, "audio") {
        if has("wav") {
            "wav"
        } else {
            "mp3"
        }
    } else {
        "bin"
    }
}

/// A shot id from the front end, where `""` or blanks mean "none".
pub open spec fn shot_id_of(raw: Option<Seq<char>>) -> Option<Seq<char>> {
    match raw {
        Some(s) => if trim(s).len() == 0 { None } else { Some(trim(s)) },
        None => None,
    }
}

pub fn trim_shot_id(raw: Option<&str>) -> (r: Option<&str>)
    ensures
        (match r {
            Some(s) => Some(s@),
            None => None,
        }) == shot_id_of(match raw {
            Some(s) => Some(s@),
            None => None,
        }),
{
    match raw {
        Some(s) => {
            let t = trim_str(s);
            if t.is_empty() {
                None
            } else {
                Some(t)
            }
        },
        None => None,
    }
}

/// The largest image that can be imported: 50 MiB.
pub const MAX_FILE_SIZE_BYTES: u64 = 52_428_800;

/// The image extensions that can be imported (compared lower-cased).
pub open spec fn allowed_image_ext(e: Seq<char>) -> bool {
    e == "jpg"@ || e == "jpeg"@ || e == "png"@ || e == "webp"@
}

pub open spec fn unsupported_ext_message(ext: Seq<char>) -> Seq<char> {
    "unsupported file extension: ."@ + ext + "; allowed: jpg, jpeg, png, webp"@
}

/// The lower-cased extension of an image to import, or the error that
/// rejects it. `ext` is the file's extension (none when it has none).
pub fn check_import_extension(ext: Option<&str>) -> (r: Result<String, CoreError>)
    ensures
        ({
            let lower = match ext {
                Some(e) => e@.map_values(|c: char| ascii_lower(c)),
                None => seq![],
            };
            &&& r matches Ok(l) ==> l@ == lower && allowed_image_ext(lower)
            &&& r is Err ==> !allowed_image_ext(lower) && (r matches Err(CoreError::Validation(m))
                && m@ == unsupported_ext_message(lower))
        }),
{
    let lower = match ext {
        Some(e) => crate::text::to_ascii_lowercase(e),
        None => String::new(),
    };
    let l = lower.as_str();
    if str_eq(l, "jpg") || str_eq(l, "jpeg") || str_eq(l, "png") || str_eq(l, "webp") {
        Ok(lower)
    } else {
        let mut m = String::new();
        push_str(&mut m, "unsupported file extension: .");
        push_str(&mut m, l);
        push_str(&mut m, "; allowed: jpg, jpeg, png, webp");
        Err(CoreError::Validation(m))
    }
}

pub open spec fn too_large_message(size: nat) -> Seq<char> {
    "file too large: "@ + nat_digits(size) + " bytes > "@ + nat_digits(MAX_FILE_SIZE_BYTES as nat)
        + " bytes (max 50 MiB)"@
}

/// Rejects an import larger than `MAX_FILE_SIZE_BYTES`.
pub fn check_import_size(size: u64) -> (r: Result<(), CoreError>)
    ensures
        r is Ok <==> size <= MAX_FILE_SIZE_BYTES,
        size > MAX_FILE_SIZE_BYTES ==> is_validation(r, too_large_message(size as nat)),
{
    if size > MAX_FILE_SIZE_BYTES {
        let mut m = String::new();
        push_str(&mut m, "file too large: ");
        push_u64(&mut m, size);
        push_str(&mut m, " bytes > ");
        push_u64(&mut m, MAX_FILE_SIZE_BYTES);
        push_str(&mut m, " bytes (max 50 MiB)");
        return Err(CoreError::Validation(m));
    }
    Ok(())
}

/// What the file-system stage of an import produced, waiting for its row.
pub struct ImportArtifacts {
    pub asset_id: String,
    pub original_name: String,
    pub file_relative: String,
    pub thumb_relative: Option<String>,
    pub file_size: i64,
    pub content_hash: String,
    pub metadata_json: Option<String>,
}

/// The `metadata_json` of a downloaded asset: a JSON object with its image
/// size and the prompt that produced it, keys in the sorted order of a
/// serde_json map (`height`, `prompt`, `width`); none when there is neither.
pub open spec fn metadata_json_text(dimensions: Option<(u32, u32)>, prompt: Option<Seq<char>>) -> Option<Seq<char>> {
    match (dimensions, prompt) {
        (None, None) => None,
        (Some((w, h)), None) => Some("{\"height\":"@ + nat_digits(h as nat) + ",\"width\":"@ + nat_digits(w as nat) + "}"@),
        (None, Some(p)) => Some("{\"prompt\":"@ + json_string_of(p) + "}"@),
        (Some((w, h)), Some(p)) => Some("{\"height\":"@ + nat_digits(h as nat) + ",\"prompt\":"@ + json_string_of(p)
            + ",\"width\":"@ + nat_digits(w as nat) + "}"@),
    }
}

/// The metadata text of a downloaded asset (see `metadata_json_text`).
pub fn build_metadata_json(dimensions: Option<(u32, u32)>, prompt: Option<&str>) -> (r: Option<String>)
    ensures
        crate::text::opt_string_view(r) == metadata_json_text(
            dimensions,
            match prompt {
                Some(p) => Some(p@),
                None => None,
            },
        ),
{
    if dimensions.is_none() && prompt.is_none() {
        return None;
    }
    let mut s = String::new();
    push_char(&mut s, '{');
    let mut first = true;
    if let Some((_, h)) = dimensions {
        push_str(&mut s, "\"height\":");
        push_u64(&mut s, h as u64);
        first = false;
    }
    if let Some(p) = prompt {
        if !first {
            push_char(&mut s, ',');
        }
        push_str(&mut s, "\"prompt\":");
        let q = json_quote(p);
        push_str(&mut s, q.as_str());
        first = false;
    }
    if let Some((w, _)) = dimensions {
        if !first {
            push_char(&mut s, ',');
        }
        push_str(&mut s, "\"width\":");
        push_u64(&mut s, w as u64);
    }
    push_char(&mut s, '}');
    proof {
        reveal_strlit("{\"height\":");
        reveal_strlit(",\"width\":");
        reveal_strlit("{\"prompt\":");
        reveal_strlit(",\"prompt\":");
        reveal_strlit("\"height\":");
        reveal_strlit("\"prompt\":");
        reveal_strlit("\"width\":");
        reveal_strlit("}");
    }
    assert(s@ =~= metadata_json_text(
        dimensions,
        match prompt {
            Some(p) => Some(p@),
            None => None,
        },
    )->0);
    Some(s)
}

/// What a download of a generated result produced: the asset it became,
/// how many bytes were fetched and how long the fetch took.
#[derive(Debug, Clone)]
pub struct DownloadOutcome<A> {
    pub asset: A,
    pub bytes: u64,
    pub duration_ms: u64,
}

/// The content hash an imported file is stored under: the lower-case hex
/// of the SHA-256 of its bytes.
pub fn content_hash(bytes: &[u8]) -> (h: String)
    ensures
        h@ == crate::ffmpeg::cache_key::hex_of(crate::ffmpeg::cache_key::sha256_of(bytes@)),
        h@.len() == 64,
{
    let digest = crate::ffmpeg::cache_key::sha256(bytes);
    let h = crate::ffmpeg::cache_key::hex_encode(digest.as_slice());
    proof { lemma_hex_len(digest@); }
    h
}

proof fn lemma_hex_len(b: Seq<u8>)
    ensures
        crate::ffmpeg::cache_key::hex_of(b).len() == 2 * b.len(),
    decreases b.len(),
{
    if b.len() > 0 {
        lemma_hex_len(b.drop_last());
    }
}

/// Whether a text holds none of the characters that end a prompt's first
/// clause: `,` `;` line feed, carriage return, full-width `，` and `；`.
pub open spec fn avoids_separators(s: Seq<char>) -> bool {
    forall|k: int| 0 <= k < s.len() ==> {
        let c = #[trigger] s[k];
        c != ',' && c != ';' && c != '\n' && c != '\r' && c != '\u{FF0C}' && c != '\u{FF1B}'
    }
}

proof fn lemma_first_clause_avoids(s: Seq<char>)
    ensures
        avoids_separators(first_clause(s)),
        first_clause(s).len() <= s.len(),
    decreases s.len(),
{
    if s.len() > 0 && !is_title_separator(s[0]) {
        lemma_first_clause_avoids(s.drop_first());
        let f = first_clause(s);
        assert forall|k: int| 0 <= k < f.len() implies {
            let c = #[trigger] f[k];
            c != ',' && c != ';' && c != '\n' && c != '\r' && c != '\u{FF0C}' && c != '\u{FF1B}'
        } by {
            if k > 0 {
                assert(f[k] == first_clause(s.drop_first())[k - 1]);
            }
        }
    }
}

proof fn lemma_trim_start_shape(s: Seq<char>) -> (a: int)
    ensures
        0 <= a <= s.len(),
        crate::text::trim_start(s) == s.skip(a),
        a < s.len() ==> !crate::text::is_ws(s[a]),
    decreases s.len(),
{
    if s.len() > 0 && crate::text::is_ws(s[0]) {
        let a = lemma_trim_start_shape(s.drop_first());
        assert(s.drop_first().skip(a) =~= s.skip(a + 1));
        a + 1
    } else {
        assert(s.skip(0) =~= s);
        0
    }
}

proof fn lemma_trim_end_shape(s: Seq<char>) -> (b: int)
    ensures
        0 <= b <= s.len(),
        crate::text::trim_end(s) == s.take(b),
        b > 0 ==> !crate::text::is_ws(s[b - 1]),
    decreases s.len(),
{
    if s.len() > 0 && crate::text::is_ws(s.last()) {
        let b = lemma_trim_end_shape(s.drop_last());
        assert(s.drop_last().take(b) =~= s.take(b));
        b
    } else {
        assert(s.take(s.len() as int) =~= s);
        s.len() as int
    }
}

/// Trimming keeps a text free of separators.
proof fn lemma_trim_avoids(s: Seq<char>)
    requires
        avoids_separators(s),
    ensures
        avoids_separators(trim(s)),
{
    let a = lemma_trim_start_shape(s);
    let t = s.skip(a);
    let b = lemma_trim_end_shape(t);
    assert forall|k: int| 0 <= k < trim(s).len() implies {
        let c = #[trigger] trim(s)[k];
        c != ',' && c != ';' && c != '\n' && c != '\r' && c != '\u{FF0C}' && c != '\u{FF1B}'
    } by {
        assert(trim(s)[k] == s[a + k]);
    }
}

/// Trimming twice trims once.
proof fn lemma_trim_idempotent(x: Seq<char>)
    ensures
        trim(trim(x)) == trim(x),
{
    let a = lemma_trim_start_shape(x);
    let y = x.skip(a);
    let b = lemma_trim_end_shape(y);
    let z = y.take(b);
    if b == 0 {
        assert(z.len() == 0);
    } else {
        assert(z[0] == y[0]);
        let a2 = lemma_trim_start_shape(z);
        if a2 > 0 {
            assert(false);
        }
        assert(z.skip(0) =~= z);
        let b2 = lemma_trim_end_shape(z);
        if b2 < z.len() {
            assert(z[z.len() - 1] == y[b - 1]);
            lemma_trim_end_not_ws(z);
        }
    }
}

proof fn lemma_trim_end_not_ws(z: Seq<char>)
    requires
        z.len() > 0,
        !crate::text::is_ws(z.last()),
    ensures
        crate::text::trim_end(z) == z,
{
}

/// A separator-free text is its own first clause, also when a full-width
/// semicolon and more text follow it.
proof fn lemma_first_clause_of_plain(p: Seq<char>, q: Seq<char>)
    requires
        avoids_separators(p),
    ensures
        first_clause(p) == p,
        first_clause(p + seq!['\u{FF1B}'] + q) == p,
    decreases p.len(),
{
    if p.len() == 0 {
        assert(p + seq!['\u{FF1B}'] + q =~= seq!['\u{FF1B}'] + q);
        assert((seq!['\u{FF1B}'] + q)[0] == '\u{FF1B}');
    } else {
        let c = p[0];
        assert(c == p[0]);
        assert(avoids_separators(p.drop_first())) by {
            assert forall|k: int| 0 <= k < p.drop_first().len() implies {
                let d = #[trigger] p.drop_first()[k];
                d != ',' && d != ';' && d != '\n' && d != '\r' && d != '\u{FF0C}' && d != '\u{FF1B}'
            } by {
                assert(p.drop_first()[k] == p[k + 1]);
            }
        }
        lemma_first_clause_of_plain(p.drop_first(), q);
        let w = p + seq!['\u{FF1B}'] + q;
        assert(w[0] == c);
        assert(w.drop_first() =~= p.drop_first() + seq!['\u{FF1B}'] + q);
        assert(seq![c] + p.drop_first() =~= p);
    }
}

/// A display title never holds a clause separator, and it is cut at the
/// first one: what follows a full-width semicolon never reaches the title,
/// and a short separator-free clause before it becomes the title trimmed.
pub proof fn law_title_stops_at_separator(prompt: Seq<char>, p: Seq<char>, q: Seq<char>)
    ensures
        avoids_separators(title_of(prompt)),
        title_of(prompt).len() <= 12,
        avoids_separators(p) ==> title_of(p + seq!['\u{FF1B}'] + q) == title_of(p),
        avoids_separators(p) && trim(p).len() <= 12 ==> title_of(p + seq!['\u{FF1B}'] + q) == trim(p),
{
    let f = first_clause(prompt);
    lemma_first_clause_avoids(prompt);
    lemma_trim_avoids(f);
    let t = trim(f);
    let n: int = if t.len() < 12 { t.len() as int } else { 12 };
    assert(avoids_separators(t.take(n))) by {
        assert forall|k: int| 0 <= k < t.take(n).len() implies {
            let c = #[trigger] t.take(n)[k];
            c != ',' && c != ';' && c != '\n' && c != '\r' && c != '\u{FF0C}' && c != '\u{FF1B}'
        } by {
            assert(t.take(n)[k] == t[k]);
        }
    }
    lemma_trim_avoids(t.take(n));
    let a = lemma_trim_start_shape(t.take(n));
    let b = lemma_trim_end_shape(t.take(n).skip(a));
    if avoids_separators(p) {
        lemma_first_clause_of_plain(p, q);
        if trim(p).len() <= 12 {
            let tp = trim(p);
            assert(tp.take(tp.len() as int) =~= tp);
            lemma_trim_idempotent(p);
        }
    }
}

} // verus!
