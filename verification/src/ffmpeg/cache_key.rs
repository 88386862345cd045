//! Cache keys of the thumbnail strips and waveforms: the first six bytes of
//! the SHA-256 of the source path, in hex, then the rendering parameters.

use vstd::prelude::*;

use crate::text::{int_digits, nat_digits, push_char, push_i64, push_str, push_u64};

verus! {

/// The SHA-256 digest of `data`.
pub uninterp spec fn sha256_of(data: Seq<u8>) -> Seq<u8>;

/// Calls `sha2::Sha256::digest`: the result is the digest of exactly
/// `data`, 32 bytes long.
#[verifier::external_body]
pub(crate) fn sha256(data: &[u8]) -> (r: Vec<u8>)
    ensures
        r@ == sha256_of(data@),
        r@.len() == 32,
{
    <sha2::Sha256 as sha2::Digest>::digest(data).to_vec()
}

/// The lower-case hex digit of `d` (`0 <= d < 16`).
pub open spec fn hex_digit(d: int) -> char {
    if d < 10 { crate::text::digit_char(d) }
    else if d == 10 { 'a' }
    else if d == 11 { 'b' }
    else if d == 12 { 'c' }
    else if d == 13 { 'd' }
    else if d == 14 { 'e' }
    else { 'f' }
}

/// Two lower-case hex digits per byte, as `format!("{b:02x}")` writes them.
pub open spec fn hex_of(bytes: Seq<u8>) -> Seq<char>
    decreases bytes.len(),
{
    if bytes.len() == 0 {
        seq![]
    } else {
        hex_of(bytes.drop_last()) + seq![
            hex_digit((bytes.last() / 16) as int),
            hex_digit((bytes.last() % 16) as int),
        ]
    }
}

fn hex_digit_exec(d: u8) -> (c: char)
    requires
        d < 16,
    ensures
        c == hex_digit(d as int),
{
    if d < 10 { crate::text::digit_to_char(d as u64) }
    else if d == 10 { 'a' }
    else if d == 11 { 'b' }
    else if d == 12 { 'c' }
    else if d == 13 { 'd' }
    else if d == 14 { 'e' }
    else { 'f' }
}

/// Appends the hex text of `bytes[..n]`.
fn push_hex_prefix(s: &mut String, bytes: &[u8], n: usize)
    requires
        n <= bytes@.len(),
    ensures
        final(s)@ == old(s)@ + hex_of(bytes@.take(n as int)),
{
    let ghost start = s@;
    let mut i: usize = 0;
    while i < n
        invariant
            i <= n <= bytes@.len(),
            s@ == start + hex_of(bytes@.take(i as int)),
        decreases n - i,
    {
        let b = bytes[i];
        push_char(s, hex_digit_exec(b / 16));
        push_char(s, hex_digit_exec(b % 16));
        assert(bytes@.take(i + 1).drop_last() =~= bytes@.take(i as int));
        assert(s@ =~= start + hex_of(bytes@.take(i + 1)));
        i = i + 1;
    }
}

/// Lower-case hex of all the bytes.
pub fn hex_encode(bytes: &[u8]) -> (s: String)
    ensures
        s@ == hex_of(bytes@),
{
    let mut s = String::new();
    push_hex_prefix(&mut s, bytes, bytes.len());
    assert(bytes@.take(bytes@.len() as int) =~= bytes@);
    s
}

/// The hex of the first six bytes of the SHA-256 of a path's UTF-8 bytes.
pub open spec fn path_hash_hex(path: Seq<char>) -> Seq<char> {
    hex_of(sha256_of(vstd::utf8::encode_utf8(path)).take(6))
}

fn push_path_hash(s: &mut String, path: &str)
    ensures
        final(s)@ == old(s)@ + path_hash_hex(path@),
{
    let digest = sha256(path.as_bytes());
    push_hex_prefix(s, digest.as_slice(), 6);
}

/// The cache key of a thumbnail strip: `{hash}_{interval_ms}_{thumb_width}`.
pub open spec fn thumbnail_key(path: Seq<char>, interval_ms: int, thumb_width: nat) -> Seq<char> {
    path_hash_hex(path) + seq!['_'] + int_digits(interval_ms) + seq!['_'] + nat_digits(thumb_width)
}

/// The cache key of a waveform: `{hash}_{height}_{px_per_sec}`.
pub open spec fn waveform_key(path: Seq<char>, height: nat, px_per_sec: nat) -> Seq<char> {
    path_hash_hex(path) + seq!['_'] + nat_digits(height) + seq!['_'] + nat_digits(px_per_sec)
}

/// `{hash}_{interval_ms}_{thumb_width}`.
pub fn thumbnail_strip_cache_key(input_path: &str, interval_ms: i64, thumb_width: u32) -> (s: String)
    ensures
        s@ == thumbnail_key(input_path@, interval_ms as int, thumb_width as nat),
{
    let mut s = String::new();
    push_path_hash(&mut s, input_path);
    push_char(&mut s, '_');
    push_i64(&mut s, interval_ms);
    push_char(&mut s, '_');
    push_u64(&mut s, thumb_width as u64);
    assert(s@ =~= thumbnail_key(input_path@, interval_ms as int, thumb_width as nat));
    s
}

/// `{hash}_{height}_{px_per_sec}`.
pub fn waveform_cache_key(input_path: &str, height: u32, px_per_sec: u32) -> (s: String)
    ensures
        s@ == waveform_key(input_path@, height as nat, px_per_sec as nat),
{
    let mut s = String::new();
    push_path_hash(&mut s, input_path);
    push_char(&mut s, '_');
    push_u64(&mut s, height as u64);
    push_char(&mut s, '_');
    push_u64(&mut s, px_per_sec as u64);
    assert(s@ =~= waveform_key(input_path@, height as nat, px_per_sec as nat));
    s
}

proof fn lemma_int_digits_no_underscore(i: int)
    ensures
        forall|k: int| 0 <= k < int_digits(i).len() ==> #[trigger] int_digits(i)[k] != '_',
        int_digits(i).len() > 0,
{
    let n: nat = if i < 0 { (-i) as nat } else { i as nat };
    crate::text::lemma_nat_digits_value(n);
    let d = nat_digits(n);
    assert forall|k: int| 0 <= k < int_digits(i).len() implies #[trigger] int_digits(i)[k] != '_' by {
        if i < 0 {
            if k > 0 {
                assert(int_digits(i)[k] == d[k - 1]);
                assert(crate::text::is_digit(d[k - 1]));
            }
        } else {
            assert(crate::text::is_digit(d[k]));
        }
    }
}

proof fn lemma_int_digits_injective(a: int, b: int)
    ensures
        int_digits(a) == int_digits(b) ==> a == b,
{
    if int_digits(a) == int_digits(b) {
        let na: nat = if a < 0 { (-a) as nat } else { a as nat };
        let nb: nat = if b < 0 { (-b) as nat } else { b as nat };
        crate::text::lemma_nat_digits_value(na);
        crate::text::lemma_nat_digits_value(nb);
        if a < 0 && b < 0 {
            assert(int_digits(a).drop_first() =~= nat_digits(na));
            assert(int_digits(b).drop_first() =~= nat_digits(nb));
            crate::text::lemma_nat_digits_injective(na, nb);
        } else if a < 0 {
            assert(int_digits(a)[0] == '-');
            assert(crate::text::is_digit(nat_digits(nb)[0]));
        } else if b < 0 {
            assert(int_digits(b)[0] == '-');
            assert(crate::text::is_digit(nat_digits(na)[0]));
        } else {
            crate::text::lemma_nat_digits_injective(na, nb);
        }
    }
}

/// `h + "_" + a1 + "_" + b1 == h + "_" + a2 + "_" + b2` with no `_` in the
/// `a`s splits back into equal parts.
proof fn lemma_split_key(h: Seq<char>, a1: Seq<char>, b1: Seq<char>, a2: Seq<char>, b2: Seq<char>)
    requires
        forall|k: int| 0 <= k < a1.len() ==> #[trigger] a1[k] != '_',
        forall|k: int| 0 <= k < a2.len() ==> #[trigger] a2[k] != '_',
        h + seq!['_'] + a1 + seq!['_'] + b1 == h + seq!['_'] + a2 + seq!['_'] + b2,
    ensures
        a1 == a2,
        b1 == b2,
{
    let x = h + seq!['_'] + a1 + seq!['_'] + b1;
    let y = h + seq!['_'] + a2 + seq!['_'] + b2;
    let p: int = h.len() as int + 1;
    let l1: int = a1.len() as int;
    let l2: int = a2.len() as int;
    if l1 < l2 {
        assert(x[p + l1] == '_');
        assert(y[p + l1] == a2[l1]);
    } else if l2 < l1 {
        assert(y[p + l2] == '_');
        assert(x[p + l2] == a1[l2]);
    } else {
        assert(x.subrange(p, p + l1) =~= a1);
        assert(y.subrange(p, p + l2) =~= a2);
        assert(x.skip(p + l1 + 1) =~= b1);
        assert(y.skip(p + l2 + 1) =~= b2);
    }
}

/// Two thumbnail strips of one source with different intervals or widths
/// never share a cache key; nor do two waveforms of one source with
/// different heights or densities.
pub proof fn law_cache_keys_separate_parameters(
    path: Seq<char>,
    i1: int,
    w1: nat,
    i2: int,
    w2: nat,
    h1: nat,
    p1: nat,
    h2: nat,
    p2: nat,
)
    ensures
        (i1 != i2 || w1 != w2) ==> thumbnail_key(path, i1, w1) != thumbnail_key(path, i2, w2),
        (h1 != h2 || p1 != p2) ==> waveform_key(path, h1, p1) != waveform_key(path, h2, p2),
{
    let h = path_hash_hex(path);
    lemma_int_digits_no_underscore(i1);
    lemma_int_digits_no_underscore(i2);
    lemma_int_digits_injective(i1, i2);
    crate::text::lemma_nat_digits_injective(w1, w2);
    if thumbnail_key(path, i1, w1) == thumbnail_key(path, i2, w2) {
        lemma_split_key(h, int_digits(i1), nat_digits(w1), int_digits(i2), nat_digits(w2));
    }
    lemma_int_digits_no_underscore(h1 as int);
    lemma_int_digits_no_underscore(h2 as int);
    crate::text::lemma_nat_digits_injective(h1, h2);
    crate::text::lemma_nat_digits_injective(p1, p2);
    assert(int_digits(h1 as int) == nat_digits(h1));
    assert(int_digits(h2 as int) == nat_digits(h2));
    if waveform_key(path, h1, p1) == waveform_key(path, h2, p2) {
        lemma_split_key(h, nat_digits(h1), nat_digits(p1), nat_digits(h2), nat_digits(p2));
    }
}

} // verus!
