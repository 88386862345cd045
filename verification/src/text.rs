//! Character-level helpers shared by the string-producing parts of the
//! library: decimal rendering of integers, Unicode whitespace, trimming.

use vstd::prelude::*;

verus! {

/// The character of a decimal digit `d` (`0 <= d < 10`).
pub open spec fn digit_char(d: int) -> char {
    if d == 0 { '0' }
    else if d == 1 { '1' }
    else if d == 2 { '2' }
    else if d == 3 { '3' }
    else if d == 4 { '4' }
    else if d == 5 { '5' }
    else if d == 6 { '6' }
    else if d == 7 { '7' }
    else if d == 8 { '8' }
    else { '9' }
}

/// Decimal rendering of a natural number, without leading zeros.
pub open spec fn nat_digits(n: nat) -> Seq<char>
    decreases n,
{
    if n < 10 {
        seq![digit_char(n as int)]
    } else {
        nat_digits(n / 10).push(digit_char((n % 10) as int))
    }
}

/// Decimal rendering of an integer, with a leading `-` when negative.
pub open spec fn int_digits(i: int) -> Seq<char> {
    if i < 0 {
        seq!['-'] + nat_digits((-i) as nat)
    } else {
        nat_digits(i as nat)
    }
}

/// Decimal rendering left-padded with `0` to at least `width` characters.
pub open spec fn padded_digits(n: nat, width: nat) -> Seq<char> {
    let d = nat_digits(n);
    if d.len() >= width {
        d
    } else {
        Seq::new((width - d.len()) as nat, |i: int| '0') + d
    }
}

/// The Unicode `White_Space` property, which `char::is_whitespace` tests.
pub open spec fn is_ws(c: char) -> bool {
    let u = c as u32;
    ||| 0x09 <= u <= 0x0D
    ||| u == 0x20
    ||| u == 0x85
    ||| u == 0xA0
    ||| u == 0x1680
    ||| 0x2000 <= u <= 0x200A
    ||| u == 0x2028
    ||| u == 0x2029
    ||| u == 0x202F
    ||| u == 0x205F
    ||| u == 0x3000
}

/// `s` without its leading whitespace.
pub open spec fn trim_start(s: Seq<char>) -> Seq<char>
    decreases s.len(),
{
    if s.len() > 0 && is_ws(s[0]) {
        trim_start(s.drop_first())
    } else {
        s
    }
}

/// `s` without its trailing whitespace.
pub open spec fn trim_end(s: Seq<char>) -> Seq<char>
    decreases s.len(),
{
    if s.len() > 0 && is_ws(s.last()) {
        trim_end(s.drop_last())
    } else {
        s
    }
}

/// `s` without leading and trailing whitespace, as `str::trim` returns it.
pub open spec fn trim(s: Seq<char>) -> Seq<char> {
    trim_end(trim_start(s))
}

/// Appends one character to a `String`.
#[verifier::external_body]
pub fn push_char(s: &mut String, c: char)
    ensures
        final(s)@ == old(s)@.push(c),
{
    s.push(c);
}

/// Appends a string slice to a `String`.
#[verifier::external_body]
pub fn push_str(s: &mut String, t: &str)
    ensures
        final(s)@ == old(s)@ + t@,
{
    s.push_str(t);
}

/// The executable counterpart of `digit_char`.
pub fn digit_to_char(d: u64) -> (c: char)
    requires
        d < 10,
    ensures
        c == digit_char(d as int),
{
    if d == 0 { '0' }
    else if d == 1 { '1' }
    else if d == 2 { '2' }
    else if d == 3 { '3' }
    else if d == 4 { '4' }
    else if d == 5 { '5' }
    else if d == 6 { '6' }
    else if d == 7 { '7' }
    else if d == 8 { '8' }
    else { '9' }
}

/// Appends the decimal rendering of `n`.
pub fn push_u64(s: &mut String, n: u64)
    ensures
        final(s)@ == old(s)@ + nat_digits(n as nat),
    decreases n,
{
    if n >= 10 {
        push_u64(s, n / 10);
    }
    push_char(s, digit_to_char(n % 10));
    proof {
        if n >= 10 {
            assert(nat_digits(n as nat) == nat_digits((n / 10) as nat).push(digit_char((n % 10) as int)));
        }
    }
}

/// Appends the decimal rendering of `n`, with `-` for negative values.
pub fn push_i64(s: &mut String, n: i64)
    ensures
        final(s)@ == old(s)@ + int_digits(n as int),
{
    if n < 0 {
        push_char(s, '-');
        let m: u64 = ((-(n + 1)) as u64) + 1;
        push_u64(s, m);
    } else {
        push_u64(s, n as u64);
    }
}

/// The decimal rendering of `n` as a new `String`.
pub fn u64_to_string(n: u64) -> (r: String)
    ensures
        r@ == nat_digits(n as nat),
{
    let mut s = String::new();
    push_u64(&mut s, n);
    s
}

/// The decimal rendering of `n` as a new `String`.
pub fn i64_to_string(n: i64) -> (r: String)
    ensures
        r@ == int_digits(n as int),
{
    let mut s = String::new();
    push_i64(&mut s, n);
    s
}

/// The executable counterpart of `is_ws`.
pub fn is_whitespace(c: char) -> (b: bool)
    ensures
        b == is_ws(c),
{
    let u = c as u32;
    (0x09 <= u && u <= 0x0D) || u == 0x20 || u == 0x85 || u == 0xA0 || u == 0x1680
        || (0x2000 <= u && u <= 0x200A) || u == 0x2028 || u == 0x2029 || u == 0x202F
        || u == 0x205F || u == 0x3000
}

/// The characters of `s`, in order.
pub fn chars_of(s: &str) -> (v: Vec<char>)
    ensures
        v@ == s@,
{
    let mut v: Vec<char> = Vec::new();
    for c in it: s.chars()
        invariant
            v@ == it.seq().take(it.index() as int),
            it.seq() == s@,
    {
        v.push(c);
    }
    v
}


/// The fractional digits of `r / 1000` (`0 < r < 1000`), trailing zeros dropped.
pub open spec fn milli_fraction(r: nat) -> Seq<char> {
    if r % 100 == 0 {
        seq![digit_char((r / 100) as int)]
    } else if r % 10 == 0 {
        seq![digit_char((r / 100) as int), digit_char(((r / 10) % 10) as int)]
    } else {
        seq![digit_char((r / 100) as int), digit_char(((r / 10) % 10) as int), digit_char((r % 10) as int)]
    }
}

/// `ms / 1000` written as the shortest decimal: `1500` is `1.5`, `5000` is
/// `5`, `-1` is `-0.001`.
pub open spec fn millis_as_seconds(ms: int) -> Seq<char> {
    let a: nat = if ms < 0 { (-ms) as nat } else { ms as nat };
    let sign: Seq<char> = if ms < 0 { seq!['-'] } else { seq![] };
    let frac: Seq<char> = if a % 1000 == 0 { seq![] } else { seq!['.'] + milli_fraction(a % 1000) };
    sign + nat_digits(a / 1000) + frac
}

/// The largest magnitude of a millisecond count that `push_millis_as_seconds`
/// renders; within it `ms / 1000` is exactly representable to the millisecond
/// as a binary double, so the decimal text is the one a float would print.
pub const MAX_SECONDS_MILLIS: i64 = 1_000_000_000_000_000;

/// Appends `ms / 1000` as a shortest decimal (see `millis_as_seconds`).
pub fn push_millis_as_seconds(s: &mut String, ms: i64)
    requires
        -MAX_SECONDS_MILLIS <= ms <= MAX_SECONDS_MILLIS,
    ensures
        final(s)@ == old(s)@ + millis_as_seconds(ms as int),
{
    let a: u64 = if ms < 0 { (-ms) as u64 } else { ms as u64 };
    if ms < 0 {
        push_char(s, '-');
    }
    push_u64(s, a / 1000);
    let r = a % 1000;
    if r != 0 {
        push_char(s, '.');
        push_char(s, digit_to_char(r / 100));
        if r % 100 != 0 {
            push_char(s, digit_to_char((r / 10) % 10));
            if r % 10 != 0 {
                push_char(s, digit_to_char(r % 10));
            }
        }
    }
    proof {
        let sign: Seq<char> = if ms < 0 { seq!['-'] } else { seq![] };
        let frac: Seq<char> = if r == 0 { seq![] } else { seq!['.'] + milli_fraction(r as nat) };
        assert(s@ =~= old(s)@ + (sign + nat_digits((a / 1000) as nat) + frac));
    }
}


/// The view of an optional `String`.
pub open spec fn opt_string_view(o: Option<String>) -> Option<Seq<char>> {
    match o {
        Some(s) => Some(s@),
        None => None,
    }
}

/// Whether `pat` occurs in `s` at index `i`.
pub open spec fn occurs_at(s: Seq<char>, pat: Seq<char>, i: int) -> bool {
    0 <= i && i + pat.len() <= s.len() && s.subrange(i, i + pat.len()) == pat
}

/// The first index at or after `from` where `pat` occurs in `s`.
pub open spec fn find_from(s: Seq<char>, pat: Seq<char>, from: int) -> Option<int>
    decreases s.len() + 1 - from,
{
    if from < 0 || from + pat.len() > s.len() {
        None
    } else if occurs_at(s, pat, from) {
        Some(from)
    } else {
        find_from(s, pat, from + 1)
    }
}

/// The first index where `pat` occurs in `s`, as `str::find` gives it.
pub open spec fn find(s: Seq<char>, pat: Seq<char>) -> Option<int> {
    find_from(s, pat, 0)
}

/// Whether `pat` occurs anywhere in `s`.
pub open spec fn contains(s: Seq<char>, pat: Seq<char>) -> bool {
    exists|i: int| occurs_at(s, pat, i)
}

pub open spec fn starts_with(s: Seq<char>, p: Seq<char>) -> bool {
    p.len() <= s.len() && s.take(p.len() as int) == p
}

pub open spec fn ends_with(s: Seq<char>, p: Seq<char>) -> bool {
    p.len() <= s.len() && s.skip(s.len() - p.len()) == p
}

/// The pieces of `s` between occurrences of `sep`, as `str::split(sep)`
/// yields them (always at least one piece).
pub open spec fn split_on(s: Seq<char>, sep: char) -> Seq<Seq<char>>
    decreases s.len(),
{
    if s.len() == 0 {
        seq![seq![]]
    } else {
        let rest = split_on(s.drop_last(), sep);
        if s.last() == sep {
            rest.push(seq![])
        } else {
            rest.update(rest.len() - 1, rest.last().push(s.last()))
        }
    }
}

/// The chars of `s` up to (not including) its first whitespace.
pub open spec fn until_ws(s: Seq<char>) -> Seq<char>
    decreases s.len(),
{
    if s.len() == 0 {
        s
    } else if is_ws(s[0]) {
        seq![]
    } else {
        seq![s[0]] + until_ws(s.drop_first())
    }
}

/// The first whitespace-separated word of `s`, as
/// `s.split_whitespace().next()` gives it.
pub open spec fn first_word(s: Seq<char>) -> Option<Seq<char>> {
    let t = trim_start(s);
    if t.len() == 0 { None } else { Some(until_ws(t)) }
}

pub open spec fn is_digit(c: char) -> bool {
    48 <= c as u32 <= 57
}

pub open spec fn all_digits(s: Seq<char>) -> bool {
    forall|i: int| 0 <= i < s.len() ==> is_digit(#[trigger] s[i])
}

/// The value of a string of decimal digits.
pub open spec fn digits_value(s: Seq<char>) -> nat
    decreases s.len(),
{
    if s.len() == 0 {
        0
    } else {
        digits_value(s.drop_last()) * 10 + ((s.last() as u32) - 48) as nat
    }
}

/// The value that `str::parse::<i64>` yields: an optional `+` or `-`, then
/// at least one decimal digit, the value within the range of `i64`.
pub open spec fn parse_i64(s: Seq<char>) -> Option<int> {
    let signed = s.len() > 0 && (s[0] == '+' || s[0] == '-');
    let body = if signed { s.drop_first() } else { s };
    let v: int = if signed && s[0] == '-' { -(digits_value(body) as int) } else { digits_value(body) as int };
    if body.len() > 0 && all_digits(body) && i64::MIN <= v <= i64::MAX {
        Some(v)
    } else {
        None
    }
}

/// A `String` holding exactly the given characters.
pub fn string_from_chars(v: &[char]) -> (s: String)
    ensures
        s@ == v@,
{
    let mut s = String::new();
    let mut i: usize = 0;
    while i < v.len()
        invariant
            i <= v@.len(),
            s@ == v@.take(i as int),
        decreases v@.len() - i,
    {
        push_char(&mut s, v[i]);
        assert(v@.take(i + 1) =~= v@.take(i as int).push(v@[i as int]));
        i = i + 1;
    }
    assert(v@.take(v@.len() as int) =~= v@);
    s
}

/// The characters `v[from..to]`.
pub fn slice_chars(v: &[char], from: usize, to: usize) -> (r: Vec<char>)
    requires
        from <= to <= v@.len(),
    ensures
        r@ == v@.subrange(from as int, to as int),
{
    let mut r: Vec<char> = Vec::new();
    let mut i = from;
    while i < to
        invariant
            from <= i <= to,
            to <= v@.len(),
            r@ == v@.subrange(from as int, i as int),
        decreases to - i,
    {
        r.push(v[i]);
        assert(r@ =~= v@.subrange(from as int, i + 1));
        i = i + 1;
    }
    r
}

/// Whether `pat` occurs in `s` at index `i`.
pub fn occurs_at_exec(s: &[char], pat: &[char], i: usize) -> (b: bool)
    ensures
        b == occurs_at(s@, pat@, i as int),
{
    if i > s.len() || pat.len() > s.len() - i {
        return false;
    }
    let n = s.len();
    let mut k: usize = 0;
    while k < pat.len()
        invariant
            n == s@.len(),
            k <= pat@.len(),
            i <= s@.len(),
            i + pat@.len() <= s@.len(),
            forall|j: int| 0 <= j < k ==> s@[i + j] == pat@[j],
        decreases pat@.len() - k,
    {
        if s[i + k] != pat[k] {
            assert(s@.subrange(i as int, i + pat@.len())[k as int] != pat@[k as int]);
            return false;
        }
        k = k + 1;
    }
    assert(s@.subrange(i as int, i + pat@.len()) =~= pat@);
    true
}

/// The first index where `pat` occurs in `s`.
pub fn find_exec(s: &[char], pat: &[char]) -> (r: Option<usize>)
    ensures
        r matches Some(i) ==> find(s@, pat@) == Some(i as int) && occurs_at(s@, pat@, i as int),
        r is None ==> find(s@, pat@) is None,
{
    if pat.len() == 0 {
        assert(occurs_at(s@, pat@, 0)) by {
            assert(s@.subrange(0, 0) =~= pat@);
        }
        return Some(0);
    }
    let mut i: usize = 0;
    while i < s.len() && pat.len() <= s.len() - i
        invariant
            i <= s@.len(),
            pat@.len() >= 1,
            find(s@, pat@) == find_from(s@, pat@, i as int),
        decreases s@.len() - i,
    {
        if occurs_at_exec(s, pat, i) {
            return Some(i);
        }
        i = i + 1;
    }
    None
}

/// Whether `pat` occurs anywhere in `s`.
pub fn contains_exec(s: &[char], pat: &[char]) -> (b: bool)
    ensures
        b == contains(s@, pat@),
{
    if pat.len() == 0 {
        assert(occurs_at(s@, pat@, 0)) by {
            assert(s@.subrange(0, 0) =~= pat@);
        }
        return true;
    }
    let mut i: usize = 0;
    while i < s.len() && pat.len() <= s.len() - i
        invariant
            i <= s@.len(),
            pat@.len() >= 1,
            forall|j: int| 0 <= j < i ==> !occurs_at(s@, pat@, j),
        decreases s@.len() - i,
    {
        if occurs_at_exec(s, pat, i) {
            return true;
        }
        i = i + 1;
    }
    assert forall|j: int| !occurs_at(s@, pat@, j) by {
        if j >= i as int {
            assert(!(j + pat@.len() <= s@.len()));
        }
    }
    false
}

pub fn starts_with_exec(s: &[char], p: &[char]) -> (b: bool)
    ensures
        b == starts_with(s@, p@),
{
    let b = occurs_at_exec(s, p, 0);
    proof {
        if p@.len() <= s@.len() {
            assert(s@.subrange(0, p@.len() as int) =~= s@.take(p@.len() as int));
        }
    }
    b
}

pub fn ends_with_exec(s: &[char], p: &[char]) -> (b: bool)
    ensures
        b == ends_with(s@, p@),
{
    if p.len() > s.len() {
        return false;
    }
    let b = occurs_at_exec(s, p, s.len() - p.len());
    proof {
        assert(s@.subrange(s@.len() - p@.len(), s@.len() as int) =~= s@.skip(s@.len() - p@.len()));
    }
    b
}

pub proof fn lemma_split_nonempty(s: Seq<char>, sep: char)
    ensures
        split_on(s, sep).len() >= 1,
    decreases s.len(),
{
    if s.len() > 0 {
        lemma_split_nonempty(s.drop_last(), sep);
    }
}

/// Splitting at a separator splits each side apart.
pub proof fn lemma_split_concat(x: Seq<char>, y: Seq<char>, sep: char)
    ensures
        split_on(x + seq![sep] + y, sep) == split_on(x, sep) + split_on(y, sep),
    decreases y.len(),
{
    if y.len() == 0 {
        assert(x + seq![sep] + y =~= x.push(sep));
        assert((x + seq![sep] + y).drop_last() =~= x);
        assert(split_on(y, sep) =~= seq![Seq::<char>::empty()]);
        assert(split_on(x, sep).push(seq![]) =~= split_on(x, sep) + split_on(y, sep));
    } else {
        let y0 = y.drop_last();
        let c = y.last();
        lemma_split_concat(x, y0, sep);
        lemma_split_nonempty(y0, sep);
        let whole = x + seq![sep] + y;
        assert(whole.drop_last() =~= x + seq![sep] + y0);
        assert(whole.last() == c);
        let rest = split_on(x, sep) + split_on(y0, sep);
        if c == sep {
            assert(rest.push(seq![]) =~= split_on(x, sep) + split_on(y0, sep).push(seq![]));
        } else {
            let ry = split_on(y0, sep);
            assert(rest.update(rest.len() - 1, rest.last().push(c)) =~= split_on(x, sep) + ry.update(
                ry.len() - 1,
                ry.last().push(c),
            ));
        }
    }
}

/// A text without the separator is a single piece.
pub proof fn lemma_split_plain(z: Seq<char>, sep: char)
    requires
        forall|k: int| 0 <= k < z.len() ==> #[trigger] z[k] != sep,
    ensures
        split_on(z, sep) == seq![z],
    decreases z.len(),
{
    if z.len() == 0 {
        assert(z =~= Seq::<char>::empty());
        assert(split_on(z, sep) =~= seq![z]);
    } else {
        let z0 = z.drop_last();
        assert forall|k: int| 0 <= k < z0.len() implies #[trigger] z0[k] != sep by {
            assert(z0[k] == z[k]);
        }
        lemma_split_plain(z0, sep);
        assert(z.drop_last() =~= z0);
        assert(z.last() != sep);
        let rest = split_on(z0, sep);
        assert(rest == seq![z0]);
        assert(split_on(z, sep) == rest.update(rest.len() - 1, rest.last().push(z.last())));
        assert(z0.push(z.last()) =~= z);
        assert(rest.update(0, z0.push(z.last())) =~= seq![z]);
    }
}

/// A text without whitespace is its own first word-run.
pub proof fn lemma_until_ws_plain(z: Seq<char>)
    requires
        forall|k: int| 0 <= k < z.len() ==> !is_ws(#[trigger] z[k]),
    ensures
        until_ws(z) == z,
    decreases z.len(),
{
    if z.len() > 0 {
        let z1 = z.drop_first();
        assert forall|k: int| 0 <= k < z1.len() implies !is_ws(#[trigger] z1[k]) by {
            assert(z1[k] == z[k + 1]);
        }
        lemma_until_ws_plain(z1);
        assert(seq![z[0]] + z1 =~= z);
    }
}

/// Leading zeros do not change the value of a digit string.
pub proof fn lemma_leading_zeros(k: nat, d: Seq<char>)
    ensures
        digits_value(Seq::new(k, |i: int| '0') + d) == digits_value(d),
    decreases k + d.len(),
{
    let z = Seq::new(k, |i: int| '0');
    if d.len() == 0 {
        assert(z + d =~= z);
        if k > 0 {
            let z1 = Seq::new((k - 1) as nat, |i: int| '0');
            lemma_leading_zeros((k - 1) as nat, d);
            assert(z1 + d =~= z1);
            assert(z.drop_last() =~= z1);
            assert(z.last() == '0');
            assert(('0' as u32) - 48 == 0);
        }
    } else {
        lemma_leading_zeros(k, d.drop_last());
        assert((z + d).drop_last() =~= z + d.drop_last());
        assert((z + d).last() == d.last());
    }
}

/// A zero-padded decimal rendering reads back as the number.
pub proof fn lemma_padded_parse(n: nat, width: nat)
    requires
        n <= i64::MAX,
    ensures
        parse_i64(padded_digits(n, width)) == Some(n as int),
        padded_digits(n, width).len() > 0,
        forall|k: int| 0 <= k < padded_digits(n, width).len() ==> is_digit(#[trigger] padded_digits(n, width)[k]),
{
    lemma_nat_digits_value(n);
    let d = nat_digits(n);
    let p = padded_digits(n, width);
    if d.len() < width {
        let z = Seq::new((width - d.len()) as nat, |i: int| '0');
        lemma_leading_zeros((width - d.len()) as nat, d);
        assert(p == z + d);
        assert forall|k: int| 0 <= k < p.len() implies is_digit(#[trigger] p[k]) by {
            if k < z.len() {
                assert(p[k] == '0');
            } else {
                assert(p[k] == d[k - z.len()]);
            }
        }
    }
    assert(is_digit(p[0]));
    assert(p[0] != '+' && p[0] != '-');
}

/// A number below a thousand has at most three digits.
pub proof fn lemma_nat_digits_len3(n: nat)
    requires
        n < 1000,
    ensures
        nat_digits(n).len() <= 3,
{
    if n >= 10 {
        assert(nat_digits(n).len() == nat_digits(n / 10).len() + 1);
        if n / 10 >= 10 {
            assert(nat_digits(n / 10).len() == nat_digits(n / 10 / 10).len() + 1);
            assert(n / 10 / 10 < 10);
            assert(nat_digits(n / 10 / 10).len() == 1);
        } else {
            assert(nat_digits(n / 10).len() == 1);
        }
    }
}

/// The pieces of `s` between occurrences of `sep`.
pub fn split_exec(s: &[char], sep: char) -> (r: Vec<Vec<char>>)
    ensures
        r@.len() == split_on(s@, sep).len(),
        forall|k: int| 0 <= k < r@.len() ==> #[trigger] r@[k]@ == split_on(s@, sep)[k],
{
    let mut r: Vec<Vec<char>> = Vec::new();
    r.push(Vec::new());
    let mut i: usize = 0;
    assert(s@.take(0) =~= Seq::<char>::empty());
    while i < s.len()
        invariant
            i <= s@.len(),
            r@.len() == split_on(s@.take(i as int), sep).len(),
            r@.len() >= 1,
            forall|k: int| 0 <= k < r@.len() ==> #[trigger] r@[k]@ == split_on(s@.take(i as int), sep)[k],
        decreases s@.len() - i,
    {
        let c = s[i];
        let ghost prev = split_on(s@.take(i as int), sep);
        assert(s@.take(i + 1).drop_last() =~= s@.take(i as int));
        assert(s@.take(i + 1).last() == c);
        if c == sep {
            r.push(Vec::new());
        } else {
            let last = r.len() - 1;
            let mut piece = r.pop().unwrap();
            piece.push(c);
            r.push(piece);
            assert(r@[last as int]@ == prev.last().push(c));
        }
        i = i + 1;
    }
    assert(s@.take(s@.len() as int) =~= s@);
    r
}

/// The first whitespace-separated word of `s`.
pub fn first_word_exec(s: &[char]) -> (r: Option<Vec<char>>)
    ensures
        r matches Some(w) ==> first_word(s@) == Some(w@),
        r is None ==> first_word(s@) is None,
{
    let mut i: usize = 0;
    assert(s@.skip(0) =~= s@);
    while i < s.len() && is_whitespace(s[i])
        invariant
            i <= s@.len(),
            trim_start(s@) == trim_start(s@.skip(i as int)),
        decreases s@.len() - i,
    {
        assert(s@.skip(i as int).drop_first() =~= s@.skip(i + 1));
        i = i + 1;
    }
    if i == s.len() {
        assert(s@.skip(i as int) =~= Seq::<char>::empty());
        return None;
    }
    let start = i;
    let ghost t = s@.skip(start as int);
    assert(trim_start(t) == t);
    let mut j = start;
    while j < s.len() && !is_whitespace(s[j])
        invariant
            start <= j <= s@.len(),
            t == s@.skip(start as int),
            until_ws(t) == s@.subrange(start as int, j as int) + until_ws(s@.skip(j as int)),
        decreases s@.len() - j,
    {
        let ghost u = s@.skip(j as int);
        assert(u.drop_first() =~= s@.skip(j + 1));
        assert(until_ws(u) == seq![u[0]] + until_ws(u.drop_first()));
        assert(s@.subrange(start as int, j + 1) =~= s@.subrange(start as int, j as int) + seq![u[0]]);
        j = j + 1;
    }
    proof {
        let u = s@.skip(j as int);
        if j < s@.len() {
            assert(is_ws(u[0]));
        } else {
            assert(u.len() == 0);
        }
        assert(until_ws(u) =~= Seq::<char>::empty());
        assert(until_ws(t) =~= s@.subrange(start as int, j as int));
    }
    Some(slice_chars(s, start, j))
}

/// The decimal rendering of `n` is all digits and reads back as `n`; so two
/// numbers with the same rendering are equal.
pub proof fn lemma_nat_digits_value(n: nat)
    ensures
        all_digits(nat_digits(n)),
        digits_value(nat_digits(n)) == n,
        nat_digits(n).len() > 0,
    decreases n,
{
    let d = (n % 10) as int;
    assert((digit_char(d) as u32) - 48 == d) by {
        assert('0' as u32 == 48 && '1' as u32 == 49 && '2' as u32 == 50 && '3' as u32 == 51);
        assert('4' as u32 == 52 && '5' as u32 == 53 && '6' as u32 == 54 && '7' as u32 == 55);
        assert('8' as u32 == 56 && '9' as u32 == 57);
    }
    if n >= 10 {
        lemma_nat_digits_value(n / 10);
        let p = nat_digits(n / 10);
        assert(nat_digits(n).drop_last() =~= p);
        assert(nat_digits(n).last() == digit_char(d));
        assert forall|i: int| 0 <= i < nat_digits(n).len() implies is_digit(#[trigger] nat_digits(n)[i]) by {
            if i < p.len() {
                assert(nat_digits(n)[i] == p[i]);
            }
        }
        assert(digits_value(nat_digits(n)) == digits_value(p) * 10 + d);
        assert((n / 10) * 10 + n % 10 == n);
    } else {
        assert(nat_digits(n).drop_last() =~= Seq::<char>::empty());
        assert(digits_value(nat_digits(n)) == digits_value(Seq::<char>::empty()) * 10 + d);
    }
}

/// Distinct numbers have distinct decimal renderings.
pub proof fn lemma_nat_digits_injective(a: nat, b: nat)
    ensures
        nat_digits(a) == nat_digits(b) ==> a == b,
{
    lemma_nat_digits_value(a);
    lemma_nat_digits_value(b);
}

pub proof fn lemma_digits_value_bound(s: Seq<char>)
    requires
        all_digits(s),
    ensures
        digits_value(s) < pow10(s.len()),
    decreases s.len(),
{
    if s.len() > 0 {
        lemma_digits_value_bound(s.drop_last());
    }
}

pub open spec fn pow10(n: nat) -> nat
    decreases n,
{
    if n == 0 { 1 } else { 10 * pow10((n - 1) as nat) }
}

/// Parses a decimal integer as `str::parse::<i64>` does.
#[verifier::loop_isolation(false)]
pub fn parse_i64_exec(s: &[char]) -> (r: Option<i64>)
    ensures
        r matches Some(v) ==> parse_i64(s@) == Some(v as int),
        r is None ==> parse_i64(s@) is None,
{
    let signed = s.len() > 0 && (s[0] == '+' || s[0] == '-');
    let neg = signed && s[0] == '-';
    let start: usize = if signed { 1 } else { 0 };
    let ghost body = if signed { s@.drop_first() } else { s@ };
    assert(body =~= s@.skip(start as int));
    if start == s.len() {
        return None;
    }
    // magnitude accumulated while it stays within 2^63
    let limit: u64 = 0x8000_0000_0000_0000;
    let mut acc: u64 = 0;
    let mut i = start;
    while i < s.len()
        invariant
            start <= i <= s@.len(),
            body == s@.skip(start as int),
            acc <= limit,
            acc == digits_value(s@.subrange(start as int, i as int)),
            all_digits(s@.subrange(start as int, i as int)),
        decreases s@.len() - i,
    {
        let c = s[i];
        let cu = c as u32;
        if cu < 48 || cu > 57 {
            assert(!all_digits(body)) by {
                assert(body[i - start] == c);
                assert(!is_digit(body[i - start]));
            }
            return None;
        }
        let d = (cu - 48) as u64;
        assert(s@.subrange(start as int, i + 1).drop_last() =~= s@.subrange(start as int, i as int));
        if acc > (limit - d) / 10 {
            // the value exceeds 2^63 and so lies outside i64 whatever the sign
            proof {
                let pre = s@.subrange(start as int, i + 1);
                assert(digits_value(pre) == acc * 10 + d);
                assert(acc * 10 + d > 0x8000_0000_0000_0000) by (nonlinear_arith)
                    requires acc > (0x8000_0000_0000_0000 - d) / 10, d <= 9;
                lemma_digits_value_monotone(s@.subrange(start as int, s@.len() as int), (i + 1 - start) as nat);
                if all_digits(body) {
                    assert(s@.subrange(start as int, s@.len() as int) =~= body);
                    assert(body.take((i + 1 - start) as int) =~= pre);
                }
            }
            return None;
        }
        acc = acc * 10 + d;
        i = i + 1;
    }
    assert(s@.subrange(start as int, s@.len() as int) =~= body);
    if neg {
        if acc == limit {
            Some(i64::MIN)
        } else {
            Some(-(acc as i64))
        }
    } else {
        if acc > 0x7FFF_FFFF_FFFF_FFFF {
            None
        } else {
            Some(acc as i64)
        }
    }
}

/// A longer digit string has at least the value of its prefixes.
proof fn lemma_digits_value_monotone(s: Seq<char>, k: nat)
    requires
        k <= s.len(),
    ensures
        all_digits(s) ==> digits_value(s.take(k as int)) <= digits_value(s),
    decreases s.len(),
{
    if k < s.len() {
        assert(s.drop_last().take(k as int) =~= s.take(k as int));
        lemma_digits_value_monotone(s.drop_last(), k);
    } else {
        assert(s.take(k as int) =~= s);
    }
}


/// Whether two string slices hold the same characters.
pub fn str_eq(a: &str, b: &str) -> (r: bool)
    ensures
        r == (a@ == b@),
{
    let x = chars_of(a);
    let y = chars_of(b);
    if x.len() != y.len() {
        return false;
    }
    let mut i: usize = 0;
    while i < x.len()
        invariant
            x@ == a@,
            y@ == b@,
            x@.len() == y@.len(),
            i <= x@.len(),
            forall|k: int| 0 <= k < i ==> x@[k] == y@[k],
        decreases x@.len() - i,
    {
        if x[i] != y[i] {
            return false;
        }
        i = i + 1;
    }
    assert(x@ =~= y@);
    true
}

/// `s` without its trailing `c` characters.
pub open spec fn trim_end_char(s: Seq<char>, c: char) -> Seq<char>
    decreases s.len(),
{
    if s.len() > 0 && s.last() == c {
        trim_end_char(s.drop_last(), c)
    } else {
        s
    }
}

/// Drops trailing `c` characters from `v`.
pub fn pop_trailing(v: &mut Vec<char>, c: char)
    ensures
        final(v)@ == trim_end_char(old(v)@, c),
{
    while v.len() > 0 && v[v.len() - 1] == c
        invariant
            trim_end_char(v@, c) == trim_end_char(old(v)@, c),
        decreases v@.len(),
    {
        let ghost before = v@;
        v.pop();
        assert(v@ =~= before.drop_last());
    }
}


proof fn lemma_trim_end_of_take(s: Seq<char>, b: int)
    requires
        0 <= b <= s.len(),
        forall|k: int| b <= k < s.len() ==> is_ws(#[trigger] s[k]),
    ensures
        trim_end(s) == trim_end(s.take(b)),
    decreases s.len() - b,
{
    if b < s.len() {
        assert(s.drop_last().take(b) =~= s.take(b));
        lemma_trim_end_of_take(s.drop_last(), b);
    } else {
        assert(s.take(b) =~= s);
    }
}

proof fn lemma_trim_start_skip(s: Seq<char>, a: int)
    requires
        0 <= a <= s.len(),
        forall|k: int| 0 <= k < a ==> is_ws(#[trigger] s[k]),
    ensures
        trim_start(s) == trim_start(s.skip(a)),
    decreases a,
{
    if a > 0 {
        assert(s.drop_first().skip(a - 1) =~= s.skip(a));
        assert(is_ws(s[0]));
        lemma_trim_start_skip(s.drop_first(), a - 1);
    } else {
        assert(s.skip(0) =~= s);
    }
}

/// The bounds `(a, b)` such that `v[a..b]` is `v` trimmed of whitespace.
pub fn trim_range(v: &[char]) -> (r: (usize, usize))
    ensures
        r.0 <= r.1 <= v@.len(),
        trim(v@) == v@.subrange(r.0 as int, r.1 as int),
{
    let mut a: usize = 0;
    while a < v.len() && is_whitespace(v[a])
        invariant
            a <= v@.len(),
            forall|k: int| 0 <= k < a ==> is_ws(#[trigger] v@[k]),
        decreases v@.len() - a,
    {
        a = a + 1;
    }
    proof {
        lemma_trim_start_skip(v@, a as int);
        let t = v@.skip(a as int);
        if t.len() > 0 {
            assert(!is_ws(t[0]));
        }
        assert(trim_start(t) == t);
    }
    let mut b: usize = v.len();
    while b > a && is_whitespace(v[b - 1])
        invariant
            a <= b <= v@.len(),
            forall|k: int| b <= k < v@.len() ==> is_ws(#[trigger] v@[k]),
        decreases b,
    {
        b = b - 1;
    }
    proof {
        let t = v@.skip(a as int);
        let bb = (b - a) as int;
        assert forall|k: int| bb <= k < t.len() implies is_ws(#[trigger] t[k]) by {
            assert(t[k] == v@[a + k]);
        }
        lemma_trim_end_of_take(t, bb);
        let u = t.take(bb);
        if u.len() > 0 {
            assert(u.last() == v@[b - 1]);
        }
        assert(trim_end(u) == u);
        assert(u =~= v@.subrange(a as int, b as int));
    }
    (a, b)
}

/// `s` trimmed of whitespace, as `str::trim` returns it.
pub fn trim_str(s: &str) -> (r: &str)
    ensures
        r@ == trim(s@),
{
    let cs = chars_of(s);
    let (a, b) = trim_range(cs.as_slice());
    s.substring_char(a, b)
}

/// The ASCII lower-case form of a character; other characters unchanged.
pub open spec fn ascii_lower(c: char) -> char {
    if 65 <= c as u32 <= 90 { ((c as u32) + 32) as char } else { c }
}

/// Lower-cases the ASCII letters of `s`, as `str::to_ascii_lowercase` does.
pub fn to_ascii_lowercase(s: &str) -> (r: String)
    ensures
        r@ == s@.map_values(|c: char| ascii_lower(c)),
{
    let cs = chars_of(s);
    let mut r = String::new();
    let mut i: usize = 0;
    while i < cs.len()
        invariant
            cs@ == s@,
            i <= cs@.len(),
            r@ == s@.take(i as int).map_values(|c: char| ascii_lower(c)),
        decreases cs@.len() - i,
    {
        let c = cs[i];
        let u = c as u32;
        let l = if 65 <= u && u <= 90 { ((u + 32) as u8) as char } else { c };
        assert(l == ascii_lower(c));
        push_char(&mut r, l);
        assert(s@.take(i + 1).map_values(|c: char| ascii_lower(c)) =~= s@.take(i as int).map_values(
            |c: char| ascii_lower(c),
        ).push(ascii_lower(c)));
        i = i + 1;
    }
    assert(s@.take(cs@.len() as int) =~= s@);
    r
}

/// The Unicode control characters (general category `Cc`), which
/// `char::is_control` tests.
pub open spec fn is_control(c: char) -> bool {
    c as u32 <= 0x1F || (0x7F <= c as u32 <= 0x9F)
}


/// Filtering a sequence extended by one element.
pub proof fn lemma_filter_push<A>(s: Seq<A>, pred: spec_fn(A) -> bool, e: A)
    ensures
        s.push(e).filter(pred) == (if pred(e) { s.filter(pred).push(e) } else { s.filter(pred) }),
{
    reveal(Seq::filter);
    assert(s.push(e).drop_last() =~= s);
}

/// How many bytes UTF-8 spends on a character.
pub open spec fn utf8_len(c: char) -> nat {
    let v = c as u32;
    if v < 0x80 {
        1
    } else if v < 0x800 {
        2
    } else if v < 0x10000 {
        3
    } else {
        4
    }
}

/// The UTF-8 length of a text in bytes.
pub open spec fn byte_len(s: Seq<char>) -> nat
    decreases s.len(),
{
    if s.len() == 0 {
        0
    } else {
        utf8_len(s[0]) + byte_len(s.skip(1))
    }
}

/// How many leading characters fit in `n` bytes.
pub open spec fn prefix_chars(s: Seq<char>, n: nat) -> nat
    decreases s.len(),
{
    if s.len() == 0 || utf8_len(s[0]) > n {
        0
    } else {
        1 + prefix_chars(s.skip(1), (n - utf8_len(s[0])) as nat)
    }
}

/// Whether byte offset `n` of the text starts a character (or is its end).
pub open spec fn is_char_boundary(s: Seq<char>, n: nat) -> bool {
    exists|k: int| 0 <= k <= s.len() && #[trigger] byte_len(s.take(k)) == n
}

fn utf8_width(c: char) -> (w: usize)
    ensures
        w == utf8_len(c),
{
    let v = c as u32;
    if v < 0x80 {
        1
    } else if v < 0x800 {
        2
    } else if v < 0x10000 {
        3
    } else {
        4
    }
}

/// The number of leading characters of `cs` that fit in `n` bytes.
pub fn prefix_char_count(cs: &[char], n: usize) -> (k: usize)
    ensures
        k == prefix_chars(cs@, n as nat),
        k <= cs@.len(),
{
    let mut i: usize = 0;
    let mut left: usize = n;
    let mut done = false;
    assert(cs@.skip(0) =~= cs@);
    while i < cs.len() && !done
        invariant
            i <= cs@.len(),
            left <= n,
            prefix_chars(cs@, n as nat) == i + prefix_chars(cs@.skip(i as int), left as nat),
            done ==> prefix_chars(cs@.skip(i as int), left as nat) == 0,
        decreases cs@.len() - i + (if done { 0int } else { 1int }),
    {
        let w = utf8_width(cs[i]);
        let ghost rest = cs@.skip(i as int);
        assert(rest[0] == cs@[i as int]);
        if w > left {
            done = true;
        } else {
            assert(rest.skip(1) =~= cs@.skip(i + 1));
            left = left - w;
            i = i + 1;
        }
    }
    if !done {
        assert(cs@.skip(i as int).len() == 0);
    }
    i
}

/// A text is as long in bytes as its head and its tail together.
pub proof fn lemma_byte_len_split(s: Seq<char>, d: int)
    requires
        0 <= d <= s.len(),
    ensures
        byte_len(s) == byte_len(s.take(d)) + byte_len(s.skip(d)),
        d > 0 ==> byte_len(s.take(d)) >= 1,
    decreases d,
{
    if d == 0 {
        assert(s.take(0).len() == 0);
        assert(s.skip(0) =~= s);
    } else {
        lemma_byte_len_split(s.skip(1), d - 1);
        assert(s.take(d).skip(1) =~= s.skip(1).take(d - 1));
        assert(s.skip(1).skip(d - 1) =~= s.skip(d));
        assert(s.take(d)[0] == s[0]);
    }
}

/// A text that fits in `n` bytes fits whole.
pub proof fn lemma_prefix_all(s: Seq<char>, n: nat)
    requires
        byte_len(s) <= n,
    ensures
        prefix_chars(s, n) == s.len(),
    decreases s.len(),
{
    if s.len() > 0 {
        lemma_prefix_all(s.skip(1), (n - utf8_len(s[0])) as nat);
    }
}

/// The leading characters of a text that take the first `min(n, its byte
/// length)` bytes, when that offset is a character boundary.
pub proof fn lemma_byte_prefix(s: Seq<char>, n: nat)
    requires
        is_char_boundary(s, if byte_len(s) < n { byte_len(s) } else { n }),
    ensures
        byte_len(s.take(prefix_chars(s, n) as int)) == (if byte_len(s) < n { byte_len(s) } else { n }),
        prefix_chars(s, n) <= s.len(),
{
    lemma_prefix_chars_len(s, n);
    if byte_len(s) < n {
        lemma_prefix_all(s, n);
        assert(s.take(s.len() as int) =~= s);
    } else {
        lemma_prefix_at_boundary(s, n);
    }
}

/// No more characters fit than the text has.
pub proof fn lemma_prefix_chars_len(s: Seq<char>, n: nat)
    ensures
        prefix_chars(s, n) <= s.len(),
    decreases s.len(),
{
    if s.len() > 0 && utf8_len(s[0]) <= n {
        lemma_prefix_chars_len(s.skip(1), (n - utf8_len(s[0])) as nat);
    }
}

/// When byte `n` is a character boundary within the text, the characters
/// that fit in `n` bytes take exactly `n` bytes.
pub proof fn lemma_prefix_at_boundary(s: Seq<char>, n: nat)
    requires
        is_char_boundary(s, n),
    ensures
        byte_len(s.take(prefix_chars(s, n) as int)) == n,
    decreases s.len(),
{
    let k = choose|k: int| 0 <= k <= s.len() && #[trigger] byte_len(s.take(k)) == n;
    if n == 0 {
        assert(s.take(0).len() == 0);
        if s.len() > 0 {
            assert(utf8_len(s[0]) >= 1);
        }
    } else {
        assert(k > 0) by {
            if k == 0 {
                assert(s.take(0).len() == 0);
            }
        }
        let w = utf8_len(s[0]);
        assert(s.take(k)[0] == s[0]);
        assert(s.take(k).skip(1) =~= s.skip(1).take(k - 1));
        assert(byte_len(s.take(k)) == w + byte_len(s.skip(1).take(k - 1)));
        assert(is_char_boundary(s.skip(1), (n - w) as nat)) by {
            assert(byte_len(s.skip(1).take(k - 1)) == n - w);
        }
        lemma_prefix_at_boundary(s.skip(1), (n - w) as nat);
        let p = prefix_chars(s.skip(1), (n - w) as nat);
        lemma_prefix_chars_len(s.skip(1), (n - w) as nat);
        assert(prefix_chars(s, n) == 1 + p);
        assert(s.take(1 + p as int)[0] == s[0]);
        assert(s.take(1 + p as int).skip(1) =~= s.skip(1).take(p as int));
    }
}

} // verus!
