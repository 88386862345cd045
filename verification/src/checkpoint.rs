//! Episode checkpoints: the one-line summary of what changed since the last
//! checkpoint, and which automatic checkpoints the retention policy drops.

use vstd::prelude::*;

use crate::text::{chars_of, int_digits, nat_digits, push_char, push_i64, push_str, push_u64, str_eq};

verus! {

/// A shot of a checkpoint's shot list: its `id` (when it has a string one)
/// and its canonical JSON text.
#[derive(Debug, Clone)]
pub struct ShotEntry {
    pub id: Option<String>,
    pub text: String,
}

pub type ShotModel = (Option<Seq<char>>, Seq<char>);

pub open spec fn shot_model(e: ShotEntry) -> ShotModel {
    (crate::text::opt_string_view(e.id), e.text@)
}

pub open spec fn shots_model(v: Seq<ShotEntry>) -> Seq<ShotModel> {
    v.map_values(|e: ShotEntry| shot_model(e))
}

/// The position of `k` among the keys of an association list.
pub open spec fn key_index(m: Seq<(Seq<char>, Seq<char>)>, k: Seq<char>) -> Option<int>
    decreases m.len(),
{
    if m.len() == 0 {
        None
    } else if m.last().0 == k {
        Some(m.len() - 1)
    } else {
        key_index(m.drop_last(), k)
    }
}

/// Shots keyed by id, the last shot of an id winning, ids in order of first
/// appearance; shots without an id are left out.
pub open spec fn by_id(shots: Seq<ShotModel>) -> Seq<(Seq<char>, Seq<char>)>
    decreases shots.len(),
{
    if shots.len() == 0 {
        seq![]
    } else {
        let m = by_id(shots.drop_last());
        match shots.last().0 {
            None => m,
            Some(k) => match key_index(m, k) {
                Some(i) => m.update(i, (k, shots.last().1)),
                None => m.push((k, shots.last().1)),
            },
        }
    }
}

pub open spec fn has_key(m: Seq<(Seq<char>, Seq<char>)>, k: Seq<char>) -> bool {
    key_index(m, k) is Some
}

proof fn lemma_key_index(m: Seq<(Seq<char>, Seq<char>)>, k: Seq<char>)
    ensures
        key_index(m, k) matches Some(i) ==> 0 <= i < m.len() && m[i].0 == k,
    decreases m.len(),
{
    if m.len() > 0 {
        lemma_key_index(m.drop_last(), k);
    }
}

/// The entries whose key `b` lacks.
pub open spec fn missing_from(b: Seq<(Seq<char>, Seq<char>)>) -> spec_fn((Seq<char>, Seq<char>)) -> bool {
    |kv: (Seq<char>, Seq<char>)| !has_key(b, kv.0)
}

/// The entries whose key `b` has with a different value.
pub open spec fn changed_in(b: Seq<(Seq<char>, Seq<char>)>) -> spec_fn((Seq<char>, Seq<char>)) -> bool {
    |kv: (Seq<char>, Seq<char>)| has_key(b, kv.0) && b[key_index(b, kv.0)->0].1 != kv.1
}

/// Ids present now but not before.
pub open spec fn added_count(prev: Seq<ShotModel>, cur: Seq<ShotModel>) -> nat {
    by_id(cur).filter(missing_from(by_id(prev))).len()
}

/// Ids present before but not now.
pub open spec fn deleted_count(prev: Seq<ShotModel>, cur: Seq<ShotModel>) -> nat {
    by_id(prev).filter(missing_from(by_id(cur))).len()
}

/// Ids present in both whose shot text differs.
pub open spec fn modified_count(prev: Seq<ShotModel>, cur: Seq<ShotModel>) -> nat {
    by_id(cur).filter(changed_in(by_id(prev))).len()
}

/// `parts` joined with `sep`.
pub open spec fn joined(parts: Seq<Seq<char>>, sep: Seq<char>) -> Seq<char>
    decreases parts.len(),
{
    if parts.len() == 0 {
        seq![]
    } else if parts.len() == 1 {
        parts[0]
    } else {
        joined(parts.drop_last(), sep) + sep + parts.last()
    }
}

pub open spec fn count_part(n: nat, label: Seq<char>) -> Seq<Seq<char>> {
    if n > 0 { seq![label + seq![' '] + nat_digits(n) + " 个分镜"@] } else { seq![] }
}

/// The shot half of a change summary: `新增 1 个分镜、修改 2 个分镜（共 5）`.
pub open spec fn shot_diff_text(prev: Seq<ShotModel>, cur: Seq<ShotModel>) -> Option<Seq<char>> {
    let parts = count_part(added_count(prev, cur), "新增"@) + count_part(deleted_count(prev, cur), "删除"@)
        + count_part(modified_count(prev, cur), "修改"@);
    if parts.len() == 0 {
        None
    } else {
        Some(joined(parts, "、"@) + "（共 "@ + nat_digits(cur.len()) + "）"@)
    }
}

fn find_key(m: &Vec<(String, String)>, k: &str) -> (r: Option<usize>)
    ensures
        r matches Some(i) ==> key_index(m.deep_view(), k@) == Some(i as int) && i < m@.len() && m@[i as int].0@
            == k@,
        r is None ==> key_index(m.deep_view(), k@) is None,
{
    proof {
        lemma_key_index(m.deep_view(), k@);
    }
    let mut i = m.len();
    let ghost mv = m.deep_view();
    assert(mv.take(i as int) =~= mv);
    while i > 0
        invariant
            i <= m@.len(),
            mv == m.deep_view(),
            key_index(mv, k@) == key_index(mv.take(i as int), k@),
        decreases i,
    {
        let ghost t = mv.take(i as int);
        assert(t.drop_last() =~= mv.take(i - 1));
        if str_eq(m[i - 1].0.as_str(), k) {
            return Some(i - 1);
        }
        i = i - 1;
    }
    None
}

fn group_by_id(shots: &[ShotEntry]) -> (m: Vec<(String, String)>)
    ensures
        m.deep_view() == by_id(shots_model(shots@)),
{
    let mut m: Vec<(String, String)> = Vec::new();
    let mut i: usize = 0;
    while i < shots.len()
        invariant
            i <= shots@.len(),
            m.deep_view() == by_id(shots_model(shots@.take(i as int))),
        decreases shots@.len() - i,
    {
        let ghost before = m.deep_view();
        assert(shots_model(shots@.take(i + 1)).drop_last() =~= shots_model(shots@.take(i as int)));
        assert(shots_model(shots@.take(i + 1)).last() == shot_model(shots@[i as int]));
        match &shots[i].id {
            None => {},
            Some(k) => {
                match find_key(&m, k.as_str()) {
                    Some(j) => {
                        m.set(j, (k.clone(), shots[i].text.clone()));
                        assert(m.deep_view() =~= before.update(j as int, (k@, shots@[i as int].text@)));
                    },
                    None => {
                        m.push((k.clone(), shots[i].text.clone()));
                        assert(m.deep_view() =~= before.push((k@, shots@[i as int].text@)));
                    },
                }
            },
        }
        i = i + 1;
    }
    assert(shots@.take(shots@.len() as int) =~= shots@);
    m
}

/// Counts the entries of `a` whose key `b` lacks.
fn count_missing(a: &Vec<(String, String)>, b: &Vec<(String, String)>) -> (n: u64)
    ensures
        n == a.deep_view().filter(missing_from(b.deep_view())).len(),
{
    let ghost f = missing_from(b.deep_view());
    let ghost av = a.deep_view();
    let mut n: u64 = 0;
    let mut i: usize = 0;
    assert(av.take(0).filter(f) =~= Seq::<(Seq<char>, Seq<char>)>::empty()) by {
        reveal(Seq::filter);
    }
    while i < a.len()
        invariant
            av == a.deep_view(),
            f == missing_from(b.deep_view()),
            i <= a@.len(),
            n == av.take(i as int).filter(f).len(),
            n <= i,
        decreases a@.len() - i,
    {
        let missing = find_key(b, a[i].0.as_str()).is_none();
        proof {
            assert(av[i as int].0 == a@[i as int].0@);
            assert(missing == f(av[i as int]));
            assert(av.take(i + 1) =~= av.take(i as int).push(av[i as int]));
            crate::text::lemma_filter_push(av.take(i as int), f, av[i as int]);
        }
        if missing {
            n = n + 1;
        }
        i = i + 1;
    }
    assert(av.take(a@.len() as int) =~= av);
    n
}

/// Counts the entries of `cur` whose key `prev` has with another value.
fn count_modified(cur: &Vec<(String, String)>, prev: &Vec<(String, String)>) -> (n: u64)
    ensures
        n == cur.deep_view().filter(changed_in(prev.deep_view())).len(),
{
    let ghost pv = prev.deep_view();
    let ghost f = changed_in(pv);
    let ghost cv = cur.deep_view();
    let mut n: u64 = 0;
    let mut i: usize = 0;
    assert(cv.take(0).filter(f) =~= Seq::<(Seq<char>, Seq<char>)>::empty()) by {
        reveal(Seq::filter);
    }
    while i < cur.len()
        invariant
            cv == cur.deep_view(),
            pv == prev.deep_view(),
            f == changed_in(pv),
            i <= cur@.len(),
            n == cv.take(i as int).filter(f).len(),
            n <= i,
        decreases cur@.len() - i,
    {
        let hit = match find_key(prev, cur[i].0.as_str()) {
            Some(j) => !str_eq(prev[j].1.as_str(), cur[i].1.as_str()),
            None => false,
        };
        proof {
            assert(cv[i as int].0 == cur@[i as int].0@);
            assert(cv[i as int].1 == cur@[i as int].1@);
            assert(hit == f(cv[i as int]));
            assert(cv.take(i + 1) =~= cv.take(i as int).push(cv[i as int]));
            crate::text::lemma_filter_push(cv.take(i as int), f, cv[i as int]);
        }
        if hit {
            n = n + 1;
        }
        i = i + 1;
    }
    assert(cv.take(cur@.len() as int) =~= cv);
    n
}

fn push_part(out: &mut String, first: &mut bool, n: u64, label: &str)
    ensures
        n > 0 ==> !*final(first),
        n == 0 ==> *final(first) == *old(first) && final(out)@ == old(out)@,
        n > 0 ==> final(out)@ == old(out)@ + (if *old(first) { seq![] } else { "、"@ }) + label@ + seq![' ']
            + nat_digits(n as nat) + " 个分镜"@,
{
    if n > 0 {
        if !*first {
            push_str(out, "、");
        }
        push_str(out, label);
        push_char(out, ' ');
        push_u64(out, n);
        push_str(out, " 个分镜");
        *first = false;
    }
}

proof fn lemma_joined_push(parts: Seq<Seq<char>>, sep: Seq<char>, p: Seq<char>)
    ensures
        joined(parts.push(p), sep) == if parts.len() == 0 { p } else { joined(parts, sep) + sep + p },
{
    assert(parts.push(p).drop_last() =~= parts);
}

/// The shot half of a change summary (see `shot_diff_text`); `None` when
/// no shot was added, deleted or modified.
pub fn diff_shots(prev: &[ShotEntry], cur: &[ShotEntry]) -> (r: Option<String>)
    requires
        cur@.len() <= u64::MAX,
    ensures
        (match r {
            Some(s) => Some(s@),
            None => None,
        }) == shot_diff_text(shots_model(prev@), shots_model(cur@)),
{
    let pm = group_by_id(prev);
    let cm = group_by_id(cur);
    let added = count_missing(&cm, &pm);
    let deleted = count_missing(&pm, &cm);
    let modified = count_modified(&cm, &pm);
    let mut out = String::new();
    let mut first = true;
    let ghost parts0: Seq<Seq<char>> = seq![];
    push_part(&mut out, &mut first, added, "新增");
    let ghost parts1 = parts0 + count_part(added as nat, "新增"@);
    proof {
        lemma_joined_push(parts0, "、"@, "新增"@ + seq![' '] + nat_digits(added as nat) + " 个分镜"@);
        assert(out@ =~= joined(parts1, "、"@));
        assert(first == (parts1.len() == 0));
    }
    push_part(&mut out, &mut first, deleted, "删除");
    let ghost parts2 = parts1 + count_part(deleted as nat, "删除"@);
    proof {
        if deleted > 0 {
            lemma_joined_push(parts1, "、"@, "删除"@ + seq![' '] + nat_digits(deleted as nat) + " 个分镜"@);
            assert(parts2 =~= parts1.push("删除"@ + seq![' '] + nat_digits(deleted as nat) + " 个分镜"@));
        } else {
            assert(parts2 =~= parts1);
        }
        assert(out@ =~= joined(parts2, "、"@));
        assert(first == (parts2.len() == 0));
    }
    push_part(&mut out, &mut first, modified, "修改");
    let ghost parts3 = parts2 + count_part(modified as nat, "修改"@);
    proof {
        if modified > 0 {
            lemma_joined_push(parts2, "、"@, "修改"@ + seq![' '] + nat_digits(modified as nat) + " 个分镜"@);
            assert(parts3 =~= parts2.push("修改"@ + seq![' '] + nat_digits(modified as nat) + " 个分镜"@));
        } else {
            assert(parts3 =~= parts2);
        }
        assert(out@ =~= joined(parts3, "、"@));
        assert(first == (parts3.len() == 0));
    }
    if first {
        return None;
    }
    push_str(&mut out, "（共 ");
    push_u64(&mut out, cur.len() as u64);
    push_str(&mut out, "）");
    Some(out)
}

/// `剧本 +N 字` / `剧本 -N 字` for a change in the script's character count.
pub open spec fn script_part(prev_chars: int, cur_chars: int) -> Seq<Seq<char>> {
    let diff = cur_chars - prev_chars;
    if diff == 0 {
        seq![]
    } else {
        seq!["剧本 "@ + (if diff > 0 { seq!['+'] } else { seq![] }) + int_digits(diff) + " 字"@]
    }
}

/// `画布节点 P→C` when the number of canvas nodes changed.
pub open spec fn nodes_part(counts: Option<(usize, usize)>) -> Seq<Seq<char>> {
    match counts {
        Some((p, c)) => if p != c {
            seq!["画布节点 "@ + nat_digits(p as nat) + "→"@ + nat_digits(c as nat)]
        } else {
            seq![]
        },
        None => seq![],
    }
}

/// The summary of a checkpoint: the shot changes, the script length
/// change and the canvas node count change that apply, joined with `；`.
pub open spec fn change_summary_text(
    shot_desc: Option<Seq<char>>,
    prev_script: Seq<char>,
    cur_script: Seq<char>,
    node_counts: Option<(usize, usize)>,
) -> Option<Seq<char>> {
    let parts = (match shot_desc {
        Some(d) => seq![d],
        None => seq![],
    }) + script_part(prev_script.len() as int, cur_script.len() as int) + nodes_part(node_counts);
    if parts.len() == 0 { None } else { Some(joined(parts, "；"@)) }
}

/// Builds the summary from its three observations: the shot diff (if the
/// shot lists parsed), both scripts, and the canvas node counts (if both
/// node lists parsed).
pub fn change_summary(
    shot_desc: Option<String>,
    prev_script: &str,
    current_script: &str,
    node_counts: Option<(usize, usize)>,
) -> (r: Option<String>)
    requires
        prev_script@.len() <= i64::MAX,
        current_script@.len() <= i64::MAX,
    ensures
        crate::text::opt_string_view(r) == change_summary_text(
            crate::text::opt_string_view(shot_desc),
            prev_script@,
            current_script@,
            node_counts,
        ),
{
    let ghost sd = crate::text::opt_string_view(shot_desc);
    let mut parts: Vec<String> = Vec::new();
    match shot_desc {
        Some(d) => parts.push(d),
        None => {},
    }
    let ghost p0 = match sd {
        Some(d) => seq![d],
        None => Seq::<Seq<char>>::empty(),
    };
    assert(parts.deep_view() =~= p0);
    let prev_chars = chars_of(prev_script).len() as i64;
    let cur_chars = chars_of(current_script).len() as i64;
    let diff = cur_chars - prev_chars;
    if diff != 0 {
        let mut t = String::new();
        push_str(&mut t, "剧本 ");
        if diff > 0 {
            push_char(&mut t, '+');
        }
        push_i64(&mut t, diff);
        push_str(&mut t, " 字");
        assert(t@ =~= "剧本 "@ + (if diff > 0 { seq!['+'] } else { seq![] }) + int_digits(diff as int) + " 字"@);
        let ghost before = parts.deep_view();
        parts.push(t);
        assert(parts.deep_view() =~= before.push(t@));
    }
    let ghost p1 = p0 + script_part(prev_script@.len() as int, current_script@.len() as int);
    assert(parts.deep_view() =~= p1);
    if let Some((p, c)) = node_counts {
        if p != c {
            let mut t = String::new();
            push_str(&mut t, "画布节点 ");
            push_u64(&mut t, p as u64);
            push_str(&mut t, "→");
            push_u64(&mut t, c as u64);
            let ghost before = parts.deep_view();
            parts.push(t);
            assert(parts.deep_view() =~= before.push(t@));
        }
    }
    let ghost p2 = p1 + nodes_part(node_counts);
    assert(parts.deep_view() =~= p2);
    if parts.len() == 0 {
        return None;
    }
    let mut out = String::new();
    let mut i: usize = 0;
    while i < parts.len()
        invariant
            i <= parts@.len(),
            out@ == joined(parts.deep_view().take(i as int), "；"@),
        decreases parts@.len() - i,
    {
        proof {
            lemma_joined_push(parts.deep_view().take(i as int), "；"@, parts.deep_view()[i as int]);
            assert(parts.deep_view().take(i + 1) =~= parts.deep_view().take(i as int).push(
                parts.deep_view()[i as int],
            ));
        }
        if i > 0 {
            push_str(&mut out, "；");
        }
        push_str(&mut out, parts[i].as_str());
        i = i + 1;
    }
    assert(parts.deep_view().take(parts@.len() as int) =~= parts.deep_view());
    Some(out)
}

/// An automatic checkpoint as the retention policy sees it: its id, its
/// age in whole hours, and the day (`%Y-%m-%d`) and week (`%Y-W%W`) it was
/// made in.
#[derive(Debug, Clone)]
pub struct CheckpointAge {
    pub id: String,
    pub age_hours: i64,
    pub day_key: String,
    pub week_key: String,
}

pub open spec fn in_day_band(h: i64) -> bool {
    24 <= h < 24 * 7
}

pub open spec fn in_week_band(h: i64) -> bool {
    h >= 24 * 7
}

/// Whether the retention policy drops checkpoint `i` (the list runs newest
/// first): younger than a day, it stays; younger than a week, it goes when
/// a newer one of the same band is from the same day; older, when a newer
/// one of the same band is from the same week.
pub open spec fn dropped(rows: Seq<CheckpointAge>, i: int) -> bool {
    let r = rows[i];
    ||| in_day_band(r.age_hours) && day_seen(rows, i, r.day_key@)
    ||| in_week_band(r.age_hours) && week_seen(rows, i, r.week_key@)
}

/// The ids the policy drops, in list order.
pub open spec fn dropped_ids(rows: Seq<CheckpointAge>, n: int) -> Seq<Seq<char>>
    decreases n,
{
    if n <= 0 {
        seq![]
    } else {
        dropped_ids(rows, n - 1) + if dropped(rows, n - 1) { seq![rows[n - 1].id@] } else { seq![] }
    }
}

/// Whether `v` holds a string equal to `s`.
pub open spec fn holds(v: Seq<String>, s: Seq<char>) -> bool {
    exists|k: int| 0 <= k < v.len() && #[trigger] v[k]@ == s
}

/// Whether one of the first `i` checkpoints is in the day band and from day `d`.
pub open spec fn day_seen(rows: Seq<CheckpointAge>, i: int, d: Seq<char>) -> bool {
    exists|j: int| 0 <= j < i && #[trigger] in_day_band(rows[j].age_hours) && rows[j].day_key@ == d
}

/// Whether one of the first `i` checkpoints is in the week band and from week `w`.
pub open spec fn week_seen(rows: Seq<CheckpointAge>, i: int, w: Seq<char>) -> bool {
    exists|j: int| 0 <= j < i && #[trigger] in_week_band(rows[j].age_hours) && rows[j].week_key@ == w
}

fn contains_string(v: &Vec<String>, s: &str) -> (b: bool)
    ensures
        b == holds(v@, s@),
{
    let mut i: usize = 0;
    while i < v.len()
        invariant
            i <= v@.len(),
            forall|k: int| 0 <= k < i ==> #[trigger] v@[k]@ != s@,
        decreases v@.len() - i,
    {
        if str_eq(v[i].as_str(), s) {
            return true;
        }
        i = i + 1;
    }
    false
}

/// The automatic checkpoints to delete (see `dropped`), in list order. The
/// policy keeps the first checkpoint of each day or week in list order, so
/// `rows` must come newest first, as the store lists them.
pub fn select_checkpoints_to_delete(rows: &[CheckpointAge]) -> (r: Vec<String>)
    ensures
        r.deep_view() == dropped_ids(rows@, rows@.len() as int),
{
    let mut to_delete: Vec<String> = Vec::new();
    let mut kept_days: Vec<String> = Vec::new();
    let mut kept_weeks: Vec<String> = Vec::new();
    let mut i: usize = 0;
    while i < rows.len()
        invariant
            i <= rows@.len(),
            to_delete.deep_view() == dropped_ids(rows@, i as int),
            forall|d: Seq<char>| #[trigger] holds(kept_days@, d) == day_seen(rows@, i as int, d),
            forall|w: Seq<char>| #[trigger] holds(kept_weeks@, w) == week_seen(rows@, i as int, w),
        decreases rows@.len() - i,
    {
        let row = &rows[i];
        let hours = row.age_hours;
        let ghost kd = kept_days@;
        let ghost kw = kept_weeks@;
        proof {
            assert(holds(kd, row.day_key@) == day_seen(rows@, i as int, row.day_key@));
            assert(holds(kw, row.week_key@) == week_seen(rows@, i as int, row.week_key@));
        }
        if hours < 24 {
        } else if hours < 24 * 7 {
            if contains_string(&kept_days, row.day_key.as_str()) {
                to_delete.push(row.id.clone());
            } else {
                kept_days.push(row.day_key.clone());
            }
        } else {
            if contains_string(&kept_weeks, row.week_key.as_str()) {
                to_delete.push(row.id.clone());
            } else {
                kept_weeks.push(row.week_key.clone());
            }
        }
        proof {
            assert(to_delete.deep_view() =~= dropped_ids(rows@, i + 1));
            assert forall|d: Seq<char>| #[trigger] holds(kept_days@, d) == day_seen(rows@, i + 1, d) by {
                assert(holds(kd, d) == day_seen(rows@, i as int, d));
                if day_seen(rows@, i + 1, d) {
                    let j = choose|j: int|
                        0 <= j < i + 1 && #[trigger] in_day_band(rows@[j].age_hours) && rows@[j].day_key@ == d;
                    if j < i {
                        assert(day_seen(rows@, i as int, d));
                        let k = choose|k: int| 0 <= k < kd.len() && #[trigger] kd[k]@ == d;
                        assert(kept_days@[k] == kd[k]);
                    } else if kept_days@.len() > kd.len() {
                        assert(kept_days@[kd.len() as int]@ == d);
                    } else {
                        assert(holds(kd, d));
                        let k = choose|k: int| 0 <= k < kd.len() && #[trigger] kd[k]@ == d;
                        assert(kept_days@[k] == kd[k]);
                    }
                }
                if holds(kept_days@, d) {
                    let k = choose|k: int| 0 <= k < kept_days@.len() && #[trigger] kept_days@[k]@ == d;
                    if k < kd.len() {
                        assert(kd[k]@ == d);
                        assert(holds(kd, d));
                        let j = choose|j: int|
                            0 <= j < i && #[trigger] in_day_band(rows@[j].age_hours) && rows@[j].day_key@ == d;
                        assert(0 <= j < i + 1);
                    } else {
                        assert(in_day_band(rows@[i as int].age_hours) && rows@[i as int].day_key@ == d);
                    }
                }
            }
            assert forall|w: Seq<char>| #[trigger] holds(kept_weeks@, w) == week_seen(rows@, i + 1, w) by {
                assert(holds(kw, w) == week_seen(rows@, i as int, w));
                if week_seen(rows@, i + 1, w) {
                    let j = choose|j: int|
                        0 <= j < i + 1 && #[trigger] in_week_band(rows@[j].age_hours) && rows@[j].week_key@ == w;
                    if j < i {
                        assert(week_seen(rows@, i as int, w));
                        let k = choose|k: int| 0 <= k < kw.len() && #[trigger] kw[k]@ == w;
                        assert(kept_weeks@[k] == kw[k]);
                    } else if kept_weeks@.len() > kw.len() {
                        assert(kept_weeks@[kw.len() as int]@ == w);
                    } else {
                        assert(holds(kw, w));
                        let k = choose|k: int| 0 <= k < kw.len() && #[trigger] kw[k]@ == w;
                        assert(kept_weeks@[k] == kw[k]);
                    }
                }
                if holds(kept_weeks@, w) {
                    let k = choose|k: int| 0 <= k < kept_weeks@.len() && #[trigger] kept_weeks@[k]@ == w;
                    if k < kw.len() {
                        assert(kw[k]@ == w);
                        assert(holds(kw, w));
                        let j = choose|j: int|
                            0 <= j < i && #[trigger] in_week_band(rows@[j].age_hours) && rows@[j].week_key@ == w;
                        assert(0 <= j < i + 1);
                    } else {
                        assert(in_week_band(rows@[i as int].age_hours) && rows@[i as int].week_key@ == w);
                    }
                }
            }
        }
        i = i + 1;
    }
    to_delete
}

/// The retention policy never drops a checkpoint younger than a day, keeps
/// the newest checkpoint of every day (in the day band) and of every week
/// (in the week band), and of two kept checkpoints of one band, neither
/// shares the other's day (or week).
pub proof fn law_retention_keeps_one_per_bucket(rows: Seq<CheckpointAge>, i: int, j: int)
    requires
        0 <= i < j < rows.len(),
    ensures
        rows[j].age_hours < 24 ==> !dropped(rows, j),
        in_day_band(rows[i].age_hours) && in_day_band(rows[j].age_hours) && rows[i].day_key@ == rows[j].day_key@
            ==> dropped(rows, j),
        in_week_band(rows[i].age_hours) && in_week_band(rows[j].age_hours) && rows[i].week_key@ == rows[j].week_key@
            ==> dropped(rows, j),
        in_day_band(rows[j].age_hours) && !day_seen(rows, j, rows[j].day_key@) ==> !dropped(rows, j),
        in_week_band(rows[j].age_hours) && !week_seen(rows, j, rows[j].week_key@) ==> !dropped(rows, j),
{
    if in_day_band(rows[i].age_hours) && in_day_band(rows[j].age_hours) && rows[i].day_key@ == rows[j].day_key@ {
        assert(day_seen(rows, j, rows[j].day_key@));
    }
    if in_week_band(rows[i].age_hours) && in_week_band(rows[j].age_hours) && rows[i].week_key@ == rows[j].week_key@ {
        assert(week_seen(rows, j, rows[j].week_key@));
    }
}

/// The format a checkpoint's `created_at` is stored in.
pub const CREATED_AT_FORMAT: &'static str = "%Y-%m-%d %H:%M:%S";

/// The format of a checkpoint's day key.
pub const DAY_KEY_FORMAT: &'static str = "%Y-%m-%d";

/// The format of a checkpoint's week key (`%W`: weeks start on Monday).
pub const WEEK_KEY_FORMAT: &'static str = "%Y-W%W";

/// The Unix seconds of `text` read as a UTC date and time in `format`, as
/// chrono's `NaiveDateTime::parse_from_str` reads it; none when it does not
/// parse.
pub uninterp spec fn timestamp_secs_of(text: Seq<char>, format: Seq<char>) -> Option<int>;

/// The text chrono writes for the UTC instant `secs` in `format`; none when
/// `secs` is outside chrono's range.
pub uninterp spec fn time_text_of(secs: int, format: Seq<char>) -> Option<Seq<char>>;

/// Calls `chrono::NaiveDateTime::parse_from_str` and takes the parsed time's
/// Unix seconds (`and_utc().timestamp()`). The result depends on the two
/// texts alone.
#[verifier::external_body]
fn parse_time(text: &str, format: &str) -> (r: Option<i64>)
    ensures
        r matches Some(v) ==> timestamp_secs_of(text@, format@) == Some(v as int),
        r is None ==> timestamp_secs_of(text@, format@) is None,
{
    chrono::NaiveDateTime::parse_from_str(text, format).ok().map(|t| t.and_utc().timestamp())
}

/// Calls `chrono::DateTime::<Utc>::from_timestamp` and writes the instant
/// with `format` (`format(..).to_string()`). The result depends on the
/// arguments alone. Only the two key formats are asked for; chrono's
/// `Display` fails, and `to_string` panics, on a malformed format.
#[verifier::external_body]
fn format_time(secs: i64, format: &str) -> (r: Option<String>)
    requires
        format@ == DAY_KEY_FORMAT@ || format@ == WEEK_KEY_FORMAT@,
    ensures
        crate::text::opt_string_view(r) == time_text_of(secs as int, format@),
{
    chrono::DateTime::<chrono::Utc>::from_timestamp(secs, 0).map(|t| t.format(format).to_string())
}

/// Calls `chrono::Utc::now().timestamp()`: the current Unix seconds. It
/// depends on the clock, so nothing is stated of it.
#[verifier::external_body]
fn now_timestamp() -> i64 {
    chrono::Utc::now().timestamp()
}

/// The whole hours in `delta` seconds, truncated toward zero as chrono's
/// `TimeDelta::num_hours` counts them.
pub open spec fn whole_hours(delta: int) -> int {
    if delta >= 0 { delta / 3600 } else { -((-delta) / 3600) }
}

/// When a checkpoint was made: its stored time, or `now` when that does not
/// parse.
pub open spec fn made_at(created_at: Seq<char>, now: i64) -> int {
    match timestamp_secs_of(created_at, CREATED_AT_FORMAT@) {
        Some(t) => t,
        None => now as int,
    }
}

/// A key of an instant, or the empty text outside chrono's range.
pub open spec fn key_text(secs: int, format: Seq<char>) -> Seq<char> {
    match time_text_of(secs, format) {
        Some(k) => k,
        None => ""@,
    }
}

/// Whether `ages` are the retention views of the stored `(id, created_at)`
/// rows at time `now`: one per row, with its id, its age in whole hours, and
/// the day and week keys of the time it was made.
pub open spec fn ages_match(ages: Seq<CheckpointAge>, rows: Seq<(String, String)>, now: i64) -> bool {
    &&& ages.len() == rows.len()
    &&& forall|i: int| 0 <= i < rows.len() ==> {
        let a = #[trigger] ages[i];
        let t = made_at(rows[i].1@, now);
        &&& a.id@ == rows[i].0@
        &&& a.age_hours as int == whole_hours(now - t)
        &&& a.day_key@ == key_text(t, DAY_KEY_FORMAT@)
        &&& a.week_key@ == key_text(t, WEEK_KEY_FORMAT@)
    }
}

fn key_or_empty(secs: i64, format: &str) -> (k: String)
    requires
        format@ == DAY_KEY_FORMAT@ || format@ == WEEK_KEY_FORMAT@,
    ensures
        k@ == key_text(secs as int, format@),
{
    match format_time(secs, format) {
        Some(k) => k,
        None => {
            proof { reveal_strlit(""); }
            String::new()
        },
    }
}

/// The retention view of each stored `(id, created_at)` row at Unix time
/// `now_secs` (see `ages_match`).
pub fn checkpoint_ages(rows: &Vec<(String, String)>, now_secs: i64) -> (r: Vec<CheckpointAge>)
    ensures
        ages_match(r@, rows@, now_secs),
{
    let mut r: Vec<CheckpointAge> = Vec::new();
    let mut i: usize = 0;
    while i < rows.len()
        invariant
            i <= rows@.len(),
            r@.len() == i,
            forall|k: int| 0 <= k < i ==> {
                let a = #[trigger] r@[k];
                let t = made_at(rows@[k].1@, now_secs);
                &&& a.id@ == rows@[k].0@
                &&& a.age_hours as int == whole_hours(now_secs - t)
                &&& a.day_key@ == key_text(t, DAY_KEY_FORMAT@)
                &&& a.week_key@ == key_text(t, WEEK_KEY_FORMAT@)
            },
        decreases rows@.len() - i,
    {
        let t: i64 = match parse_time(rows[i].1.as_str(), CREATED_AT_FORMAT) {
            Some(v) => v,
            None => now_secs,
        };
        let delta: i128 = now_secs as i128 - t as i128;
        let hours: i128 = if delta >= 0 { delta / 3600 } else { -((-delta) / 3600) };
        let day_key = key_or_empty(t, DAY_KEY_FORMAT);
        let week_key = key_or_empty(t, WEEK_KEY_FORMAT);
        r.push(CheckpointAge { id: rows[i].0.clone(), age_hours: hours as i64, day_key, week_key });
        i = i + 1;
    }
    r
}

/// The ids of the automatic checkpoints to delete, from the stored
/// `(id, created_at)` rows (newest first) at Unix time `now_secs`.
pub fn gc_plan(rows: &Vec<(String, String)>, now_secs: i64) -> (r: Vec<String>)
    ensures
        exists|ages: Seq<CheckpointAge>| ages_match(ages, rows@, now_secs) && r.deep_view() == dropped_ids(
            ages,
            ages.len() as int,
        ),
{
    let ages = checkpoint_ages(rows, now_secs);
    let r = select_checkpoints_to_delete(ages.as_slice());
    assert(ages_match(ages@, rows@, now_secs));
    r
}

/// The ids of the automatic checkpoints to delete now (see `gc_plan`), at
/// whatever time the clock gives.
pub fn gc_plan_now(rows: &Vec<(String, String)>) -> (r: Vec<String>)
    ensures
        exists|now: i64, ages: Seq<CheckpointAge>| ages_match(ages, rows@, now) && r.deep_view() == dropped_ids(
            ages,
            ages.len() as int,
        ),
{
    let now = now_timestamp();
    gc_plan(rows, now)
}

} // verus!
