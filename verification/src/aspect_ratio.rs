//! Output canvas sizes and per-platform encoding presets.

use vstd::prelude::*;

use crate::text::str_eq;

verus! {

#[derive(Debug, Clone)]
pub struct AspectRatioPreset {
    pub id: String,
    pub label: String,
    pub width: u32,
    pub height: u32,
}

#[derive(Debug, Clone)]
pub struct PlatformPreset {
    pub id: String,
    pub label: String,
    pub width: u32,
    pub height: u32,
    pub codec: String,
    pub preset: String,
    pub crf: u32,
}

/// An aspect ratio's id and canvas size.
pub open spec fn ratio_model(p: AspectRatioPreset) -> (Seq<char>, u32, u32) {
    (p.id@, p.width, p.height)
}

pub open spec fn ratio_table() -> Seq<(Seq<char>, u32, u32)> {
    seq![("16_9"@, 1920u32, 1080u32), ("9_16"@, 1080u32, 1920u32), ("1_1"@, 1080u32, 1080u32), ("3_4"@, 1080u32, 1440u32)]
}

/// A platform preset's id, canvas size, codec, encoder preset and CRF.
pub type PlatformModel = (Seq<char>, u32, u32, Seq<char>, Seq<char>, u32);

pub open spec fn platform_model(p: PlatformPreset) -> PlatformModel {
    (p.id@, p.width, p.height, p.codec@, p.preset@, p.crf)
}

pub open spec fn platform_table() -> Seq<PlatformModel> {
    seq![
        ("douyin"@, 1080u32, 1920u32, "libx264"@, "fast"@, 18u32),
        ("bilibili"@, 1920u32, 1080u32, "libx264"@, "fast"@, 18u32),
        ("wechat_h"@, 1920u32, 1080u32, "libx264"@, "fast"@, 20u32),
        ("wechat_v"@, 1080u32, 1920u32, "libx264"@, "fast"@, 20u32),
        ("xiaohongshu"@, 1080u32, 1440u32, "libx264"@, "fast"@, 18u32),
    ]
}

fn ratio(id: &str, label: &str, width: u32, height: u32) -> (p: AspectRatioPreset)
    ensures
        ratio_model(p) == (id@, width, height),
{
    AspectRatioPreset { id: id.to_owned(), label: label.to_owned(), width, height }
}

/// The four canvas shapes, landscape first.
pub fn list_aspect_ratios() -> (r: Vec<AspectRatioPreset>)
    ensures
        r@.map_values(|p: AspectRatioPreset| ratio_model(p)) == ratio_table(),
{
    let mut r: Vec<AspectRatioPreset> = Vec::new();
    r.push(ratio("16_9", "16:9 横屏", 1920, 1080));
    r.push(ratio("9_16", "9:16 竖屏", 1080, 1920));
    r.push(ratio("1_1", "1:1 方形", 1080, 1080));
    r.push(ratio("3_4", "3:4 竖版", 1080, 1440));
    assert(r@.map_values(|p: AspectRatioPreset| ratio_model(p)) =~= ratio_table());
    r
}

fn platform(id: &str, label: &str, width: u32, height: u32, crf: u32) -> (p: PlatformPreset)
    ensures
        platform_model(p) == (id@, width, height, "libx264"@, "fast"@, crf),
{
    PlatformPreset {
        id: id.to_owned(),
        label: label.to_owned(),
        width,
        height,
        codec: "libx264".to_owned(),
        preset: "fast".to_owned(),
        crf,
    }
}

/// The five publishing platforms.
pub fn list_platform_presets() -> (r: Vec<PlatformPreset>)
    ensures
        r@.map_values(|p: PlatformPreset| platform_model(p)) == platform_table(),
{
    let mut r: Vec<PlatformPreset> = Vec::new();
    r.push(platform("douyin", "抖音", 1080, 1920, 18));
    r.push(platform("bilibili", "B站", 1920, 1080, 18));
    r.push(platform("wechat_h", "微信横版", 1920, 1080, 20));
    r.push(platform("wechat_v", "微信竖版", 1080, 1920, 20));
    r.push(platform("xiaohongshu", "小红书", 1080, 1440, 18));
    assert(r@.map_values(|p: PlatformPreset| platform_model(p)) =~= platform_table());
    r
}

/// The first platform of the table with the given id.
pub open spec fn find_platform(table: Seq<PlatformModel>, id: Seq<char>) -> Option<int>
    decreases table.len(),
{
    if table.len() == 0 {
        None
    } else {
        match find_platform(table.drop_last(), id) {
            Some(i) => Some(i),
            None => if table.last().0 == id { Some(table.len() - 1) } else { None },
        }
    }
}

proof fn lemma_find_prefix(table: Seq<PlatformModel>, id: Seq<char>, k: nat)
    requires
        k <= table.len(),
        find_platform(table.take(k as int), id) is Some,
    ensures
        find_platform(table, id) == find_platform(table.take(k as int), id),
    decreases table.len(),
{
    if k < table.len() {
        assert(table.drop_last().take(k as int) =~= table.take(k as int));
        lemma_find_prefix(table.drop_last(), id, k);
    } else {
        assert(table.take(k as int) =~= table);
    }
}

/// The platform preset with the given id, if there is one.
pub fn get_platform_preset(id: &str) -> (r: Option<PlatformPreset>)
    ensures
        r matches Some(p) ==> (find_platform(platform_table(), id@) matches Some(i) && platform_model(p)
            == platform_table()[i]),
        r is None ==> find_platform(platform_table(), id@) is None,
{
    let mut all = list_platform_presets();
    let ghost table = platform_table();
    let mut i: usize = 0;
    while i < all.len()
        invariant
            all@.map_values(|p: PlatformPreset| platform_model(p)) == table,
            table == platform_table(),
            i <= all@.len(),
            find_platform(table.take(i as int), id@) is None,
        decreases all@.len() - i,
    {
        assert(table.take(i + 1).drop_last() =~= table.take(i as int));
        assert(table[i as int] == platform_model(all@[i as int]));
        if str_eq(all[i].id.as_str(), id) {
            proof {
                assert(find_platform(table.take(i + 1), id@) == Some(i as int));
                lemma_find_prefix(table, id@, (i + 1) as nat);
            }
            let p = all.swap_remove(i);
            return Some(p);
        }
        i = i + 1;
    }
    assert(table.take(all@.len() as int) =~= table);
    None
}

/// `find_platform` gives the first row with the id, or `None` when no row has it.
proof fn lemma_find_platform_first(table: Seq<PlatformModel>, id: Seq<char>)
    ensures
        match find_platform(table, id) {
            Some(i) => 0 <= i < table.len() && table[i].0 == id && forall|j: int|
                0 <= j < i ==> #[trigger] table[j].0 != id,
            None => forall|j: int| 0 <= j < table.len() ==> #[trigger] table[j].0 != id,
        },
    decreases table.len(),
{
    if table.len() > 0 {
        let front = table.drop_last();
        lemma_find_platform_first(front, id);
        assert forall|j: int| 0 <= j < front.len() implies #[trigger] table[j].0 == front[j].0 by {}
        match find_platform(front, id) {
            Some(i) => {
                assert forall|j: int| 0 <= j < i implies #[trigger] table[j].0 != id by {
                    assert(front[j].0 != id);
                }
            },
            None => {
                assert forall|j: int| 0 <= j < front.len() implies #[trigger] table[j].0 != id by {
                    assert(front[j].0 != id);
                }
            },
        }
    }
}

/// Every listed platform is found again by its own id: no two platforms share
/// an id.
pub proof fn law_every_platform_found(i: int)
    requires
        0 <= i < platform_table().len(),
    ensures
        find_platform(platform_table(), platform_table()[i].0) == Some(i),
{
    reveal_strlit("douyin");
    reveal_strlit("bilibili");
    reveal_strlit("wechat_h");
    reveal_strlit("wechat_v");
    reveal_strlit("xiaohongshu");
    let t = platform_table();
    assert("bilibili"@[0] != "wechat_h"@[0]);
    assert("bilibili"@[0] != "wechat_v"@[0]);
    assert("wechat_h"@[7] != "wechat_v"@[7]);
    assert forall|j: int, k: int| 0 <= j < k < t.len() implies #[trigger] t[j].0 != #[trigger] t[k].0 by {
        assert(t[0].0.len() == 6 && t[1].0.len() == 8 && t[2].0.len() == 8 && t[3].0.len() == 8
            && t[4].0.len() == 11);
    }
    lemma_find_platform_first(t, t[i].0);
}

} // verus!
