//! The riven attribute dictionary (display name to canonical identifier and
//! back) and the parsing of riven queries.

use vstd::prelude::*;
use vstd::string::StrSliceExecFns;

verus! {

/// The fixed dictionary, in lookup order: (display name, canonical identifier).
pub open spec fn attr_table() -> Seq<(Seq<char>, Seq<char>)> {
    seq![
        ("弹药上限"@, "ammo_maximum"@),
        ("c伤"@, "damage_vs_corpus"@),
        ("g伤"@, "damage_vs_grineer"@),
        ("i伤"@, "damage_vs_infested"@),
        ("冰"@, "cold_damage"@),
        ("初始连击"@, "channeling_damage"@),
        ("重击效率"@, "channeling_efficiency"@),
        ("连击时间"@, "combo_duration"@),
        ("暴率"@, "critical_chance"@),
        ("滑行暴率"@, "critical_chance_on_slide_attack"@),
        ("暴伤"@, "critical_damage"@),
        ("基伤"@, "base_damage_/_melee_damage"@),
        ("电"@, "electric_damage"@),
        ("火"@, "heat_damage"@),
        ("处决"@, "finisher_damage"@),
        ("攻速"@, "fire_rate_/_attack_speed"@),
        ("射速"@, "fire_rate_/_attack_speed"@),
        ("投射物"@, "projectile_speed"@),
        ("冲击"@, "impact_damage"@),
        ("弹匣"@, "magazine_capacity"@),
        ("多重"@, "multishot"@),
        ("毒"@, "toxin_damage"@),
        ("穿透"@, "punch_through"@),
        ("穿刺"@, "puncture_damage"@),
        ("装填"@, "reload_speed"@),
        ("范围"@, "range"@),
        ("切割"@, "slash_damage"@),
        ("触发几率"@, "status_chance"@),
        ("触发时间"@, "status_duration"@),
        ("后坐力"@, "recoil"@),
        ("变焦"@, "zoom"@),
        ("额外连击"@, "chance_to_gain_extra_combo_count"@),
        ("连击几率"@, "chance_to_gain_combo_count"@),
        ("无负"@, "none"@),
        ("负"@, "has"@),
    ]
}

/// The identifier paired with the first entry named `k`.
pub open spec fn lookup_key(t: Seq<(Seq<char>, Seq<char>)>, k: Seq<char>) -> Option<Seq<char>>
    decreases t.len(),
{
    if t.len() == 0 {
        None
    } else if t[0].0 == k {
        Some(t[0].1)
    } else {
        lookup_key(t.drop_first(), k)
    }
}

/// The display name of the first entry whose identifier is `v`.
pub open spec fn lookup_value(t: Seq<(Seq<char>, Seq<char>)>, v: Seq<char>) -> Option<Seq<char>>
    decreases t.len(),
{
    if t.len() == 0 {
        None
    } else if t[0].1 == v {
        Some(t[0].0)
    } else {
        lookup_value(t.drop_first(), v)
    }
}

pub open spec fn pairs_view(s: Seq<(&str, &str)>) -> Seq<(Seq<char>, Seq<char>)> {
    s.map_values(|p: (&str, &str)| (p.0@, p.1@))
}

pub open spec fn opt_str_view(o: Option<&str>) -> Option<Seq<char>> {
    match o {
        Some(s) => Some(s@),
        None => None,
    }
}

fn attr_pairs() -> (r: Vec<(&'static str, &'static str)>)
    ensures
        pairs_view(r@) == attr_table(),
{
    let r = vec![
        ("弹药上限", "ammo_maximum"),
        ("c伤", "damage_vs_corpus"),
        ("g伤", "damage_vs_grineer"),
        ("i伤", "damage_vs_infested"),
        ("冰", "cold_damage"),
        ("初始连击", "channeling_damage"),
        ("重击效率", "channeling_efficiency"),
        ("连击时间", "combo_duration"),
        ("暴率", "critical_chance"),
        ("滑行暴率", "critical_chance_on_slide_attack"),
        ("暴伤", "critical_damage"),
        ("基伤", "base_damage_/_melee_damage"),
        ("电", "electric_damage"),
        ("火", "heat_damage"),
        ("处决", "finisher_damage"),
        ("攻速", "fire_rate_/_attack_speed"),
        ("射速", "fire_rate_/_attack_speed"),
        ("投射物", "projectile_speed"),
        ("冲击", "impact_damage"),
        ("弹匣", "magazine_capacity"),
        ("多重", "multishot"),
        ("毒", "toxin_damage"),
        ("穿透", "punch_through"),
        ("穿刺", "puncture_damage"),
        ("装填", "reload_speed"),
        ("范围", "range"),
        ("切割", "slash_damage"),
        ("触发几率", "status_chance"),
        ("触发时间", "status_duration"),
        ("后坐力", "recoil"),
        ("变焦", "zoom"),
        ("额外连击", "chance_to_gain_extra_combo_count"),
        ("连击几率", "chance_to_gain_combo_count"),
        ("无负", "none"),
        ("负", "has"),
    ];
    assert(pairs_view(r@) =~= attr_table());
    r
}

/// The canonical identifier of a display name, if the dictionary has it.
pub fn attr_url_name(name: &str) -> (r: Option<&'static str>)
    ensures
        opt_str_view(r) == lookup_key(attr_table(), name@),
{
    let t = attr_pairs();
    let ghost tv = pairs_view(t@);
    let n = t.len();
    let mut i: usize = 0;
    assert(tv.subrange(0, n as int) =~= tv);
    while i < n
        invariant
            n == t@.len(),
            tv == pairs_view(t@),
            tv == attr_table(),
            i <= n,
            lookup_key(tv, name@) == lookup_key(tv.subrange(i as int, n as int), name@),
        decreases n - i,
    {
        let (a, b) = t[i];
        assert(tv.subrange(i as int, n as int).drop_first() =~= tv.subrange(i + 1, n as int));
        assert(tv[i as int] == (a@, b@));
        if crate::text::text_eq(a, name) {
            return Some(b);
        }
        i = i + 1;
    }
    None
}

/// The display name of a canonical identifier, if the dictionary has it.
pub fn attr_display_name(url_name: &str) -> (r: Option<&'static str>)
    ensures
        opt_str_view(r) == lookup_value(attr_table(), url_name@),
{
    let t = attr_pairs();
    let ghost tv = pairs_view(t@);
    let n = t.len();
    let mut i: usize = 0;
    assert(tv.subrange(0, n as int) =~= tv);
    while i < n
        invariant
            n == t@.len(),
            tv == pairs_view(t@),
            tv == attr_table(),
            i <= n,
            lookup_value(tv, url_name@) == lookup_value(tv.subrange(i as int, n as int), url_name@),
        decreases n - i,
    {
        let (a, b) = t[i];
        assert(tv.subrange(i as int, n as int).drop_first() =~= tv.subrange(i + 1, n as int));
        assert(tv[i as int] == (a@, b@));
        if crate::text::text_eq(b, url_name) {
            return Some(a);
        }
        i = i + 1;
    }
    None
}

/// The text shown for an attribute: its display name, or the identifier
/// itself when the dictionary has no name for it.
pub fn attr_label(url_name: &str) -> (r: String)
    ensures
        r@ == match lookup_value(attr_table(), url_name@) {
            Some(n) => n,
            None => url_name@,
        },
{
    match attr_display_name(url_name) {
        Some(n) => n.to_owned(),
        None => url_name.to_owned(),
    }
}

} // verus!
