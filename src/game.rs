//! Game-state records (arbitration mission, Cetus day/night cycle) and the
//! mission desirability classifier.

use vstd::prelude::*;
use crate::clock::now_unix;
use crate::text::{contains_seq, text_contains, text_eq};

verus! {

/// Enemy faction of a mission.
#[derive(Debug, Clone, Copy, PartialEq, Eq, Structural)]
pub enum Enemy {
    Orokin,
    Corrupted,
    Infested,
    Corpus,
    Grineer,
    Tenno,
}

pub open spec fn enemy_nickname(e: Enemy) -> Seq<char> {
    match e {
        Enemy::Orokin => "o佬"@,
        Enemy::Corrupted => "堕落者"@,
        Enemy::Infested => "i佬"@,
        Enemy::Corpus => "c佬"@,
        Enemy::Grineer => "g佬"@,
        Enemy::Tenno => "天..天诺?"@,
    }
}

impl Enemy {
    /// Short display name of the faction.
    pub fn nickname(&self) -> (r: &'static str)
        ensures
            r@ == enemy_nickname(*self),
    {
        match self {
            Enemy::Orokin => "o佬",
            Enemy::Corrupted => "堕落者",
            Enemy::Infested => "i佬",
            Enemy::Corpus => "c佬",
            Enemy::Grineer => "g佬",
            Enemy::Tenno => "天..天诺?",
        }
    }
}

/// Desirability tier of a mission: `T0` is the highest, `T1` marginal,
/// `Bad` low or unranked.
#[derive(Debug, Clone, Copy, PartialEq, Eq, Structural)]
pub enum ArbitrationLevel {
    T0,
    T1,
    Bad,
}

pub open spec fn level_nickname(l: ArbitrationLevel) -> Seq<char> {
    match l {
        ArbitrationLevel::T0 => "打它丫的"@,
        ArbitrationLevel::T1 => "可以打但没必要"@,
        ArbitrationLevel::Bad => "垃圾图/未定级"@,
    }
}

/// The decision table: rules are tried in order and the first one that
/// applies gives the tier; locations match by substring.
pub open spec fn classify(node: Seq<char>, ty: Seq<char>, enemy: Enemy) -> ArbitrationLevel {
    let def = ty == "Defense"@;
    let icp = ty == "Interception"@;
    if contains_seq(node, "穀神星"@) && (def || icp) {
        ArbitrationLevel::T0
    } else if contains_seq(node, "賽德娜"@) && def {
        ArbitrationLevel::T0
    } else if contains_seq(node, "水星"@) && icp {
        ArbitrationLevel::T0
    } else if contains_seq(node, "水星"@) && def {
        ArbitrationLevel::T1
    } else if contains_seq(node, "冥王星"@) && def {
        if enemy == Enemy::Corpus {
            ArbitrationLevel::T1
        } else {
            ArbitrationLevel::T0
        }
    } else if contains_seq(node, "冥王星"@) && ty == "Dark Sector Defense"@ {
        ArbitrationLevel::T0
    } else if contains_seq(node, "地球"@) && (def || icp) {
        ArbitrationLevel::T1
    } else if contains_seq(node, "海王星"@) && (def || icp) {
        ArbitrationLevel::T1
    } else if contains_seq(node, "土星"@) && def {
        ArbitrationLevel::T0
    } else if contains_seq(node, "土星"@) && icp {
        ArbitrationLevel::T1
    } else if contains_seq(node, "金星"@) && def {
        ArbitrationLevel::T1
    } else if (contains_seq(node, "虛空"@) || contains_seq(node, "虚空"@)) && icp {
        ArbitrationLevel::T1
    } else {
        ArbitrationLevel::Bad
    }
}

/// The current arbitration mission. Timestamps are Unix seconds (UTC).
#[derive(Debug, Clone)]
pub struct Arbitration {
    pub id: String,
    pub activation: i64,
    pub expiry: i64,
    pub start_string: Option<String>,
    pub active: Option<bool>,
    pub node: String,
    pub node_key: Option<String>,
    pub enemy: Enemy,
    pub enemy_key: Option<Enemy>,
    pub mission_type: String,
    pub type_key: String,
    pub archwing: bool,
    pub sharkwing: bool,
}

pub open spec fn level_of(data: Arbitration) -> ArbitrationLevel {
    classify(data.node@, data.type_key@, data.enemy)
}

impl ArbitrationLevel {
    /// Display text of the tier.
    pub fn nickname(&self) -> (r: &'static str)
        ensures
            r@ == level_nickname(*self),
    {
        match self {
            ArbitrationLevel::T0 => "打它丫的",
            ArbitrationLevel::T1 => "可以打但没必要",
            ArbitrationLevel::Bad => "垃圾图/未定级",
        }
    }

    /// Classifies a mission by its location, mission type and faction.
    pub fn from_data(data: &Arbitration) -> (r: Self)
        ensures
            r == level_of(*data),
    {
        let node = data.node.as_str();
        let ty = data.type_key.as_str();
        let def = text_eq(ty, "Defense");
        let icp = text_eq(ty, "Interception");
        if text_contains(node, "穀神星") && (def || icp) {
            return ArbitrationLevel::T0;
        }
        if text_contains(node, "賽德娜") && def {
            return ArbitrationLevel::T0;
        }
        if text_contains(node, "水星") {
            if icp {
                return ArbitrationLevel::T0;
            }
            if def {
                return ArbitrationLevel::T1;
            }
        }
        if text_contains(node, "冥王星") {
            if def {
                if let Enemy::Corpus = data.enemy {
                    return ArbitrationLevel::T1;
                } else {
                    return ArbitrationLevel::T0;
                }
            }
            if text_eq(ty, "Dark Sector Defense") {
                return ArbitrationLevel::T0;
            }
        }
        if text_contains(node, "地球") && (def || icp) {
            return ArbitrationLevel::T1;
        }
        if text_contains(node, "海王星") && (def || icp) {
            return ArbitrationLevel::T1;
        }
        if text_contains(node, "土星") {
            if def {
                return ArbitrationLevel::T0;
            }
            if icp {
                return ArbitrationLevel::T1;
            }
        }
        if text_contains(node, "金星") && def {
            return ArbitrationLevel::T1;
        }
        if (text_contains(node, "虛空") || text_contains(node, "虚空")) && icp {
            return ArbitrationLevel::T1;
        }
        ArbitrationLevel::Bad
    }
}

/// `a / b` rounded toward zero, as integer division does in Rust.
pub open spec fn div_toward_zero(a: int, b: int) -> int {
    if a >= 0 {
        a / b
    } else {
        -((-a) / b)
    }
}

/// Signed seconds from `now` until `expiry`; negative once `expiry` has passed.
pub fn remaining_seconds(expiry: i64, now: i64) -> (r: i128)
    ensures
        r == expiry - now,
{
    expiry as i128 - now as i128
}

/// Whole minutes from `now` until `expiry`, rounded toward zero.
pub fn remaining_minutes(expiry: i64, now: i64) -> (r: i128)
    ensures
        r == div_toward_zero(expiry - now, 60),
{
    let d = remaining_seconds(expiry, now);
    if d >= 0 {
        d / 60
    } else {
        -((-d) / 60)
    }
}

impl Arbitration {
    /// Whole minutes left on this mission at `now`.
    pub fn remaining_minutes_at(&self, now: i64) -> (r: i128)
        ensures
            r == div_toward_zero(self.expiry - now, 60),
    {
        remaining_minutes(self.expiry, now)
    }

    /// Whole minutes left on this mission by the system clock.
    pub fn remaining_minutes_now(&self) -> (r: i128)
        ensures
            exists|now: i64| r == #[trigger] div_toward_zero(self.expiry - now, 60),
    {
        let now = now_unix();
        self.remaining_minutes_at(now)
    }
}

/// Phase of the Cetus day/night cycle.
#[derive(Debug, Clone, Copy, PartialEq, Eq, Structural)]
pub enum CetusState {
    Night,
    Day,
}

pub open spec fn cetus_state_text(s: CetusState) -> Seq<char> {
    match s {
        CetusState::Night => "黑夜"@,
        CetusState::Day => "白天"@,
    }
}

impl CetusState {
    /// Display text of the phase.
    pub fn chinese(&self) -> (r: &'static str)
        ensures
            r@ == cetus_state_text(*self),
    {
        match self {
            CetusState::Night => "黑夜",
            CetusState::Day => "白天",
        }
    }
}

/// The current Cetus cycle. Timestamps are Unix seconds (UTC).
#[derive(Debug, Clone)]
pub struct CetusCycle {
    pub id: String,
    pub expiry: i64,
    pub activation: i64,
    pub is_day: bool,
    pub state: CetusState,
}

impl CetusCycle {
    /// Whole minutes left in this phase at `now`.
    pub fn remaining_minutes_at(&self, now: i64) -> (r: i128)
        ensures
            r == div_toward_zero(self.expiry - now, 60),
    {
        remaining_minutes(self.expiry, now)
    }

    /// Whole minutes left in this phase by the system clock.
    pub fn remaining_minutes_now(&self) -> (r: i128)
        ensures
            exists|now: i64| r == #[trigger] div_toward_zero(self.expiry - now, 60),
    {
        let now = now_unix();
        self.remaining_minutes_at(now)
    }
}

/// The tier is a function of location, mission type and faction alone:
/// two missions that agree on those get the same tier, whatever their
/// identifiers, timestamps or other fields.
pub proof fn lemma_level_depends_on_table_keys(a: Arbitration, b: Arbitration)
    requires
        a.node@ == b.node@,
        a.type_key@ == b.type_key@,
        a.enemy == b.enemy,
    ensures
        level_of(a) == level_of(b),
{
}

/// Every (location, mission type, faction) triple gets exactly one tier.
pub proof fn lemma_classify_total(node: Seq<char>, ty: Seq<char>, enemy: Enemy)
    ensures
        classify(node, ty, enemy) == ArbitrationLevel::T0
            || classify(node, ty, enemy) == ArbitrationLevel::T1
            || classify(node, ty, enemy) == ArbitrationLevel::Bad,
{
}

/// One reply in this many to a mission query is a made-up mission.
pub const JOKE_ODDS: u8 = 64;

/// Relies on rand::random::<u8>: a byte from the thread-local generator.
/// Nothing is promised of its value.
#[verifier::external_body]
fn random_byte() -> (r: u8) {
    rand::random::<u8>()
}

/// Whether a drawn byte selects the made-up mission reply.
pub fn is_joke_roll(b: u8) -> (r: bool)
    ensures
        r == (b % JOKE_ODDS == 0),
{
    b % JOKE_ODDS == 0
}

/// Draws a byte and says whether it selects the made-up mission reply
/// (see `is_joke_roll`).
pub fn roll_joke() -> (r: bool) {
    let b = random_byte();
    is_joke_roll(b)
}

} // verus!
