use wf_bot::game::{
    is_joke_roll, remaining_minutes, remaining_seconds, roll_joke, Arbitration, ArbitrationLevel,
    CetusCycle, CetusState, Enemy,
};

fn mission(node: &str, type_key: &str, enemy: Enemy) -> Arbitration {
    Arbitration {
        id: "m1".to_string(),
        activation: 1_000,
        expiry: 4_600,
        start_string: None,
        active: Some(true),
        node: node.to_string(),
        node_key: None,
        enemy,
        enemy_key: None,
        mission_type: type_key.to_string(),
        type_key: type_key.to_string(),
        archwing: false,
        sharkwing: false,
    }
}

#[test]
fn earth_defense_is_marginal() {
    let m = mission("地球", "Defense", Enemy::Grineer);
    assert_eq!(ArbitrationLevel::from_data(&m), ArbitrationLevel::T1);
}

#[test]
fn mercury_interception_is_highest() {
    let m = mission("水星", "Interception", Enemy::Grineer);
    assert_eq!(ArbitrationLevel::from_data(&m), ArbitrationLevel::T0);
}

#[test]
fn location_matches_by_substring() {
    let m = mission("Apollodorus (水星)", "Interception", Enemy::Infested);
    assert_eq!(ArbitrationLevel::from_data(&m), ArbitrationLevel::T0);
    let m = mission("Cassini (土星)", "Interception", Enemy::Infested);
    assert_eq!(ArbitrationLevel::from_data(&m), ArbitrationLevel::T1);
}

#[test]
fn pluto_defense_depends_on_faction() {
    let corpus = mission("Hydra (冥王星)", "Defense", Enemy::Corpus);
    assert_eq!(ArbitrationLevel::from_data(&corpus), ArbitrationLevel::T1);
    let grineer = mission("Hydra (冥王星)", "Defense", Enemy::Grineer);
    assert_eq!(ArbitrationLevel::from_data(&grineer), ArbitrationLevel::T0);
    let dark = mission("Hydra (冥王星)", "Dark Sector Defense", Enemy::Corpus);
    assert_eq!(ArbitrationLevel::from_data(&dark), ArbitrationLevel::T0);
}

#[test]
fn table_rows_in_order() {
    let rows = [
        ("穀神星", "Defense", ArbitrationLevel::T0),
        ("穀神星", "Interception", ArbitrationLevel::T0),
        ("賽德娜", "Defense", ArbitrationLevel::T0),
        ("賽德娜", "Interception", ArbitrationLevel::Bad),
        ("水星", "Defense", ArbitrationLevel::T1),
        ("海王星", "Interception", ArbitrationLevel::T1),
        ("土星", "Defense", ArbitrationLevel::T0),
        ("金星", "Defense", ArbitrationLevel::T1),
        ("金星", "Interception", ArbitrationLevel::Bad),
        ("虛空", "Interception", ArbitrationLevel::T1),
        ("虚空", "Interception", ArbitrationLevel::T1),
        ("虚空", "Defense", ArbitrationLevel::Bad),
        ("火星", "Defense", ArbitrationLevel::Bad),
        ("地球", "Survival", ArbitrationLevel::Bad),
    ];
    for (node, ty, want) in rows {
        let m = mission(node, ty, Enemy::Grineer);
        assert_eq!(ArbitrationLevel::from_data(&m), want, "{} {}", node, ty);
    }
}

#[test]
fn tier_ignores_timestamps_and_id() {
    let a = mission("水星", "Defense", Enemy::Corpus);
    let mut b = a.clone();
    b.id = "other".to_string();
    b.activation = -5;
    b.expiry = 9_999_999;
    assert_eq!(ArbitrationLevel::from_data(&a), ArbitrationLevel::from_data(&b));
}

#[test]
fn remaining_time_can_be_negative() {
    assert_eq!(remaining_seconds(100, 160), -60);
    assert_eq!(remaining_seconds(i64::MIN, i64::MAX), i64::MIN as i128 - i64::MAX as i128);
    assert_eq!(remaining_minutes(100, 219), -1);
    assert_eq!(remaining_minutes(100, 100), 0);
    assert_eq!(remaining_minutes(3_700, 100), 60);
    assert_eq!(remaining_minutes(100, 3_700), -60);
    let m = mission("地球", "Defense", Enemy::Grineer);
    assert_eq!(m.remaining_minutes_at(4_600 + 90), -1);
}

#[test]
fn remaining_minutes_by_clock_of_expired_record() {
    let m = mission("地球", "Defense", Enemy::Grineer);
    assert!(m.remaining_minutes_now() < -1_000_000);
    let c = CetusCycle { id: "c".to_string(), expiry: 0, activation: 0, is_day: true, state: CetusState::Day };
    assert!(c.remaining_minutes_now() < -1_000_000);
}

#[test]
fn nicknames() {
    assert_eq!(Enemy::Corpus.nickname(), "c佬");
    assert_eq!(Enemy::Tenno.nickname(), "天..天诺?");
    assert_eq!(ArbitrationLevel::T0.nickname(), "打它丫的");
    assert_eq!(ArbitrationLevel::Bad.nickname(), "垃圾图/未定级");
    assert_eq!(CetusState::Day.chinese(), "白天");
    assert_eq!(CetusState::Night.chinese(), "黑夜");
}

#[test]
fn joke_roll_odds() {
    assert!(is_joke_roll(0));
    assert!(is_joke_roll(192));
    assert!(!is_joke_roll(1));
    assert!(!is_joke_roll(255));
    let hits = (0..2000).filter(|_| roll_joke()).count();
    assert!(hits < 2000);
}
