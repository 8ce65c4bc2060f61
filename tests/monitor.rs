use wf_bot::game::{Arbitration, CetusCycle, CetusState, Enemy};
use wf_bot::monitor::{CycleMonitor, MissionMonitor};

fn tick_mission(id: &str, node: &str, type_key: &str) -> Arbitration {
    Arbitration {
        id: id.to_string(),
        activation: 0,
        expiry: 3_600,
        start_string: None,
        active: None,
        node: node.to_string(),
        node_key: None,
        enemy: Enemy::Grineer,
        enemy_key: None,
        mission_type: type_key.to_string(),
        type_key: type_key.to_string(),
        archwing: false,
        sharkwing: false,
    }
}

fn cycle(id: &str, is_day: bool, expiry: i64) -> CetusCycle {
    CetusCycle {
        id: id.to_string(),
        expiry,
        activation: 0,
        is_day,
        state: if is_day { CetusState::Day } else { CetusState::Night },
    }
}

#[test]
fn first_mission_is_silent() {
    let mut m = MissionMonitor::new();
    assert!(!m.observe(&tick_mission("a", "水星", "Interception")));
    assert_eq!(m.last_id.as_deref(), Some("a"));
}

#[test]
fn good_mission_notifies_once() {
    let mut m = MissionMonitor::new();
    assert!(!m.observe(&tick_mission("a", "火星", "Survival")));
    let good = tick_mission("b", "水星", "Interception");
    assert!(m.observe(&good));
    assert_eq!(m.last_id.as_deref(), Some("b"));
    assert!(!m.observe(&good));
    assert!(!m.observe(&good));
}

#[test]
fn weaker_mission_is_not_adopted() {
    let mut m = MissionMonitor::new();
    assert!(!m.observe(&tick_mission("a", "火星", "Survival")));
    assert!(!m.observe(&tick_mission("b", "地球", "Defense")));
    assert_eq!(m.last_id.as_deref(), Some("a"));
}

#[test]
fn cycle_alert_threshold() {
    let mut m = CycleMonitor::new();
    assert!(m.observe(&cycle("d1", true, 10_650), 10_000));
    assert_eq!(m.last_id.as_deref(), Some("d1"));
    let mut m = CycleMonitor::new();
    assert!(!m.observe(&cycle("d1", true, 10_900), 10_000));
    assert_eq!(m.last_id, None);
}

#[test]
fn cycle_boundary_and_night() {
    let mut m = CycleMonitor::new();
    assert!(!m.observe(&cycle("d1", true, 10_700), 10_000));
    assert!(m.observe(&cycle("d1", true, 10_699), 10_000));
    assert!(!m.observe(&cycle("d1", true, 10_100), 10_000));
    let mut n = CycleMonitor::new();
    assert!(!n.observe(&cycle("n1", false, 10_100), 10_000));
}

#[test]
fn cycle_record_reevaluated_until_it_fires() {
    let mut m = CycleMonitor::new();
    let rec = cycle("d1", true, 11_000);
    assert!(!m.observe(&rec, 10_000));
    assert!(!m.observe(&rec, 10_200));
    assert!(m.observe(&rec, 10_400));
    assert!(!m.observe(&rec, 10_600));
}

#[test]
fn cycle_by_clock_fires_for_expired_day() {
    let mut m = CycleMonitor::new();
    assert!(m.observe_now(&cycle("old", true, 0)));
    assert!(!m.observe_now(&cycle("old", true, 0)));
}
