//! Per-feed polling state machines. Each tick hands the freshly fetched
//! record to `observe`, which updates the last-seen identifier and says
//! whether a notification is due. Fetch failures are not observed at all:
//! they leave the state as it was.

use vstd::prelude::*;
use crate::clock::now_unix;
use crate::game::{level_of, Arbitration, ArbitrationLevel, CetusCycle};
use crate::text::text_eq;

verus! {

/// A day phase with less than this many seconds left triggers the cycle alert.
pub const CYCLE_ALERT_SECONDS: i64 = 700;

/// Poll interval of both feeds, in seconds.
pub const POLL_INTERVAL_SECONDS: u64 = 30;

pub open spec fn id_view(id: Option<String>) -> Option<Seq<char>> {
    match id {
        Some(s) => Some(s@),
        None => None,
    }
}

/// One tick of the mission feed: the next last-seen identifier and whether
/// to notify. The first record ever seen is adopted silently; afterwards a
/// new identifier is adopted, with a notification, only when its tier is `T0`.
pub open spec fn mission_step(last: Option<Seq<char>>, id: Seq<char>, level: ArbitrationLevel) -> (
    Option<Seq<char>>,
    bool,
) {
    if last == Some(id) {
        (last, false)
    } else if last is None {
        (Some(id), false)
    } else if level == ArbitrationLevel::T0 {
        (Some(id), true)
    } else {
        (last, false)
    }
}

/// One tick of the cycle feed, `remaining` seconds before the phase ends.
/// A new identifier is adopted only together with a notification, which is
/// due in the day phase with less than the alert threshold left.
pub open spec fn cycle_step(last: Option<Seq<char>>, id: Seq<char>, is_day: bool, remaining: int) -> (
    Option<Seq<char>>,
    bool,
) {
    if last == Some(id) {
        (last, false)
    } else if remaining < CYCLE_ALERT_SECONDS && is_day {
        (Some(id), true)
    } else {
        (last, false)
    }
}

fn same_id(last: &Option<String>, id: &String) -> (r: bool)
    ensures
        r == (id_view(*last) == Some(id@)),
{
    match last {
        Some(s) => text_eq(s.as_str(), id.as_str()),
        None => false,
    }
}

/// State of the mission feed.
pub struct MissionMonitor {
    pub last_id: Option<String>,
}

impl MissionMonitor {
    pub open spec fn last_seen(&self) -> Option<Seq<char>> {
        id_view(self.last_id)
    }

    /// A monitor that has seen nothing yet.
    pub fn new() -> (r: Self)
        ensures
            r.last_seen() is None,
    {
        MissionMonitor { last_id: None }
    }

    /// Takes in one fetched mission; returns whether to notify.
    pub fn observe(&mut self, data: &Arbitration) -> (notify: bool)
        ensures
            (final(self).last_seen(), notify) == mission_step(
                old(self).last_seen(),
                data.id@,
                level_of(*data),
            ),
    {
        if same_id(&self.last_id, &data.id) {
            return false;
        }
        if self.last_id.is_none() {
            self.last_id = Some(data.id.clone());
            return false;
        }
        if let ArbitrationLevel::T0 = ArbitrationLevel::from_data(data) {
            self.last_id = Some(data.id.clone());
            true
        } else {
            false
        }
    }
}

/// State of the cycle feed.
pub struct CycleMonitor {
    pub last_id: Option<String>,
}

impl CycleMonitor {
    pub open spec fn last_seen(&self) -> Option<Seq<char>> {
        id_view(self.last_id)
    }

    /// A monitor that has seen nothing yet.
    pub fn new() -> (r: Self)
        ensures
            r.last_seen() is None,
    {
        CycleMonitor { last_id: None }
    }

    /// Takes in one fetched cycle record at time `now`; returns whether to notify.
    pub fn observe(&mut self, data: &CetusCycle, now: i64) -> (notify: bool)
        ensures
            (final(self).last_seen(), notify) == cycle_step(
                old(self).last_seen(),
                data.id@,
                data.is_day,
                data.expiry - now,
            ),
    {
        if same_id(&self.last_id, &data.id) {
            return false;
        }
        let remaining = data.expiry as i128 - now as i128;
        if remaining < CYCLE_ALERT_SECONDS as i128 && data.is_day {
            self.last_id = Some(data.id.clone());
            true
        } else {
            false
        }
    }

    /// Takes in one fetched cycle record at the system clock's time.
    pub fn observe_now(&mut self, data: &CetusCycle) -> (notify: bool)
        ensures
            exists|now: i64|
                (final(self).last_seen(), notify) == #[trigger] cycle_step(
                    old(self).last_seen(),
                    data.id@,
                    data.is_day,
                    data.expiry - now,
                ),
    {
        let now = now_unix();
        self.observe(data, now)
    }
}

/// The mission feed never notifies twice for one record: right after a tick,
/// a tick that brings the same mission again is silent and changes nothing.
pub proof fn lemma_mission_repeat_is_silent(last: Option<Seq<char>>, id: Seq<char>, level: ArbitrationLevel)
    ensures
        ({
            let s1 = mission_step(last, id, level).0;
            mission_step(s1, id, level) == (s1, false)
        }),
{
}

/// A mission notification comes only on a change of identifier after the
/// first record, only for tier `T0`, and marks the new identifier as seen.
pub proof fn lemma_mission_notify_is_transition(last: Option<Seq<char>>, id: Seq<char>, level: ArbitrationLevel)
    ensures
        mission_step(last, id, level).1 ==> {
            &&& last is Some
            &&& last != Some(id)
            &&& level == ArbitrationLevel::T0
            &&& mission_step(last, id, level).0 == Some(id)
        },
{
}

/// After a cycle notification the same record is silent on every later tick,
/// whatever the time.
pub proof fn lemma_cycle_notify_once(
    last: Option<Seq<char>>,
    id: Seq<char>,
    is_day: bool,
    remaining: int,
    later: int,
)
    requires
        cycle_step(last, id, is_day, remaining).1,
    ensures
        ({
            let s1 = cycle_step(last, id, is_day, remaining).0;
            cycle_step(s1, id, is_day, later) == (s1, false)
        }),
{
}

/// One tick of the mission feed as the state machine sees it: the record's
/// identifier and tier.
pub type MissionTick = (Seq<char>, ArbitrationLevel);

/// State and number of notifications after a run of ticks.
pub open spec fn mission_run(last: Option<Seq<char>>, ticks: Seq<MissionTick>) -> (Option<Seq<char>>, nat)
    decreases ticks.len(),
{
    if ticks.len() == 0 {
        (last, 0)
    } else {
        let before = mission_run(last, ticks.drop_last());
        let step = mission_step(before.0, ticks.last().0, ticks.last().1);
        (step.0, before.1 + if step.1 { 1nat } else { 0nat })
    }
}

/// Number of ticks that bring a `T0` record whose identifier differs from
/// the tick before (the first tick counts).
pub open spec fn t0_transitions(ticks: Seq<MissionTick>) -> nat
    decreases ticks.len(),
{
    if ticks.len() == 0 {
        0
    } else {
        let n = ticks.len() as int;
        let fresh = n == 1 || ticks[n - 2].0 != ticks[n - 1].0;
        t0_transitions(ticks.drop_last()) + if ticks[n - 1].1 == ArbitrationLevel::T0 && fresh {
            1nat
        } else {
            0nat
        }
    }
}

proof fn lemma_mission_run_adopts_t0(last: Option<Seq<char>>, ticks: Seq<MissionTick>)
    requires
        ticks.len() > 0,
        ticks.last().1 == ArbitrationLevel::T0,
    ensures
        mission_run(last, ticks).0 == Some(ticks.last().0),
{
}

/// Over any run of ticks in which a repeated identifier brings the same tier,
/// the mission feed notifies at most once per transition into a new `T0`
/// identifier.
pub proof fn lemma_mission_notifications_bounded(last: Option<Seq<char>>, ticks: Seq<MissionTick>)
    requires
        forall|i: int|
            0 < i < ticks.len() && #[trigger] ticks[i].0 == ticks[i - 1].0 ==> ticks[i].1 == ticks[i - 1].1,
    ensures
        mission_run(last, ticks).1 <= t0_transitions(ticks),
    decreases ticks.len(),
{
    if ticks.len() > 0 {
        let pre = ticks.drop_last();
        let n = ticks.len() as int;
        assert forall|i: int| 0 < i < pre.len() && #[trigger] pre[i].0 == pre[i - 1].0 implies pre[i].1
            == pre[i - 1].1 by {
            assert(ticks[i].0 == ticks[i - 1].0);
        }
        lemma_mission_notifications_bounded(last, pre);
        if n > 1 && ticks[n - 2].0 == ticks[n - 1].0 && ticks[n - 1].1 == ArbitrationLevel::T0 {
            assert(ticks[n - 1].0 == ticks[n - 2].0);
            assert(pre.last() == ticks[n - 2]);
            lemma_mission_run_adopts_t0(last, pre);
        }
    }
}

} // verus!
