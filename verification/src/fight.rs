use vstd::prelude::*;
use crate::buddy::Attacker;
use crate::cast::{
    Cast, CastState, add_cast, cast_slot, latest_cast_index, lemma_last_at_or_before,
    lemma_latest_cast_index, lemma_latest_cast_index_none, lemma_latest_cast_index_unique,
};
use crate::evtc::Agent;

verus! {

/// What the skill data says of a skill: the cast its hits count toward,
/// whether hits of minions count, and how long after the cast started a hit
/// still belongs to it.
#[derive(Clone, Copy, Debug)]
pub struct SkillInfo {
    pub id: u32,
    pub minion: bool,
    pub max_duration: i32,
}

/// A boon applied by the own character or its minions.
#[derive(Clone, Copy, Debug, PartialEq, Eq)]
pub struct BuffApply {
    pub time: i32,
    pub buff: u32,
    pub duration: i32,
    /// Agent id of the agent that received the boon.
    pub target: usize,
}

/// A hit on a breakbar.
#[derive(Clone, Copy, Debug, PartialEq, Eq)]
pub struct BreakbarHit {
    pub time: i32,
    pub skill: u32,
    pub damage: i32,
    /// Agent id of the player or agent credited with the hit.
    pub attacker: usize,
    pub is_own: bool,
    /// Agent id of the agent hit.
    pub target: usize,
}

/// How a cast event was recorded.
#[derive(Clone, Copy, Debug, PartialEq, Eq)]
pub enum CastRecord {
    /// Not recorded.
    Ignored,
    /// Recorded on the existing cast at this index (completed, or hit).
    Existing(usize),
    /// Recorded as a new cast.
    Added,
}

/// What is recorded during a fight.
pub struct FightData {
    pub casts: Vec<Cast>,
    pub buffs: Vec<BuffApply>,
    pub breakbar: Vec<BreakbarHit>,
}

/// Agent id of whoever a breakbar hit is credited to.
pub open spec fn attacker_id(attacker: Attacker) -> usize {
    match attacker {
        Attacker::Player(player) => player.id,
        Attacker::Agent(agent) => agent.id,
    }
}

/// Whether a hit at `time` falls within `max` of the start of the latest cast
/// of its skill, where there is one.
pub open spec fn hit_in_window(casts: Seq<Cast>, id: u32, time: i32, max: i32) -> bool {
    match latest_cast_index(casts, id) {
        Some(j) => time - casts[j].time <= max,
        None => false,
    }
}

/// The time from the start of the latest cast of `id` to `time` fits an `i32`.
pub open spec fn hit_fits(casts: Seq<Cast>, id: u32, time: i32) -> bool {
    match latest_cast_index(casts, id) {
        Some(j) => i32::MIN <= time - casts[j].time <= i32::MAX,
        None => true,
    }
}

impl FightData {
    /// Nothing recorded yet.
    pub fn new() -> (f: Self)
        ensures
            f.casts@.len() == 0,
            f.buffs@.len() == 0,
            f.breakbar@.len() == 0,
    {
        FightData { casts: Vec::new(), buffs: Vec::new(), breakbar: Vec::new() }
    }

    /// Whether a cast of `skill` was recorded.
    pub fn has_cast(&self, skill: u32) -> (r: bool)
        ensures
            r == latest_cast_index(self.casts@, skill) is Some,
    {
        let len = self.casts.len();
        let mut i: usize = len;
        while i > 0
            invariant
                i <= len == self.casts.len(),
                forall|k: int| i <= k < len ==> #[trigger] self.casts@[k].skill != skill,
            decreases i,
        {
            if self.casts[i - 1].skill == skill {
                proof {
                    lemma_latest_cast_index_unique(self.casts@, skill, i - 1);
                }
                return true;
            }
            i = i - 1;
        }
        proof {
            lemma_latest_cast_index_none(self.casts@, skill);
        }
        false
    }

    /// Records the start of a cast of `skill` at `time`: a cast in the casting
    /// state is added in start-time order.
    pub fn cast_start(&mut self, skill: u32, time: i32)
        ensures
            final(self).casts@.len() == old(self).casts@.len() + 1,
            final(self).casts@.remove(cast_slot(old(self).casts@, time)) == old(self).casts@,
            final(self).casts@[cast_slot(old(self).casts@, time)].is_started(
                time,
                skill,
                CastState::Casting,
            ),
            final(self).buffs@ == old(self).buffs@,
            final(self).breakbar@ == old(self).breakbar@,
    {
        let cast = Cast::from_start(time, skill, CastState::Casting);
        let ghost c = cast;
        let ghost slot = cast_slot(self.casts@, time);
        proof {
            lemma_last_at_or_before(self.casts@, time);
        }
        add_cast(&mut self.casts, cast);
        assert(self.casts@.remove(slot) =~= old(self).casts@);
    }

    /// Records the end of a cast of `skill` at `time`, `duration` after it
    /// started, in `state`: the latest cast of that skill is completed; without
    /// one, a cast started `duration` before `time` and ended so is added.
    pub fn cast_end(&mut self, skill: u32, state: CastState, duration: i32, time: i32) -> (r:
        CastRecord)
        requires
            latest_cast_index(old(self).casts@, skill) is None ==> i32::MIN <= time - duration
                <= i32::MAX,
        ensures
            final(self).buffs@ == old(self).buffs@,
            final(self).breakbar@ == old(self).breakbar@,
            match latest_cast_index(old(self).casts@, skill) {
                Some(j) => {
                    &&& r == CastRecord::Existing(j as usize)
                    &&& final(self).casts@.len() == old(self).casts@.len()
                    &&& forall|k: int|
                        0 <= k < old(self).casts@.len() && k != j ==> final(self).casts@[k] == old(
                            self,
                        ).casts@[k]
                    &&& final(self).casts@[j].is_completed(old(self).casts@[j], state, duration)
                },
                None => {
                    let slot = cast_slot(old(self).casts@, (time - duration) as i32);
                    &&& r == CastRecord::Added
                    &&& final(self).casts@.len() == old(self).casts@.len() + 1
                    &&& final(self).casts@.remove(slot) == old(self).casts@
                    &&& final(self).casts@[slot].is_ended(
                        (time - duration) as i32,
                        skill,
                        state,
                        duration,
                    )
                },
            },
    {
        let len = self.casts.len();
        let mut i: usize = len;
        while i > 0
            invariant
                i <= len == self.casts.len(),
                self.casts@ == old(self).casts@,
                self.buffs@ == old(self).buffs@,
                self.breakbar@ == old(self).breakbar@,
                latest_cast_index(self.casts@, skill) is None ==> i32::MIN <= time - duration
                    <= i32::MAX,
                forall|k: int| i <= k < len ==> #[trigger] self.casts@[k].skill != skill,
            decreases i,
        {
            if self.casts[i - 1].skill == skill {
                proof {
                    lemma_latest_cast_index_unique(self.casts@, skill, i - 1);
                }
                self.casts[i - 1].complete(state, duration);
                return CastRecord::Existing(i - 1);
            }
            i = i - 1;
        }
        proof {
            lemma_latest_cast_index_none(self.casts@, skill);
            lemma_last_at_or_before(self.casts@, (time - duration) as i32);
        }
        let start = time - duration;
        let ghost slot = cast_slot(self.casts@, start);
        add_cast(&mut self.casts, Cast::from_end(start, skill, state, duration));
        assert(self.casts@.remove(slot) =~= old(self).casts@);
        CastRecord::Added
    }

    /// Records a damage hit on `target` at `time` of a skill described by `info`:
    /// a hit of a minion counts only for a skill whose minion hits count. The hit
    /// goes to the latest cast of `info.id` when it falls within
    /// `info.max_duration` of that cast's start; otherwise a cast seen through
    /// the hit is added.
    pub fn damage_hit(&mut self, info: Option<SkillInfo>, is_minion: bool, target: &Agent, time: i32) -> (r:
        CastRecord)
        requires
            info is Some && (info.unwrap().minion || !is_minion) ==> hit_fits(
                old(self).casts@,
                info.unwrap().id,
                time,
            ),
        ensures
            final(self).buffs@ == old(self).buffs@,
            final(self).breakbar@ == old(self).breakbar@,
            match info {
                Some(info) => if info.minion || !is_minion {
                    if hit_in_window(old(self).casts@, info.id, time, info.max_duration) {
                        let j = latest_cast_index(old(self).casts@, info.id).unwrap();
                        &&& r == CastRecord::Existing(j as usize)
                        &&& final(self).casts@.len() == old(self).casts@.len()
                        &&& forall|k: int|
                            0 <= k < old(self).casts@.len() && k != j ==> final(self).casts@[k]
                                == old(self).casts@[k]
                        &&& final(self).casts@[j].is_hit(old(self).casts@[j], target.id)
                    } else {
                        let slot = cast_slot(old(self).casts@, time);
                        &&& r == CastRecord::Added
                        &&& final(self).casts@.len() == old(self).casts@.len() + 1
                        &&& final(self).casts@.remove(slot) == old(self).casts@
                        &&& final(self).casts@[slot].is_from_hit(time, info.id, target.id)
                    }
                } else {
                    r == CastRecord::Ignored && final(self).casts@ == old(self).casts@
                },
                None => r == CastRecord::Ignored && final(self).casts@ == old(self).casts@,
            },
    {
        if let Some(skill_info) = info {
            if skill_info.minion || !is_minion {
                let max = skill_info.max_duration;
                let id = skill_info.id;
                proof {
                    lemma_last_at_or_before(self.casts@, time);
                }
                let ghost slot = cast_slot(self.casts@, time);
                let len = self.casts.len();
                let mut i: usize = len;
                while i > 0
                    invariant
                        i <= len == self.casts.len(),
                        self.casts@ == old(self).casts@,
                        self.buffs@ == old(self).buffs@,
                        self.breakbar@ == old(self).breakbar@,
                        hit_fits(self.casts@, id, time),
                        info == Some(skill_info),
                        id == skill_info.id,
                        max == skill_info.max_duration,
                        skill_info.minion || !is_minion,
                        slot == cast_slot(old(self).casts@, time),
                        0 <= slot <= len,
                        forall|k: int| i <= k < len ==> #[trigger] self.casts@[k].skill != id,
                    decreases i,
                {
                    if self.casts[i - 1].skill == id {
                        proof {
                            lemma_latest_cast_index_unique(self.casts@, id, i - 1);
                        }
                        if time - self.casts[i - 1].time <= max {
                            self.casts[i - 1].hit(target.id);
                            return CastRecord::Existing(i - 1);
                        }
                        add_cast(&mut self.casts, Cast::from_hit(time, id, target.id));
                        assert(self.casts@.remove(slot) =~= old(self).casts@);
                        return CastRecord::Added;
                    }
                    i = i - 1;
                }
                proof {
                    lemma_latest_cast_index_none(self.casts@, id);
                }
                add_cast(&mut self.casts, Cast::from_hit(time, id, target.id));
                assert(self.casts@.remove(slot) =~= old(self).casts@);
                return CastRecord::Added;
            }
        }
        CastRecord::Ignored
    }

    /// Records a boon applied to `target`.
    pub fn apply_buff(&mut self, time: i32, buff: u32, duration: i32, target: &Agent)
        ensures
            final(self).buffs@ == old(self).buffs@.push(
                BuffApply { time, buff, duration, target: target.id },
            ),
            final(self).casts@ == old(self).casts@,
            final(self).breakbar@ == old(self).breakbar@,
    {
        self.buffs.push(BuffApply { time, buff, duration, target: target.id });
    }

    /// Records a breakbar hit on `target`, credited to `attacker`.
    pub fn breakbar_hit(
        &mut self,
        time: i32,
        skill: u32,
        attacker: &Attacker,
        is_own: bool,
        target: &Agent,
        damage: i32,
    )
        ensures
            final(self).breakbar@ == old(self).breakbar@.push(
                BreakbarHit {
                    time,
                    skill,
                    damage,
                    attacker: attacker_id(*attacker),
                    is_own,
                    target: target.id,
                },
            ),
            final(self).casts@ == old(self).casts@,
            final(self).buffs@ == old(self).buffs@,
    {
        let attacker = match attacker {
            Attacker::Player(player) => player.id,
            Attacker::Agent(agent) => agent.id,
        };
        self.breakbar.push(BreakbarHit { time, skill, damage, attacker, is_own, target: target.id });
    }
}

/// Whether a hit falls in the window of the latest cast of its skill depends
/// on the two times and the window alone: it does exactly when the hit comes at
/// most `max` after that cast started; without a cast of the skill it never does.
pub proof fn lemma_hit_window(casts: Seq<Cast>, id: u32, time: i32, max: i32)
    ensures
        match latest_cast_index(casts, id) {
            Some(j) => hit_in_window(casts, id, time, max) <==> time - casts[j].time <= max,
            None => !hit_in_window(casts, id, time, max),
        },
{
}

/// Recording a hit on the latest cast of a skill changes nothing about which
/// later hits fall in its window: a second hit within the window goes to the
/// same cast, whatever hits it already has.
pub proof fn lemma_hit_keeps_window(
    casts: Seq<Cast>,
    id: u32,
    hit: Cast,
    time: i32,
    max: i32,
)
    requires
        latest_cast_index(casts, id) is Some,
        hit.time == casts[latest_cast_index(casts, id).unwrap()].time,
        hit.skill == casts[latest_cast_index(casts, id).unwrap()].skill,
    ensures
        ({
            let j = latest_cast_index(casts, id).unwrap();
            let after = casts.update(j, hit);
            &&& latest_cast_index(after, id) == Some(j)
            &&& hit_in_window(after, id, time, max) == hit_in_window(casts, id, time, max)
        }),
{
    let j = latest_cast_index(casts, id).unwrap();
    let after = casts.update(j, hit);
    lemma_latest_cast_index(casts, id);
    assert forall|k: int| j < k < after.len() implies #[trigger] after[k].skill != id by {
        assert(after[k] == casts[k]);
    }
    lemma_latest_cast_index_unique(after, id, j);
}

/// A fight: when it started, and what was recorded during it.
pub struct Fight {
    pub start: u64,
    pub data: FightData,
}

impl Fight {
    /// A fight starting at `start`, with nothing recorded yet.
    pub fn new(start: u64) -> (f: Self)
        ensures
            f.start == start,
            f.data.casts@.len() == 0,
            f.data.buffs@.len() == 0,
            f.data.breakbar@.len() == 0,
    {
        Fight { start, data: FightData::new() }
    }

    /// The time of an event at `time` relative to the fight's start: `None` for
    /// an event before the start, or too long after it to fit an `i32`.
    pub fn relative_time(&self, time: u64) -> (r: Option<i32>)
        ensures
            r == spec_relative_time(self.start, time),
    {
        if self.start <= time && time - self.start <= 0x7fff_ffffu64 {
            Some((time - self.start) as i32)
        } else {
            None
        }
    }
}

/// The time of an event at `time` relative to a fight started at `start`:
/// `None` for an event before the start, or too long after it to fit an `i32`.
pub open spec fn spec_relative_time(start: u64, time: u64) -> Option<i32> {
    if start <= time && time - start <= i32::MAX {
        Some((time - start) as i32)
    } else {
        None
    }
}

/// How the fight history is kept: how many fights, the least duration a fight
/// needs to be kept after it ended, and whether short fights are discarded when
/// they end (or else when the next one starts).
#[derive(Clone, Copy, Debug, PartialEq, Eq)]
pub struct HistorySettings {
    pub max_fights: usize,
    pub min_duration: u64,
    pub discard_at_end: bool,
}

/// The fights seen so far, latest last.
pub struct History {
    pub settings: HistorySettings,
    pub fights: Vec<Fight>,
}

impl History {
    /// An empty history kept by the given settings.
    pub fn new(max_fights: usize, min_duration: u64, discard_at_end: bool) -> (h: Self)
        ensures
            h.settings == (HistorySettings { max_fights, min_duration, discard_at_end }),
            h.fights@.len() == 0,
    {
        History {
            settings: HistorySettings { max_fights, min_duration, discard_at_end },
            fights: Vec::new(),
        }
    }

    /// The time of an event at `time` relative to the start of the latest
    /// fight; `None` without a fight.
    pub fn relative_time(&self, time: u64) -> (r: Option<i32>)
        ensures
            r == if self.fights@.len() == 0 {
                None
            } else {
                spec_relative_time(self.fights@.last().start, time)
            },
    {
        let len = self.fights.len();
        if len == 0 {
            None
        } else {
            self.fights[len - 1].relative_time(time)
        }
    }

    /// The latest fight, to record into.
    pub fn latest_fight_mut(&mut self) -> (r: Option<&mut Fight>)
        ensures
            final(self).settings == old(self).settings,
            old(self).fights@.len() == 0 ==> r is None && final(self).fights@ == old(
                self,
            ).fights@,
            old(self).fights@.len() > 0 ==> r is Some && *r.unwrap() == old(self).fights@.last()
                && final(self).fights@ == old(self).fights@.update(
                old(self).fights@.len() - 1,
                *final(r.unwrap()),
            ),
    {
        let len = self.fights.len();
        if len == 0 {
            None
        } else {
            Some(&mut self.fights[len - 1])
        }
    }
}

} // verus!
