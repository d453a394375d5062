use vstd::prelude::*;
use crate::evtc::{Agent, CombatResult, Event, StateChange};
use crate::player::Player;
use crate::cast::CastState;
use crate::fight::{History, HistorySettings};
use crate::settings::LoadError;

verus! {

/// Index of the first player with the given agent id.
pub open spec fn position_of_id(players: Seq<Player>, id: usize) -> Option<int>
    decreases players.len(),
{
    if players.len() == 0 {
        None
    } else if players[0].id == id {
        Some(0)
    } else {
        match position_of_id(players.drop_first(), id) {
            Some(i) => Some(i + 1),
            None => None,
        }
    }
}

/// Index of the first player with the given instance id.
pub open spec fn position_of_instance(players: Seq<Player>, instance_id: u16) -> Option<int>
    decreases players.len(),
{
    if players.len() == 0 {
        None
    } else if players[0].instance_id == instance_id {
        Some(0)
    } else {
        match position_of_instance(players.drop_first(), instance_id) {
            Some(i) => Some(i + 1),
            None => None,
        }
    }
}

/// `position_of_id` finds `i` exactly when player `i` has the id and no earlier
/// player has; it finds nothing when no player has the id.
pub proof fn lemma_position_of_id(players: Seq<Player>, id: usize)
    ensures
        match position_of_id(players, id) {
            Some(i) => 0 <= i < players.len() && players[i].id == id && forall|k: int|
                0 <= k < i ==> #[trigger] players[k].id != id,
            None => forall|k: int| 0 <= k < players.len() ==> #[trigger] players[k].id != id,
        },
    decreases players.len(),
{
    if players.len() > 0 {
        let s = players.drop_first();
        lemma_position_of_id(s, id);
        assert forall|k: int| 0 <= k < s.len() implies s[k] == players[k + 1] by {}
        if players[0].id != id {
            assert forall|k: int| 1 <= k < players.len() implies players[k] == s[k - 1] by {}
        }
    }
}

/// `position_of_instance` finds `i` exactly when player `i` has the instance id
/// and no earlier player has; it finds nothing when no player has it.
pub proof fn lemma_position_of_instance(players: Seq<Player>, instance_id: u16)
    ensures
        match position_of_instance(players, instance_id) {
            Some(i) => 0 <= i < players.len() && players[i].instance_id == instance_id
                && forall|k: int| 0 <= k < i ==> #[trigger] players[k].instance_id != instance_id,
            None => forall|k: int|
                0 <= k < players.len() ==> #[trigger] players[k].instance_id != instance_id,
        },
    decreases players.len(),
{
    if players.len() > 0 {
        let s = players.drop_first();
        lemma_position_of_instance(s, instance_id);
        assert forall|k: int| 0 <= k < s.len() implies s[k] == players[k + 1] by {}
        if players[0].instance_id != instance_id {
            assert forall|k: int| 1 <= k < players.len() implies players[k] == s[k - 1] by {}
        }
    }
}

proof fn lemma_position_of_id_at(players: Seq<Player>, id: usize, i: int)
    requires
        0 <= i < players.len(),
        players[i].id == id,
        forall|k: int| 0 <= k < i ==> #[trigger] players[k].id != id,
    ensures
        position_of_id(players, id) == Some(i),
    decreases players.len(),
{
    if i > 0 {
        let s = players.drop_first();
        assert(players[0].id != id);
        assert forall|k: int| 0 <= k < i - 1 implies #[trigger] s[k].id != id by {
            assert(s[k] == players[k + 1]);
        }
        lemma_position_of_id_at(s, id, i - 1);
    }
}

proof fn lemma_position_of_id_none(players: Seq<Player>, id: usize)
    requires
        forall|k: int| 0 <= k < players.len() ==> #[trigger] players[k].id != id,
    ensures
        position_of_id(players, id) is None,
    decreases players.len(),
{
    if players.len() > 0 {
        let s = players.drop_first();
        assert forall|k: int| 0 <= k < s.len() implies #[trigger] s[k].id != id by {
            assert(s[k] == players[k + 1]);
        }
        lemma_position_of_id_none(s, id);
    }
}

proof fn lemma_position_of_instance_at(players: Seq<Player>, instance_id: u16, i: int)
    requires
        0 <= i < players.len(),
        players[i].instance_id == instance_id,
        forall|k: int| 0 <= k < i ==> #[trigger] players[k].instance_id != instance_id,
    ensures
        position_of_instance(players, instance_id) == Some(i),
    decreases players.len(),
{
    if i > 0 {
        let s = players.drop_first();
        assert(players[0].instance_id != instance_id);
        assert forall|k: int| 0 <= k < i - 1 implies #[trigger] s[k].instance_id != instance_id by {
            assert(s[k] == players[k + 1]);
        }
        lemma_position_of_instance_at(s, instance_id, i - 1);
    }
}

proof fn lemma_position_of_instance_none(players: Seq<Player>, instance_id: u16)
    requires
        forall|k: int| 0 <= k < players.len() ==> #[trigger] players[k].instance_id != instance_id,
    ensures
        position_of_instance(players, instance_id) is None,
    decreases players.len(),
{
    if players.len() > 0 {
        let s = players.drop_first();
        assert forall|k: int| 0 <= k < s.len() implies #[trigger] s[k].instance_id
            != instance_id by {
            assert(s[k] == players[k + 1]);
        }
        lemma_position_of_instance_none(s, instance_id);
    }
}

/// The players left when the first player with agent id `id` is removed and
/// the last player takes its place.
pub open spec fn players_without(players: Seq<Player>, id: usize) -> Seq<Player> {
    match position_of_id(players, id) {
        Some(i) => players.update(i, players.last()).drop_last(),
        None => players,
    }
}

/// Removing the id of a player that was just added, when no other tracked
/// player had that id, gives back the players as they were.
pub proof fn lemma_remove_added_player(players: Seq<Player>, player: Player)
    requires
        position_of_id(players, player.id) is None,
    ensures
        players_without(players.push(player), player.id) == players,
{
    lemma_position_of_id(players, player.id);
    let s = players.push(player);
    assert forall|k: int| 0 <= k < players.len() implies #[trigger] s[k].id != player.id by {
        assert(s[k] == players[k]);
    }
    lemma_position_of_id_at(s, player.id, players.len() as int);
    assert(s.update(players.len() as int, s.last()).drop_last() =~= players);
}

/// Removing a player takes exactly one player away, the first with that id,
/// and keeps every other player; without such a player nothing changes.
pub proof fn lemma_remove_player_keeps_others(players: Seq<Player>, id: usize)
    ensures
        match position_of_id(players, id) {
            Some(i) => {
                &&& players_without(players, id).len() == players.len() - 1
                &&& i < players.len() - 1 ==> players_without(players, id)[i] == players.last()
                &&& forall|k: int|
                    0 <= k < players.len() - 1 && k != i ==> players_without(players, id)[k]
                        == players[k]
                &&& forall|k: int|
                    0 <= k < players.len() && k != i ==> players_without(
                        players,
                        id,
                    ).contains(#[trigger] players[k])
            },
            None => players_without(players, id) == players,
        },
{
    lemma_position_of_id(players, id);
    if let Some(i) = position_of_id(players, id) {
        let r = players_without(players, id);
        assert forall|k: int| 0 <= k < players.len() && k != i implies r.contains(
            #[trigger] players[k],
        ) by {
            if k == players.len() - 1 {
                assert(r[i] == players[k]);
            } else {
                assert(r[k] == players[k]);
            }
        }
    }
}

/// The plugin state: the squad players tracked, the instance id of the own
/// character, the state of the custom skill data and the fight history.
pub struct Buddy {
    pub data_state: Result<usize, LoadError>,
    pub self_instance_id: Option<u16>,
    pub players: Vec<Player>,
    pub history: History,
}

impl Buddy {
    /// Creates a new buddy instance: no custom skill data loaded, no player
    /// tracked, and an empty fight history keeping 10 fights, of at least
    /// 5000 ms, discarding shorter ones when they end.
    pub fn new() -> (b: Self)
        ensures
            b.data_state == Err::<usize, LoadError>(LoadError::NotFound),
            b.self_instance_id is None,
            b.players@.len() == 0,
            b.history.settings == (HistorySettings {
                max_fights: 10,
                min_duration: 5000,
                discard_at_end: true,
            }),
            b.history.fights@.len() == 0,
    {
        Buddy {
            data_state: Err(LoadError::NotFound),
            self_instance_id: None,
            players: Vec::new(),
            history: History::new(10, 5000, true),
        }
    }

    /// Forgets the custom skill data: back to not found.
    pub fn reset_data(&mut self)
        ensures
            final(self).data_state == Err::<usize, LoadError>(LoadError::NotFound),
            final(self).self_instance_id == old(self).self_instance_id,
            final(self).players@ == old(self).players@,
            final(self).history == old(self).history,
    {
        self.data_state = Err(LoadError::NotFound);
    }

    /// Adds a tracked player; where it is the own character, remembers its instance id.
    pub fn add_player(&mut self, player: Player, is_self: bool)
        ensures
            final(self).players@ == old(self).players@.push(player),
            final(self).data_state == old(self).data_state,
            final(self).history == old(self).history,
            final(self).self_instance_id == if is_self {
                Some(player.instance_id)
            } else {
                old(self).self_instance_id
            },
    {
        if is_self {
            self.self_instance_id = Some(player.instance_id);
        }
        self.players.push(player);
    }

    /// Removes the first tracked player with the given agent id; the last
    /// player takes its place.
    pub fn remove_player(&mut self, id: usize)
        ensures
            final(self).self_instance_id == old(self).self_instance_id,
            final(self).data_state == old(self).data_state,
            final(self).history == old(self).history,
            final(self).players@ == players_without(old(self).players@, id),
    {
        let len = self.players.len();
        let mut i: usize = 0;
        while i < len
            invariant
                i <= len == self.players.len(),
                self.players@ == old(self).players@,
                self.self_instance_id == old(self).self_instance_id,
                self.data_state == old(self).data_state,
                self.history == old(self).history,
                forall|k: int| 0 <= k < i ==> #[trigger] self.players@[k].id != id,
            decreases len - i,
        {
            if self.players[i].id == id {
                proof {
                    lemma_position_of_id_at(self.players@, id, i as int);
                }
                self.players.swap_remove(i);
                return;
            }
            i = i + 1;
        }
        proof {
            lemma_position_of_id_none(self.players@, id);
        }
    }

    /// The tracked player whose minion caused the event: the first player whose
    /// instance id is the event's master instance id.
    pub fn get_master(&self, event: &Event) -> (r: Option<&Player>)
        ensures
            match position_of_instance(self.players@, event.src_master_instance_id) {
                Some(i) => r == Some(&self.players@[i]),
                None => r is None,
            },
    {
        let len = self.players.len();
        let mut i: usize = 0;
        while i < len
            invariant
                i <= len == self.players.len(),
                forall|k: int|
                    0 <= k < i ==> #[trigger] self.players@[k].instance_id
                        != event.src_master_instance_id,
            decreases len - i,
        {
            if self.players[i].instance_id == event.src_master_instance_id {
                proof {
                    lemma_position_of_instance_at(
                        self.players@,
                        event.src_master_instance_id,
                        i as int,
                    );
                }
                return Some(&self.players[i]);
            }
            i = i + 1;
        }
        proof {
            lemma_position_of_instance_none(self.players@, event.src_master_instance_id);
        }
        None
    }

    /// Whether the event's source is a minion of the own character.
    pub fn is_own_minion(&self, event: &Event) -> (r: bool)
        ensures
            r == (self.self_instance_id == Some(event.src_master_instance_id)),
    {
        match self.self_instance_id {
            Some(id) => event.src_master_instance_id == id,
            None => false,
        }
    }
}


/// Who a breakbar hit is credited to: the tracked player whose minion it was,
/// or else the attacking agent itself.
pub enum Attacker<'a> {
    Player(&'a Player),
    Agent(&'a Agent),
}

/// What a strike event leads to.
pub enum StrikeAction<'a> {
    /// Nothing is recorded.
    Ignore,
    /// A damage hit of the own character or of one of its minions.
    Damage { is_minion: bool, skill: u32, target: &'a Agent },
    /// Damage to a breakbar, by anyone.
    Breakbar { skill: u32, attacker: Attacker<'a>, is_own: bool, target: &'a Agent, damage: i32 },
}

/// What the fight history and the skill data say of a combat event: the caller
/// reads them where the event arrives.
#[derive(Clone, Copy, Debug)]
pub struct EventContext {
    /// The event's time relative to the start of the running fight; `None`
    /// when no fight is running.
    pub relative_time: Option<i32>,
    /// Whether the skill data holds the event's skill id.
    pub known_skill: bool,
    /// Whether the event's skill id is a boon.
    pub is_boon: bool,
    /// Whether the event's skill id is a condition.
    pub is_condition: bool,
}

/// What a combat event leads to: the handler that records it, with its arguments.
/// Times of records within a fight are relative to the fight's start.
pub enum CombatAction<'a> {
    /// Nothing is recorded.
    Ignore,
    /// A fight starts, against the given species and target.
    StartFight { time: u64, species: u32, target: Option<&'a Agent> },
    /// The latest fight's target changes.
    FightTarget { time: u64, species: u32, target: Option<&'a Agent> },
    /// The latest fight ends.
    EndFight { time: u64 },
    /// The own character starts casting a known skill during a fight.
    CastStart { time: i32, skill: u32, skill_name: Option<&'a str> },
    /// The own character stops casting a known skill during a fight, after
    /// `duration`, having got as far as `state`.
    CastEnd { time: i32, skill: u32, skill_name: Option<&'a str>, state: CastState, duration: i32 },
    /// A boon from the own character or one of its minions lands on another agent.
    ApplyBuff { time: i32, buff: u32, duration: i32, target: &'a Agent },
    /// A condition from the own character lands on another agent.
    ApplyCondition { time: i32, condition: u32, duration: i32, target: &'a Agent },
    /// All stacks of a condition on the own character are removed by itself.
    RemoveCondition { time: i32, condition: u32, value: i32 },
    /// A strike on a target during a fight.
    Strike { time: i32, skill: u32, skill_name: Option<&'a str>, strike: StrikeAction<'a> },
}

impl Buddy {
    /// Whom `strike` credits with a breakbar hit by `attacker`.
    pub open spec fn spec_attacker<'a>(&'a self, event: Event, attacker: &'a Agent) -> Attacker<'a> {
        match position_of_instance(self.players@, event.src_master_instance_id) {
            Some(i) => Attacker::Player(&self.players@[i]),
            None => Attacker::Agent(attacker),
        }
    }

    /// What a strike event of `attacker` on `target` leads to.
    pub open spec fn spec_strike<'a>(
        &'a self,
        event: Event,
        attacker: &'a Agent,
        target: &'a Agent,
    ) -> StrikeAction<'a> {
        let is_minion = self.self_instance_id == Some(event.src_master_instance_id);
        let is_own = attacker.is_self != 0 || is_minion;
        match event.result {
            CombatResult::StrikeDamage
            | CombatResult::StrikeDamageCrit
            | CombatResult::StrikeDamageGlance => if is_own {
                StrikeAction::Damage { is_minion, skill: event.skill_id, target }
            } else {
                StrikeAction::Ignore
            },
            CombatResult::BreakbarDamage => StrikeAction::Breakbar {
                skill: event.skill_id,
                attacker: self.spec_attacker(event, attacker),
                is_own,
                target,
                damage: event.value,
            },
            CombatResult::Other => StrikeAction::Ignore,
        }
    }

    /// What a buff application from `src` onto `dst` leads to: a boon id takes
    /// the boon path and never the condition path; an id that is neither is ignored.
    pub open spec fn spec_buff_apply<'a>(
        &'a self,
        event: Event,
        src: &'a Agent,
        dst: &'a Agent,
        ctx: EventContext,
    ) -> CombatAction<'a> {
        let src_self = src.is_self != 0;
        if ctx.is_boon {
            if dst.is_self == 0 && dst.id != src.id && (src_self || self.self_instance_id == Some(
                event.src_master_instance_id,
            )) && ctx.relative_time is Some {
                CombatAction::ApplyBuff {
                    time: ctx.relative_time.unwrap(),
                    buff: event.skill_id,
                    duration: event.value,
                    target: dst,
                }
            } else {
                CombatAction::Ignore
            }
        } else if ctx.is_condition {
            if src_self && dst.is_self == 0 && event.is_offcycle == 0 && ctx.relative_time is Some {
                CombatAction::ApplyCondition {
                    time: ctx.relative_time.unwrap(),
                    condition: event.skill_id,
                    duration: event.value,
                    target: dst,
                }
            } else {
                CombatAction::Ignore
            }
        } else {
            CombatAction::Ignore
        }
    }

    /// What a combat event with source `src` leads to.
    pub open spec fn spec_combat_action<'a>(
        &'a self,
        event: Event,
        src: &'a Agent,
        dst: Option<&'a Agent>,
        skill_name: Option<&'a str>,
        ctx: EventContext,
    ) -> CombatAction<'a> {
        let src_self = src.is_self != 0;
        let cast = src_self && ctx.relative_time is Some && ctx.known_skill;
        match event.statechange {
            StateChange::SquadCombatStart => CombatAction::StartFight {
                time: event.time,
                species: event.src_agent as u32,
                target: dst,
            },
            StateChange::LogNPCUpdate => CombatAction::FightTarget {
                time: event.time,
                species: event.src_agent as u32,
                target: dst,
            },
            StateChange::SquadCombatEnd => CombatAction::EndFight { time: event.time },
            StateChange::AnimationStart => if cast {
                CombatAction::CastStart {
                    time: ctx.relative_time.unwrap(),
                    skill: event.skill_id,
                    skill_name,
                }
            } else {
                CombatAction::Ignore
            },
            StateChange::AnimationStop => if cast {
                CombatAction::CastEnd {
                    time: ctx.relative_time.unwrap(),
                    skill: event.skill_id,
                    skill_name,
                    state: event.cast_state,
                    duration: event.value,
                }
            } else {
                CombatAction::Ignore
            },
            StateChange::BuffApply => match dst {
                Some(dst) => self.spec_buff_apply(event, src, dst, ctx),
                None => CombatAction::Ignore,
            },
            StateChange::BuffRemoveAll => match dst {
                Some(dst) => if src_self && dst.is_self != 0 && ctx.is_condition
                    && ctx.relative_time is Some {
                    CombatAction::RemoveCondition {
                        time: ctx.relative_time.unwrap(),
                        condition: event.skill_id,
                        value: event.value,
                    }
                } else {
                    CombatAction::Ignore
                },
                None => CombatAction::Ignore,
            },
            StateChange::Combat => match (dst, ctx.relative_time) {
                (Some(dst), Some(time)) => CombatAction::Strike {
                    time,
                    skill: event.skill_id,
                    skill_name,
                    strike: self.spec_strike(event, src, dst),
                },
                _ => CombatAction::Ignore,
            },
            StateChange::Other => CombatAction::Ignore,
        }
    }

    /// Classifies a strike of `attacker` on `target`: a damage hit counts where
    /// it is the own character's or its minion's; a breakbar hit counts for
    /// anyone and is credited to the master of a minion.
    pub fn strike<'a>(&'a self, event: &Event, attacker: &'a Agent, target: &'a Agent) -> (r:
        StrikeAction<'a>)
        ensures
            r == self.spec_strike(*event, attacker, target),
    {
        let id = event.skill_id;
        let is_minion = self.is_own_minion(event);
        let is_own = attacker.is_self != 0 || is_minion;
        match event.get_combat_result() {
            CombatResult::StrikeDamage
            | CombatResult::StrikeDamageCrit
            | CombatResult::StrikeDamageGlance => {
                if is_own {
                    StrikeAction::Damage { is_minion, skill: id, target }
                } else {
                    StrikeAction::Ignore
                }
            },
            CombatResult::BreakbarDamage => {
                let attacker = match self.get_master(event) {
                    Some(player) => Attacker::Player(player),
                    None => Attacker::Agent(attacker),
                };
                StrikeAction::Breakbar { skill: id, attacker, is_own, target, damage: event.value }
            },
            CombatResult::Other => StrikeAction::Ignore,
        }
    }

    /// Decides what a buff application from `src` onto `dst` leads to.
    fn buff_apply<'a>(
        &'a self,
        event: &Event,
        src: &'a Agent,
        dst: &'a Agent,
        ctx: EventContext,
    ) -> (r: CombatAction<'a>)
        ensures
            r == self.spec_buff_apply(*event, src, dst, ctx),
    {
        let src_self = src.is_self != 0;
        if ctx.is_boon {
            // only care about buff applies to other where source and dest are different
            if dst.is_self == 0 && dst.id != src.id {
                if src_self || self.is_own_minion(event) {
                    if let Some(time) = ctx.relative_time {
                        return CombatAction::ApplyBuff {
                            time,
                            buff: event.skill_id,
                            duration: event.value,
                            target: dst,
                        };
                    }
                }
            }
        } else if ctx.is_condition {
            // only care about condi applies from self to other and ignore extensions
            if src_self && dst.is_self == 0 && event.is_offcycle == 0 {
                if let Some(time) = ctx.relative_time {
                    return CombatAction::ApplyCondition {
                        time,
                        condition: event.skill_id,
                        duration: event.value,
                        target: dst,
                    };
                }
            }
        }
        CombatAction::Ignore
    }

    /// Decides what a combat event with source `src` leads to, given what the
    /// fight history and the skill data say of it.
    pub fn combat_event<'a>(
        &'a self,
        event: &Event,
        src: &'a Agent,
        dst: Option<&'a Agent>,
        skill_name: Option<&'a str>,
        ctx: EventContext,
    ) -> (r: CombatAction<'a>)
        ensures
            r == self.spec_combat_action(*event, src, dst, skill_name, ctx),
    {
        let src_self = src.is_self != 0;
        match event.get_statechange() {
            StateChange::SquadCombatStart => CombatAction::StartFight {
                time: event.time,
                species: event.src_agent as u32,
                target: dst,
            },
            StateChange::LogNPCUpdate => CombatAction::FightTarget {
                time: event.time,
                species: event.src_agent as u32,
                target: dst,
            },
            StateChange::SquadCombatEnd => CombatAction::EndFight { time: event.time },
            StateChange::AnimationStart => {
                if src_self {
                    if let Some(time) = ctx.relative_time {
                        if ctx.known_skill {
                            return CombatAction::CastStart {
                                time,
                                skill: event.skill_id,
                                skill_name,
                            };
                        }
                    }
                }
                CombatAction::Ignore
            },
            StateChange::AnimationStop => {
                if src_self {
                    if let Some(time) = ctx.relative_time {
                        if ctx.known_skill {
                            return CombatAction::CastEnd {
                                time,
                                skill: event.skill_id,
                                skill_name,
                                state: event.get_cast_state(),
                                duration: event.value,
                            };
                        }
                    }
                }
                CombatAction::Ignore
            },
            StateChange::BuffApply => {
                match dst {
                    Some(dst) => self.buff_apply(event, src, dst, ctx),
                    None => CombatAction::Ignore,
                }
            },
            StateChange::BuffRemoveAll => {
                if let Some(dst) = dst {
                    // only care about removes from self to self
                    if src_self && dst.is_self != 0 && ctx.is_condition {
                        if let Some(time) = ctx.relative_time {
                            return CombatAction::RemoveCondition {
                                time,
                                condition: event.skill_id,
                                value: event.value,
                            };
                        }
                    }
                }
                CombatAction::Ignore
            },
            StateChange::Combat => {
                match (dst, ctx.relative_time) {
                    (Some(dst), Some(time)) => CombatAction::Strike {
                        time,
                        skill: event.skill_id,
                        skill_name,
                        strike: self.strike(event, src, dst),
                    },
                    _ => CombatAction::Ignore,
                }
            },
            StateChange::Other => CombatAction::Ignore,
        }
    }
}

impl Buddy {
    /// Handles a combat callback. A combat event is classified by `combat_event`;
    /// without an event, a source of elite 0 and non-zero profession with a
    /// destination is a tracking change that adds the player it describes.
    pub fn event<'a>(
        &'a mut self,
        event: Option<&Event>,
        src: Option<&'a Agent>,
        dst: Option<&'a Agent>,
        skill_name: Option<&'a str>,
        ctx: EventContext,
    ) -> (r: CombatAction<'a>)
        ensures
            src is None ==> r == CombatAction::Ignore && *final(self) == *old(self),
            src is Some && event is Some ==> r == old(self).spec_combat_action(
                *event.unwrap(),
                src.unwrap(),
                dst,
                skill_name,
                ctx,
            ) && *final(self) == *old(self),
            src is Some && event is None ==> r == CombatAction::Ignore,
            src is Some && event is None && !(dst is Some && src.unwrap().elite == 0
                && src.unwrap().prof != 0) ==> *final(self) == *old(self),
            src is Some && event is None && dst is Some && src.unwrap().elite == 0
                && src.unwrap().prof != 0 ==> {
                &&& final(self).data_state == old(self).data_state
                &&& final(self).history == old(self).history
                &&& final(self).players@.len() == old(self).players@.len() + 1
                &&& final(self).players@.drop_last() == old(self).players@
                &&& final(self).players@.last().is_tracked(*src.unwrap(), *dst.unwrap())
                &&& final(self).self_instance_id == if dst.unwrap().is_self != 0 {
                    Some(final(self).players@.last().instance_id)
                } else {
                    old(self).self_instance_id
                }
            },
    {
        if let Some(src) = src {
            if let Some(event) = event {
                let this: &'a Buddy = self;
                return this.combat_event(event, src, dst, skill_name, ctx);
            } else if let Some(dst) = dst {
                // check for tracking addition
                if src.elite == 0 && src.prof != 0 {
                    if src.prof != 0 {
                        // player added
                        let player = Player::from_tracking_change(src, dst);
                        self.add_player(player, dst.is_self != 0);
                    } else {
                        // player removed
                        self.remove_player(src.id);
                    }
                }
            }
        }
        CombatAction::Ignore
    }
}

/// A boon id never takes the condition path, and an id that is neither a boon
/// nor a condition is never recorded.
pub proof fn lemma_boon_before_condition<'a>(
    b: &'a Buddy,
    event: Event,
    src: &'a Agent,
    dst: &'a Agent,
    ctx: EventContext,
)
    ensures
        ctx.is_boon ==> !(b.spec_buff_apply(event, src, dst, ctx) is ApplyCondition),
        !ctx.is_boon ==> !(b.spec_buff_apply(event, src, dst, ctx) is ApplyBuff),
        !ctx.is_boon && !ctx.is_condition ==> b.spec_buff_apply(event, src, dst, ctx)
            is Ignore,
{
}

/// Outside a running fight, a combat event records nothing within a fight: it
/// can only start, retarget or end a fight.
pub proof fn lemma_no_record_outside_fight<'a>(
    b: &'a Buddy,
    event: Event,
    src: &'a Agent,
    dst: Option<&'a Agent>,
    skill_name: Option<&'a str>,
    ctx: EventContext,
)
    requires
        ctx.relative_time is None,
    ensures
        ({
            let action = b.spec_combat_action(event, src, dst, skill_name, ctx);
            action is Ignore || action is StartFight || action is FightTarget || action is EndFight
        }),
{
}

/// A cast is recorded only for the own character's known skills.
pub proof fn lemma_casts_only_own_known<'a>(
    b: &'a Buddy,
    event: Event,
    src: &'a Agent,
    dst: Option<&'a Agent>,
    skill_name: Option<&'a str>,
    ctx: EventContext,
)
    ensures
        ({
            let action = b.spec_combat_action(event, src, dst, skill_name, ctx);
            (action is CastStart || action is CastEnd) ==> src.is_self != 0 && ctx.known_skill
        }),
{
}

/// Each kind of record comes only from its own kind of event: a fight starts
/// only on a squad combat start, its target changes only on a log target
/// update, it ends only on a squad combat end; casts come only from animation
/// starts and stops, applications only from buff applications, removals only
/// from remove-alls, and strikes only from direct combat events.
pub proof fn lemma_action_kind_follows_event_kind<'a>(
    b: &'a Buddy,
    event: Event,
    src: &'a Agent,
    dst: Option<&'a Agent>,
    skill_name: Option<&'a str>,
    ctx: EventContext,
)
    ensures
        ({
            let action = b.spec_combat_action(event, src, dst, skill_name, ctx);
            &&& action is StartFight <==> event.statechange == StateChange::SquadCombatStart
            &&& action is FightTarget <==> event.statechange == StateChange::LogNPCUpdate
            &&& action is EndFight <==> event.statechange == StateChange::SquadCombatEnd
            &&& action is CastStart ==> event.statechange == StateChange::AnimationStart
            &&& action is CastEnd ==> event.statechange == StateChange::AnimationStop
            &&& (action is ApplyBuff || action is ApplyCondition) ==> event.statechange
                == StateChange::BuffApply
            &&& action is RemoveCondition ==> event.statechange == StateChange::BuffRemoveAll
            &&& action is Strike ==> event.statechange == StateChange::Combat
            &&& event.statechange == StateChange::Other ==> action is Ignore
        }),
{
}

/// Fight events carry the event's time, the species of the source (the lower
/// 32 bits of its agent id) and the destination as target: a squad combat
/// start starts a fight, a log target update changes the running fight's
/// target, a squad combat end ends it.
pub proof fn lemma_fight_events<'a>(
    b: &'a Buddy,
    event: Event,
    src: &'a Agent,
    dst: Option<&'a Agent>,
    skill_name: Option<&'a str>,
    ctx: EventContext,
)
    ensures
        ({
            let action = b.spec_combat_action(event, src, dst, skill_name, ctx);
            &&& event.statechange == StateChange::SquadCombatStart ==> action
                == CombatAction::StartFight {
                time: event.time,
                species: event.src_agent as u32,
                target: dst,
            }
            &&& event.statechange == StateChange::LogNPCUpdate ==> action
                == CombatAction::FightTarget {
                time: event.time,
                species: event.src_agent as u32,
                target: dst,
            }
            &&& event.statechange == StateChange::SquadCombatEnd ==> action
                == CombatAction::EndFight { time: event.time }
        }),
{
}

/// During a fight, the own character's animation of a known skill starts or
/// ends a cast at the fight-relative time; a remove-all of a condition from
/// the own character on itself is recorded; a strike with a destination is
/// classified by `strike`.
pub proof fn lemma_records_during_fight<'a>(
    b: &'a Buddy,
    event: Event,
    src: &'a Agent,
    dst: Option<&'a Agent>,
    skill_name: Option<&'a str>,
    ctx: EventContext,
    t: i32,
)
    requires
        ctx.relative_time == Some(t),
    ensures
        ({
            let action = b.spec_combat_action(event, src, dst, skill_name, ctx);
            &&& event.statechange == StateChange::AnimationStart && src.is_self != 0
                && ctx.known_skill ==> action == CombatAction::CastStart {
                time: t,
                skill: event.skill_id,
                skill_name,
            }
            &&& event.statechange == StateChange::AnimationStop && src.is_self != 0
                && ctx.known_skill ==> action == CombatAction::CastEnd {
                time: t,
                skill: event.skill_id,
                skill_name,
                state: event.cast_state,
                duration: event.value,
            }
            &&& event.statechange == StateChange::BuffRemoveAll && dst is Some && src.is_self
                != 0 && dst.unwrap().is_self != 0 && ctx.is_condition ==> action
                == CombatAction::RemoveCondition {
                time: t,
                condition: event.skill_id,
                value: event.value,
            }
            &&& event.statechange == StateChange::Combat && dst is Some ==> action
                == CombatAction::Strike {
                time: t,
                skill: event.skill_id,
                skill_name,
                strike: b.spec_strike(event, src, dst.unwrap()),
            }
            &&& event.statechange == StateChange::BuffApply && dst is Some ==> action
                == b.spec_buff_apply(event, src, dst.unwrap(), ctx)
        }),
{
}

/// Boons are recorded exactly when they land on another agent than the own
/// character and their source, from the own character or one of its minions,
/// during a fight; conditions exactly when the own character applies them to
/// another agent, not as an extension, during a fight, and the id is no boon.
pub proof fn lemma_buff_apply_sources<'a>(
    b: &'a Buddy,
    event: Event,
    src: &'a Agent,
    dst: &'a Agent,
    ctx: EventContext,
)
    ensures
        ({
            let action = b.spec_buff_apply(event, src, dst, ctx);
            let own = src.is_self != 0 || b.self_instance_id == Some(event.src_master_instance_id);
            &&& action is ApplyCondition ==> src.is_self != 0 && dst.is_self == 0
                && event.is_offcycle == 0 && ctx.is_condition && !ctx.is_boon
                && ctx.relative_time is Some
            &&& action is ApplyBuff ==> ctx.is_boon && dst.is_self == 0 && dst.id != src.id && own
                && ctx.relative_time is Some
            &&& !(action is ApplyBuff) && !(action is ApplyCondition) ==> action is Ignore
            &&& ctx.is_boon && dst.is_self == 0 && dst.id != src.id && own
                && ctx.relative_time is Some ==> action == CombatAction::ApplyBuff {
                time: ctx.relative_time.unwrap(),
                buff: event.skill_id,
                duration: event.value,
                target: dst,
            }
            &&& !ctx.is_boon && ctx.is_condition && src.is_self != 0 && dst.is_self == 0
                && event.is_offcycle == 0 && ctx.relative_time is Some ==> action
                == CombatAction::ApplyCondition {
                time: ctx.relative_time.unwrap(),
                condition: event.skill_id,
                duration: event.value,
                target: dst,
            }
        }),
{
}

/// A damage hit (normal, critical or glancing) is recorded exactly when the
/// attacker is the own character or one of its minions, with the event's skill
/// and the target; a breakbar hit is recorded for anyone, with the event's
/// damage, credited to the tracked player whose instance id is the event's
/// master, or else to the attacker; any other result is ignored.
pub proof fn lemma_strike_classes<'a>(
    b: &'a Buddy,
    event: Event,
    attacker: &'a Agent,
    target: &'a Agent,
)
    ensures
        ({
            let action = b.spec_strike(event, attacker, target);
            let is_minion = b.self_instance_id == Some(event.src_master_instance_id);
            let own = attacker.is_self != 0 || is_minion;
            let damage = event.result == CombatResult::StrikeDamage || event.result
                == CombatResult::StrikeDamageCrit || event.result
                == CombatResult::StrikeDamageGlance;
            &&& damage && own ==> action == StrikeAction::Damage {
                is_minion,
                skill: event.skill_id,
                target,
            }
            &&& damage && !own ==> action is Ignore
            &&& event.result == CombatResult::Other ==> action is Ignore
            &&& event.result == CombatResult::BreakbarDamage ==> {
                &&& action matches StrikeAction::Breakbar { skill, attacker: credited, is_own, target: t, damage: d }
                    && skill == event.skill_id && is_own == own && t == target && d == event.value
                    && match credited {
                        Attacker::Player(p) => b.players@.contains(*p) && p.instance_id
                            == event.src_master_instance_id,
                        Attacker::Agent(a) => a == attacker && forall|k: int|
                            0 <= k < b.players@.len() ==> #[trigger] b.players@[k].instance_id
                                != event.src_master_instance_id,
                    }
            }
        }),
{
    lemma_position_of_instance(b.players@, event.src_master_instance_id);
}

} // verus!
