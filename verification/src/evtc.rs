use vstd::prelude::*;
use crate::cast::CastState;

verus! {

/// Profession of a player character, as arcdps numbers it.
#[derive(Clone, Copy, Debug, PartialEq, Eq)]
pub enum Profession {
    Unknown,
    Guardian,
    Warrior,
    Engineer,
    Ranger,
    Thief,
    Elementalist,
    Mesmer,
    Necromancer,
    Revenant,
}

/// The profession that arcdps' number `prof` stands for; `Unknown` for any other number.
pub open spec fn spec_profession(prof: u32) -> Profession {
    if prof == 1 {
        Profession::Guardian
    } else if prof == 2 {
        Profession::Warrior
    } else if prof == 3 {
        Profession::Engineer
    } else if prof == 4 {
        Profession::Ranger
    } else if prof == 5 {
        Profession::Thief
    } else if prof == 6 {
        Profession::Elementalist
    } else if prof == 7 {
        Profession::Mesmer
    } else if prof == 8 {
        Profession::Necromancer
    } else if prof == 9 {
        Profession::Revenant
    } else {
        Profession::Unknown
    }
}

impl From<u32> for Profession {
    fn from(prof: u32) -> (r: Self) {
        if prof == 1 {
            Profession::Guardian
        } else if prof == 2 {
            Profession::Warrior
        } else if prof == 3 {
            Profession::Engineer
        } else if prof == 4 {
            Profession::Ranger
        } else if prof == 5 {
            Profession::Thief
        } else if prof == 6 {
            Profession::Elementalist
        } else if prof == 7 {
            Profession::Mesmer
        } else if prof == 8 {
            Profession::Necromancer
        } else if prof == 9 {
            Profession::Revenant
        } else {
            Profession::Unknown
        }
    }
}

impl vstd::std_specs::convert::FromSpecImpl<u32> for Profession {
    open spec fn obeys_from_spec() -> bool {
        true
    }

    open spec fn from_spec(prof: u32) -> Self {
        spec_profession(prof)
    }
}

/// Kind of an agent, read from its profession and elite fields.
#[derive(Clone, Copy, Debug, PartialEq, Eq)]
pub enum AgentKind {
    /// A player character, with its raw profession and elite specialization.
    Player { profession: u32, elite: u32 },
    /// A non-player character, with its species id.
    Npc(u16),
    /// A gadget, with its pseudo species id.
    Gadget(u16),
}

impl AgentKind {
    /// arcdps' rule: an elite of `0xffffffff` marks a non-player; of those, a
    /// profession with all upper 16 bits set marks a gadget. The lower 16 bits
    /// of the profession are then the species id.
    pub open spec fn spec_new(prof: u32, elite: u32) -> AgentKind {
        if elite == 0xffff_ffffu32 {
            if (prof & 0xffff_0000u32) == 0xffff_0000u32 {
                AgentKind::Gadget((prof & 0xffffu32) as u16)
            } else {
                AgentKind::Npc((prof & 0xffffu32) as u16)
            }
        } else {
            AgentKind::Player { profession: prof, elite }
        }
    }

    /// Determines the kind of an agent from its profession and elite fields.
    pub fn new(prof: u32, elite: u32) -> (k: AgentKind)
        ensures
            k == AgentKind::spec_new(prof, elite),
    {
        if elite == 0xffff_ffffu32 {
            if (prof & 0xffff_0000u32) == 0xffff_0000u32 {
                AgentKind::Gadget((prof & 0xffffu32) as u16)
            } else {
                AgentKind::Npc((prof & 0xffffu32) as u16)
            }
        } else {
            AgentKind::Player { profession: prof, elite }
        }
    }
}

/// An agent as arcdps hands it to a combat callback.
#[derive(Clone, Debug)]
pub struct Agent {
    pub name: Option<String>,
    pub id: usize,
    pub prof: u32,
    pub elite: u32,
    pub is_self: u32,
    pub team: u16,
}

/// The characters of an optional string.
pub open spec fn opt_chars(name: Option<&str>) -> Option<Seq<char>> {
    match name {
        Some(n) => Some(n@),
        None => None,
    }
}

impl Agent {
    /// The characters of the agent's name, if it has one.
    pub open spec fn name_chars(&self) -> Option<Seq<char>> {
        match self.name {
            Some(n) => Some(n@),
            None => None,
        }
    }

    /// The agent's name, if it has one.
    pub fn name(&self) -> (r: Option<&str>)
        ensures
            opt_chars(r) == self.name_chars(),
    {
        match &self.name {
            Some(n) => Some(n.as_str()),
            None => None,
        }
    }
}

/// The kinds of combat events that the plugin tells apart.
#[derive(Clone, Copy, Debug, PartialEq, Eq)]
pub enum StateChange {
    /// Squad combat started: a log starts.
    SquadCombatStart,
    /// The log's main target changed.
    LogNPCUpdate,
    /// Squad combat ended: a log ends.
    SquadCombatEnd,
    /// An animation (a skill cast) started.
    AnimationStart,
    /// An animation (a skill cast) stopped.
    AnimationStop,
    /// A buff was applied.
    BuffApply,
    /// All stacks of a buff were removed.
    BuffRemoveAll,
    /// A direct combat event: a strike.
    Combat,
    /// Any other kind.
    Other,
}

/// The results of a strike that the plugin tells apart.
#[derive(Clone, Copy, Debug, PartialEq, Eq)]
pub enum CombatResult {
    StrikeDamage,
    StrikeDamageCrit,
    StrikeDamageGlance,
    BreakbarDamage,
    Other,
}

/// A combat event as arcdps hands it to a combat callback, its kind and result
/// already told apart.
#[derive(Clone, Copy, Debug)]
pub struct Event {
    pub time: u64,
    pub src_agent: u64,
    pub value: i32,
    pub skill_id: u32,
    pub src_master_instance_id: u16,
    pub is_offcycle: u8,
    pub statechange: StateChange,
    pub result: CombatResult,
    /// How far the animation got, for an animation stop.
    pub cast_state: CastState,
}

impl Event {
    /// The kind of the event.
    pub fn get_statechange(&self) -> (r: StateChange)
        ensures
            r == self.statechange,
    {
        self.statechange
    }

    /// How far the animation got, for an animation stop.
    pub fn get_cast_state(&self) -> (r: CastState)
        ensures
            r == self.cast_state,
    {
        self.cast_state
    }

    /// The result of the event, for a strike.
    pub fn get_combat_result(&self) -> (r: CombatResult)
        ensures
            r == self.result,
    {
        self.result
    }
}

/// arcdps' profession numbers: 1 Guardian, 2 Warrior, 3 Engineer, 4 Ranger,
/// 5 Thief, 6 Elementalist, 7 Mesmer, 8 Necromancer, 9 Revenant; any other
/// number is an unknown profession.
pub proof fn lemma_profession_numbers(prof: u32)
    ensures
        spec_profession(prof) == Profession::Guardian <==> prof == 1,
        spec_profession(prof) == Profession::Warrior <==> prof == 2,
        spec_profession(prof) == Profession::Engineer <==> prof == 3,
        spec_profession(prof) == Profession::Ranger <==> prof == 4,
        spec_profession(prof) == Profession::Thief <==> prof == 5,
        spec_profession(prof) == Profession::Elementalist <==> prof == 6,
        spec_profession(prof) == Profession::Mesmer <==> prof == 7,
        spec_profession(prof) == Profession::Necromancer <==> prof == 8,
        spec_profession(prof) == Profession::Revenant <==> prof == 9,
        spec_profession(prof) == Profession::Unknown <==> (prof == 0 || prof > 9),
        <Profession as vstd::std_specs::convert::FromSpec<u32>>::from_spec(prof)
            == spec_profession(prof),
{
}

/// An agent is a player exactly when its elite is not `0xffffffff`; otherwise
/// it is a gadget when the upper 16 bits of its profession are all set, and an
/// NPC else, with the lower 16 bits of the profession as species id.
pub proof fn lemma_agent_kind(prof: u32, elite: u32)
    ensures
        (AgentKind::spec_new(prof, elite) is Player) <==> elite != 0xffff_ffffu32,
        AgentKind::spec_new(prof, elite) is Player ==> AgentKind::spec_new(prof, elite)
            == (AgentKind::Player { profession: prof, elite }),
        elite == 0xffff_ffffu32 && prof >= 0xffff_0000u32 ==> AgentKind::spec_new(prof, elite)
            == AgentKind::Gadget((prof % 0x10000) as u16),
        elite == 0xffff_ffffu32 && prof < 0xffff_0000u32 ==> AgentKind::spec_new(prof, elite)
            == AgentKind::Npc((prof % 0x10000) as u16),
{
    assert((prof & 0xffff_0000u32) == 0xffff_0000u32 <==> prof >= 0xffff_0000u32) by (bit_vector);
    assert((prof & 0xffffu32) == prof % 0x10000) by (bit_vector);
}

} // verus!
