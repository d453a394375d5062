use vstd::prelude::*;
use crate::evtc::{Agent, AgentKind, Profession, spec_profession, opt_chars};

verus! {

/// The character that stands for the decimal digit `d`.
pub open spec fn digit_char(d: nat) -> char {
    if d == 0 {
        '0'
    } else if d == 1 {
        '1'
    } else if d == 2 {
        '2'
    } else if d == 3 {
        '3'
    } else if d == 4 {
        '4'
    } else if d == 5 {
        '5'
    } else if d == 6 {
        '6'
    } else if d == 7 {
        '7'
    } else if d == 8 {
        '8'
    } else {
        '9'
    }
}

/// The decimal representation of `n`, without leading zeros.
pub open spec fn decimal(n: nat) -> Seq<char>
    decreases n,
{
    if n < 10 {
        seq![digit_char(n)]
    } else {
        decimal(n / 10).push(digit_char(n % 10))
    }
}

fn digit_str(d: u64) -> (s: &'static str)
    requires
        d < 10,
    ensures
        s@ == seq![digit_char(d as nat)],
{
    if d == 0 {
        proof { reveal_strlit("0"); }
        "0"
    } else if d == 1 {
        proof { reveal_strlit("1"); }
        "1"
    } else if d == 2 {
        proof { reveal_strlit("2"); }
        "2"
    } else if d == 3 {
        proof { reveal_strlit("3"); }
        "3"
    } else if d == 4 {
        proof { reveal_strlit("4"); }
        "4"
    } else if d == 5 {
        proof { reveal_strlit("5"); }
        "5"
    } else if d == 6 {
        proof { reveal_strlit("6"); }
        "6"
    } else if d == 7 {
        proof { reveal_strlit("7"); }
        "7"
    } else if d == 8 {
        proof { reveal_strlit("8"); }
        "8"
    } else {
        proof { reveal_strlit("9"); }
        "9"
    }
}

/// Appends the decimal digits of `n` to `s`.
pub fn push_decimal(s: &mut String, n: u64)
    ensures
        final(s)@ == old(s)@ + decimal(n as nat),
    decreases n,
{
    if n >= 10 {
        push_decimal(s, n / 10);
    }
    s.append(digit_str(n % 10));
    proof {
        assert(old(s)@ + decimal(n as nat) =~= if n >= 10 {
            old(s)@ + decimal((n / 10) as nat) + seq![digit_char((n % 10) as nat)]
        } else {
            old(s)@ + seq![digit_char((n % 10) as nat)]
        });
    }
}

/// The name shown for an agent: its own name where it has a non-empty one,
/// else a placeholder made of its kind and its id (or species id).
pub open spec fn spec_process_name(id: usize, kind: AgentKind, name: Option<Seq<char>>) -> Seq<char> {
    if name is Some && name.unwrap().len() > 0 {
        name.unwrap()
    } else {
        match kind {
            AgentKind::Player { .. } => "Player:"@ + decimal(id as nat),
            AgentKind::Npc(species) => "NPC:"@ + decimal(species as nat),
            AgentKind::Gadget(species) => "Gadget:"@ + decimal(species as nat),
        }
    }
}

fn prefixed(prefix: &str, n: u64) -> (s: String)
    ensures
        s@ == prefix@ + decimal(n as nat),
{
    let mut s = String::from_str(prefix);
    push_decimal(&mut s, n);
    s
}

/// The name shown for an agent of the given id, kind and optional name.
pub fn process_name(id: usize, kind: AgentKind, name: Option<&str>) -> (s: String)
    ensures
        s@ == spec_process_name(id, kind, opt_chars(name)),
{
    match name {
        Some(name) if !name.is_empty() => name.to_owned(),
        _ => match kind {
            AgentKind::Player { .. } => prefixed("Player:", id as u64),
            AgentKind::Npc(species) => prefixed("NPC:", species as u64),
            AgentKind::Gadget(species) => prefixed("Gadget:", species as u64),
        },
    }
}

/// Information about a player.
#[derive(Debug, Clone)]
pub struct Player {
    pub id: usize,
    pub instance_id: u16,
    pub prof: Profession,
    pub name: String,
}

impl Player {
    /// The player that `new` makes of these arguments.
    pub open spec fn is_new(
        self,
        id: usize,
        instance_id: u16,
        prof: u32,
        elite: u32,
        name: Option<Seq<char>>,
    ) -> bool {
        &&& self.id == id
        &&& self.instance_id == instance_id
        &&& self.prof == spec_profession(prof)
        &&& self.name@ == spec_process_name(id, AgentKind::spec_new(prof, elite), name)
    }

    /// The player that a tracking change from `src` to `dst` adds: the id and
    /// name of `src`, the instance id (its lower 16 bits), profession and elite of `dst`.
    pub open spec fn is_tracked(self, src: Agent, dst: Agent) -> bool {
        self.is_new(src.id, dst.id as u16, dst.prof, dst.elite, src.name_chars())
    }

    /// Creates a new player.
    pub fn new(id: usize, instance_id: u16, prof: u32, elite: u32, name: Option<&str>) -> (p: Self)
        ensures
            p.is_new(id, instance_id, prof, elite, opt_chars(name)),
    {
        let kind = AgentKind::new(prof, elite);
        Self { id, instance_id, prof: prof.into(), name: process_name(id, kind, name) }
    }

    /// Creates a new player from a tracking change.
    pub fn from_tracking_change(src: &Agent, dst: &Agent) -> (p: Self)
        ensures
            p.is_tracked(*src, *dst),
    {
        Self::new(src.id, dst.id as u16, dst.prof, dst.elite, src.name())
    }
}

/// A non-empty name is shown as it is; an agent without one is shown by a
/// placeholder naming its kind followed by the decimal digits of its agent id
/// (for a player) or its species id.
pub proof fn lemma_process_name(id: usize, kind: AgentKind, name: Option<Seq<char>>)
    ensures
        name is Some && name.unwrap().len() > 0 ==> spec_process_name(id, kind, name)
            == name.unwrap(),
        !(name is Some && name.unwrap().len() > 0) ==> spec_process_name(id, kind, name) == match kind {
            AgentKind::Player { .. } => "Player:"@ + decimal(id as nat),
            AgentKind::Npc(s) => "NPC:"@ + decimal(s as nat),
            AgentKind::Gadget(s) => "Gadget:"@ + decimal(s as nat),
        },
{
}

/// The decimal digits of `n`: its last digit is `n % 10`, preceded by the
/// digits of `n / 10` when `n` has more than one digit.
pub proof fn lemma_decimal_last_digit(n: nat)
    ensures
        decimal(n).len() >= 1,
        decimal(n).last() == digit_char(n % 10),
        n >= 10 ==> decimal(n).drop_last() == decimal(n / 10),
        n < 10 ==> decimal(n).len() == 1,
    decreases n,
{
    if n >= 10 {
        lemma_decimal_last_digit(n / 10);
        assert(decimal(n).drop_last() =~= decimal(n / 10));
    }
}

} // verus!
