use vstd::prelude::*;

verus! {

/// How far a cast got.
#[derive(Clone, Copy, Debug, PartialEq, Eq)]
pub enum CastState {
    /// Still being cast.
    Casting,
    /// Completed: the skill fired.
    Fire,
    /// Cancelled before it fired.
    Cancel,
    /// Interrupted or reset.
    Interrupt,
    /// Not known: the cast was only seen through a hit.
    Unknown,
}

/// A skill cast of the own character: when it started, relative to the fight
/// start, the skill, how far it got, how long it took, and the agent ids of
/// the agents it hit.
#[derive(Clone, Debug, PartialEq, Eq)]
pub struct Cast {
    pub time: i32,
    pub skill: u32,
    pub state: CastState,
    pub duration: i32,
    pub hits: Vec<usize>,
}

impl Cast {
    /// Whether this is a cast of `skill` started at `time` in `state`, with no
    /// duration and no hits yet.
    pub open spec fn is_started(self, time: i32, skill: u32, state: CastState) -> bool {
        &&& self.time == time
        &&& self.skill == skill
        &&& self.state == state
        &&& self.duration == 0
        &&& self.hits@.len() == 0
    }

    /// Whether this is a cast of `skill` started at `time` and ended in `state`
    /// after `duration`, with no hits.
    pub open spec fn is_ended(self, time: i32, skill: u32, state: CastState, duration: i32) -> bool {
        &&& self.time == time
        &&& self.skill == skill
        &&& self.state == state
        &&& self.duration == duration
        &&& self.hits@.len() == 0
    }

    /// Whether this is a cast of `skill` seen first through a hit on `target` at `time`.
    pub open spec fn is_from_hit(self, time: i32, skill: u32, target: usize) -> bool {
        &&& self.time == time
        &&& self.skill == skill
        &&& self.state == CastState::Unknown
        &&& self.duration == 0
        &&& self.hits@ == seq![target]
    }

    /// Whether `self` is `old` completed in `state` after `duration`.
    pub open spec fn is_completed(self, old: Cast, state: CastState, duration: i32) -> bool {
        &&& self.time == old.time
        &&& self.skill == old.skill
        &&& self.state == state
        &&& self.duration == duration
        &&& self.hits@ == old.hits@
    }

    /// Whether `self` is `old` with one more hit on `target`.
    pub open spec fn is_hit(self, old: Cast, target: usize) -> bool {
        &&& self.time == old.time
        &&& self.skill == old.skill
        &&& self.state == old.state
        &&& self.duration == old.duration
        &&& self.hits@ == old.hits@.push(target)
    }

    /// A cast of `skill` started at `time`.
    pub fn from_start(time: i32, skill: u32, state: CastState) -> (c: Cast)
        ensures
            c.is_started(time, skill, state),
    {
        Cast { time, skill, state, duration: 0, hits: Vec::new() }
    }

    /// A cast of `skill` started at `time` and ended in `state` after `duration`.
    pub fn from_end(time: i32, skill: u32, state: CastState, duration: i32) -> (c: Cast)
        ensures
            c.is_ended(time, skill, state, duration),
    {
        Cast { time, skill, state, duration, hits: Vec::new() }
    }

    /// A cast of `skill` seen first through a hit on `target` at `time`.
    pub fn from_hit(time: i32, skill: u32, target: usize) -> (c: Cast)
        ensures
            c.is_from_hit(time, skill, target),
    {
        let mut hits = Vec::new();
        hits.push(target);
        Cast { time, skill, state: CastState::Unknown, duration: 0, hits }
    }

    /// Completes the cast in `state` after `duration`.
    pub fn complete(&mut self, state: CastState, duration: i32)
        ensures
            final(self).is_completed(*old(self), state, duration),
    {
        self.state = state;
        self.duration = duration;
    }

    /// Records a hit of the cast on `target`.
    pub fn hit(&mut self, target: usize)
        ensures
            final(self).is_hit(*old(self), target),
    {
        self.hits.push(target);
    }
}

/// Index of the last cast in `casts` that started at or before `time`.
pub open spec fn last_at_or_before(casts: Seq<Cast>, time: i32) -> Option<int>
    decreases casts.len(),
{
    if casts.len() == 0 {
        None
    } else if casts.last().time <= time {
        Some(casts.len() - 1)
    } else {
        last_at_or_before(casts.drop_last(), time)
    }
}

/// Where `add_cast` puts a cast that started at `time`: right after the last
/// cast that started at or before it, or at the end when every cast started later.
pub open spec fn cast_slot(casts: Seq<Cast>, time: i32) -> int {
    match last_at_or_before(casts, time) {
        Some(j) => j + 1,
        None => casts.len() as int,
    }
}

/// Index of the last cast of skill `id` in `casts`.
pub open spec fn latest_cast_index(casts: Seq<Cast>, id: u32) -> Option<int>
    decreases casts.len(),
{
    if casts.len() == 0 {
        None
    } else if casts.last().skill == id {
        Some(casts.len() - 1)
    } else {
        latest_cast_index(casts.drop_last(), id)
    }
}

/// Casts are ordered by their start time.
pub open spec fn sorted_by_time(casts: Seq<Cast>) -> bool {
    forall|i: int, j: int| 0 <= i <= j < casts.len() ==> casts[i].time <= casts[j].time
}

/// `last_at_or_before` finds `j` exactly when `j` starts at or before `time`
/// and every later cast starts after it; it finds nothing when every cast starts after `time`.
pub proof fn lemma_last_at_or_before(casts: Seq<Cast>, time: i32)
    ensures
        match last_at_or_before(casts, time) {
            Some(j) => 0 <= j < casts.len() && casts[j].time <= time && forall|k: int|
                j < k < casts.len() ==> #[trigger] casts[k].time > time,
            None => forall|k: int| 0 <= k < casts.len() ==> #[trigger] casts[k].time > time,
        },
    decreases casts.len(),
{
    if casts.len() > 0 {
        let s = casts.drop_last();
        lemma_last_at_or_before(s, time);
        assert forall|k: int| 0 <= k < s.len() implies s[k] == casts[k] by {}
    }
}

/// `latest_cast_index` finds `j` exactly when cast `j` is of skill `id` and no
/// later cast is; it finds nothing when no cast is of that skill.
pub proof fn lemma_latest_cast_index(casts: Seq<Cast>, id: u32)
    ensures
        match latest_cast_index(casts, id) {
            Some(j) => 0 <= j < casts.len() && casts[j].skill == id && forall|k: int|
                j < k < casts.len() ==> #[trigger] casts[k].skill != id,
            None => forall|k: int| 0 <= k < casts.len() ==> #[trigger] casts[k].skill != id,
        },
    decreases casts.len(),
{
    if casts.len() > 0 {
        let s = casts.drop_last();
        lemma_latest_cast_index(s, id);
        assert forall|k: int| 0 <= k < s.len() implies s[k] == casts[k] by {}
    }
}

proof fn lemma_last_at_or_before_unique(casts: Seq<Cast>, time: i32, j: int)
    requires
        0 <= j < casts.len(),
        casts[j].time <= time,
        forall|k: int| j < k < casts.len() ==> #[trigger] casts[k].time > time,
    ensures
        last_at_or_before(casts, time) == Some(j),
    decreases casts.len(),
{
    if j < casts.len() - 1 {
        assert(casts.last().time > time);
        let s = casts.drop_last();
        assert forall|k: int| j < k < s.len() implies #[trigger] s[k].time > time by {
            assert(s[k] == casts[k]);
        }
        lemma_last_at_or_before_unique(s, time, j);
    }
}

proof fn lemma_last_at_or_before_none(casts: Seq<Cast>, time: i32)
    requires
        forall|k: int| 0 <= k < casts.len() ==> #[trigger] casts[k].time > time,
    ensures
        last_at_or_before(casts, time) is None,
    decreases casts.len(),
{
    if casts.len() > 0 {
        let s = casts.drop_last();
        assert forall|k: int| 0 <= k < s.len() implies #[trigger] s[k].time > time by {
            assert(s[k] == casts[k]);
        }
        lemma_last_at_or_before_none(s, time);
    }
}

pub(crate) proof fn lemma_latest_cast_index_unique(casts: Seq<Cast>, id: u32, j: int)
    requires
        0 <= j < casts.len(),
        casts[j].skill == id,
        forall|k: int| j < k < casts.len() ==> #[trigger] casts[k].skill != id,
    ensures
        latest_cast_index(casts, id) == Some(j),
    decreases casts.len(),
{
    if j < casts.len() - 1 {
        assert(casts.last().skill != id);
        let s = casts.drop_last();
        assert forall|k: int| j < k < s.len() implies #[trigger] s[k].skill != id by {
            assert(s[k] == casts[k]);
        }
        lemma_latest_cast_index_unique(s, id, j);
    }
}

pub(crate) proof fn lemma_latest_cast_index_none(casts: Seq<Cast>, id: u32)
    requires
        forall|k: int| 0 <= k < casts.len() ==> #[trigger] casts[k].skill != id,
    ensures
        latest_cast_index(casts, id) is None,
    decreases casts.len(),
{
    if casts.len() > 0 {
        let s = casts.drop_last();
        assert forall|k: int| 0 <= k < s.len() implies #[trigger] s[k].skill != id by {
            assert(s[k] == casts[k]);
        }
        lemma_latest_cast_index_none(s, id);
    }
}

/// Position, counted from the back, of the last cast that started at or before `time`.
fn position_from_back(casts: &Vec<Cast>, time: i32) -> (r: Option<usize>)
    ensures
        match last_at_or_before(casts@, time) {
            Some(j) => r == Some((casts.len() - 1 - j) as usize),
            None => r is None,
        },
{
    let len = casts.len();
    let mut i: usize = len;
    while i > 0
        invariant
            i <= len == casts.len(),
            forall|k: int| i <= k < len ==> #[trigger] casts@[k].time > time,
        decreases i,
    {
        if casts[i - 1].time <= time {
            proof {
                lemma_last_at_or_before_unique(casts@, time, i - 1);
            }
            return Some(len - i);
        }
        i = i - 1;
    }
    proof {
        lemma_last_at_or_before_none(casts@, time);
    }
    None
}

/// Adds a cast to the casts of a fight: right after the last cast that started
/// at or before it, or at the end when every cast started later.
pub fn add_cast(casts: &mut Vec<Cast>, cast: Cast)
    ensures
        final(casts)@ == old(casts)@.insert(cast_slot(old(casts)@, cast.time), cast),
{
    proof {
        lemma_last_at_or_before(casts@, cast.time);
    }
    let index = match position_from_back(casts, cast.time) {
        Some(index) => index,
        None => 0,
    };
    let len = casts.len();
    casts.insert(len - index, cast);
}

/// The latest cast of skill `id`, to be completed or hit.
pub fn latest_cast_mut(casts: &mut Vec<Cast>, id: u32) -> (r: Option<&mut Cast>)
    ensures
        match latest_cast_index(old(casts)@, id) {
            Some(j) => r is Some && *r.unwrap() == old(casts)@[j] && final(casts)@ == old(
                casts,
            )@.update(j, *final(r.unwrap())),
            None => r is None && final(casts)@ == old(casts)@,
        },
{
    let len = casts.len();
    let mut i: usize = len;
    while i > 0
        invariant
            i <= len == casts.len(),
            casts@ == old(casts)@,
            forall|k: int| i <= k < len ==> #[trigger] casts@[k].skill != id,
        decreases i,
    {
        if casts[i - 1].skill == id {
            proof {
                lemma_latest_cast_index_unique(casts@, id, i - 1);
            }
            return Some(&mut casts[i - 1]);
        }
        i = i - 1;
    }
    proof {
        lemma_latest_cast_index_none(casts@, id);
    }
    None
}


/// Adding a cast keeps the casts ordered by start time, provided they were
/// ordered and the new cast does not start before the first one.
pub proof fn lemma_add_cast_keeps_order(casts: Seq<Cast>, cast: Cast)
    requires
        sorted_by_time(casts),
        casts.len() == 0 || casts[0].time <= cast.time,
    ensures
        sorted_by_time(casts.insert(cast_slot(casts, cast.time), cast)),
{
    lemma_last_at_or_before(casts, cast.time);
    let slot = cast_slot(casts, cast.time);
    let r = casts.insert(slot, cast);
    if casts.len() > 0 {
        assert(casts[0].time <= cast.time);
    }
    assert(0 <= slot <= casts.len());
    assert forall|a: int, b: int| 0 <= a <= b < r.len() implies r[a].time <= r[b].time by {
        if a < slot && b < slot {
            assert(r[a] == casts[a] && r[b] == casts[b]);
        } else if a < slot && b == slot {
            assert(r[a] == casts[a]);
            assert(casts[slot - 1].time <= cast.time);
        } else if a < slot && b > slot {
            assert(r[a] == casts[a] && r[b] == casts[b - 1]);
        } else if a == slot && b > slot {
            assert(r[b] == casts[b - 1]);
        } else if a > slot {
            assert(r[a] == casts[a - 1] && r[b] == casts[b - 1]);
        }
    }
}

/// A cast that starts before every other cast is still added at the end:
/// the order by start time is then broken.
pub proof fn lemma_add_early_cast_goes_last(casts: Seq<Cast>, cast: Cast)
    requires
        forall|k: int| 0 <= k < casts.len() ==> #[trigger] casts[k].time > cast.time,
    ensures
        casts.insert(cast_slot(casts, cast.time), cast) == casts.push(cast),
{
    lemma_last_at_or_before_none(casts, cast.time);
    assert(casts.insert(casts.len() as int, cast) =~= casts.push(cast));
}

} // verus!
