//! Timed status effects carried by combat units.

use vstd::prelude::*;
use crate::util::sat_add;

verus! {

#[derive(Clone, Copy, Debug, PartialEq, Eq, Structural)]
pub enum StatusKind {
    Poison { damage: i32 },
    Burn { damage: i32 },
    Regen { heal: i32 },
    Slow,
    Haste,
    Wet,
}

/// A status with the number of turns it still lasts. A fresh status has just
/// been applied and does not act until the next tick.
#[derive(Clone, Copy, Debug, PartialEq, Eq, Structural)]
pub struct StatusInstance {
    pub kind: StatusKind,
    pub turns_left: i32,
    pub fresh: bool,
}

impl StatusInstance {
    pub fn new(kind: StatusKind, turns: i32) -> (s: Self)
        ensures
            s == (StatusInstance { kind, turns_left: turns, fresh: true }),
    {
        StatusInstance { kind, turns_left: turns, fresh: true }
    }

    pub open spec fn is_negative_spec(&self) -> bool {
        match self.kind {
            StatusKind::Poison { .. } | StatusKind::Burn { .. } | StatusKind::Slow | StatusKind::Wet => true,
            StatusKind::Regen { .. } | StatusKind::Haste => false,
        }
    }

    /// Whether the status harms its bearer.
    pub fn is_negative(&self) -> (b: bool)
        ensures
            b == self.is_negative_spec(),
    {
        match self.kind {
            StatusKind::Poison { .. } | StatusKind::Burn { .. } | StatusKind::Slow | StatusKind::Wet => true,
            StatusKind::Regen { .. } | StatusKind::Haste => false,
        }
    }

    pub open spec fn label_spec(&self) -> &'static str {
        match self.kind {
            StatusKind::Poison { .. } => "Poison",
            StatusKind::Burn { .. } => "Burn",
            StatusKind::Regen { .. } => "Regen",
            StatusKind::Slow => "Slow",
            StatusKind::Haste => "Haste",
            StatusKind::Wet => "Wet",
        }
    }

    pub fn label(&self) -> (l: &'static str)
        ensures
            l == self.label_spec(),
    {
        match self.kind {
            StatusKind::Poison { .. } => "Poison",
            StatusKind::Burn { .. } => "Burn",
            StatusKind::Regen { .. } => "Regen",
            StatusKind::Slow => "Slow",
            StatusKind::Haste => "Haste",
            StatusKind::Wet => "Wet",
        }
    }
}

pub open spec fn is_haste(s: StatusInstance) -> bool {
    s.kind matches StatusKind::Haste
}

pub open spec fn is_wet(s: StatusInstance) -> bool {
    s.kind matches StatusKind::Wet
}

pub open spec fn is_slow(s: StatusInstance) -> bool {
    s.kind matches StatusKind::Slow
}

/// Whether any status is haste.
pub fn has_haste(statuses: &[StatusInstance]) -> (b: bool)
    ensures
        b == exists|i: int| 0 <= i < statuses@.len() && is_haste(#[trigger] statuses@[i]),
{
    let mut i: usize = 0;
    while i < statuses.len()
        invariant
            i <= statuses@.len(),
            forall|j: int| 0 <= j < i ==> !is_haste(#[trigger] statuses@[j]),
        decreases statuses@.len() - i,
    {
        if let StatusKind::Haste = statuses[i].kind {
            return true;
        }
        i += 1;
    }
    false
}

/// Whether any status is wet.
pub fn has_wet(statuses: &Vec<StatusInstance>) -> (b: bool)
    ensures
        b == exists|i: int| 0 <= i < statuses@.len() && is_wet(#[trigger] statuses@[i]),
{
    let mut i: usize = 0;
    while i < statuses.len()
        invariant
            i <= statuses@.len(),
            forall|j: int| 0 <= j < i ==> !is_wet(#[trigger] statuses@[j]),
        decreases statuses@.len() - i,
    {
        if let StatusKind::Wet = statuses[i].kind {
            return true;
        }
        i += 1;
    }
    false
}

/// Whether any status is slow.
pub fn has_slow(statuses: &Vec<StatusInstance>) -> (b: bool)
    ensures
        b == exists|i: int| 0 <= i < statuses@.len() && is_slow(#[trigger] statuses@[i]),
{
    let mut i: usize = 0;
    while i < statuses.len()
        invariant
            i <= statuses@.len(),
            forall|j: int| 0 <= j < i ==> !is_slow(#[trigger] statuses@[j]),
        decreases statuses@.len() - i,
    {
        if let StatusKind::Slow = statuses[i].kind {
            return true;
        }
        i += 1;
    }
    false
}

/// Clamps into the range of `i32`.
pub open spec fn clamp32(v: int) -> int {
    if v > i32::MAX {
        i32::MAX as int
    } else if v < i32::MIN {
        i32::MIN as int
    } else {
        v
    }
}

/// Damage a status deals on a tick: poison and burn act unless fresh.
pub open spec fn tick_damage(s: StatusInstance) -> int {
    if s.fresh {
        0
    } else {
        match s.kind {
            StatusKind::Poison { damage } => damage as int,
            StatusKind::Burn { damage } => damage as int,
            _ => 0,
        }
    }
}

/// Healing a status gives on a tick: regen acts unless fresh.
pub open spec fn tick_heal(s: StatusInstance) -> int {
    if s.fresh {
        0
    } else {
        match s.kind {
            StatusKind::Regen { heal } => heal as int,
            _ => 0,
        }
    }
}

/// Total tick damage, summed left to right and held inside `i32` at each step.
pub open spec fn total_tick_damage(s: Seq<StatusInstance>) -> int
    decreases s.len(),
{
    if s.len() == 0 {
        0
    } else {
        clamp32(total_tick_damage(s.drop_last()) + tick_damage(s.last()))
    }
}

pub open spec fn total_tick_heal(s: Seq<StatusInstance>) -> int
    decreases s.len(),
{
    if s.len() == 0 {
        0
    } else {
        clamp32(total_tick_heal(s.drop_last()) + tick_heal(s.last()))
    }
}

/// A status after one tick: a fresh one loses its freshness, any other one
/// turn of its duration.
pub open spec fn ticked(s: StatusInstance) -> StatusInstance {
    if s.fresh {
        StatusInstance { fresh: false, ..s }
    } else {
        StatusInstance { turns_left: clamp32(s.turns_left - 1) as i32, ..s }
    }
}

/// The statuses left after one tick, in order: those with turns remaining.
pub open spec fn after_tick(s: Seq<StatusInstance>) -> Seq<StatusInstance>
    decreases s.len(),
{
    if s.len() == 0 {
        Seq::empty()
    } else {
        let rest = after_tick(s.drop_last());
        let t = ticked(s.last());
        if t.turns_left > 0 {
            rest.push(t)
        } else {
            rest
        }
    }
}

/// Advances every status by one turn and returns the damage and healing
/// they deal this turn; expired statuses are dropped.
pub fn tick_statuses(statuses: &mut Vec<StatusInstance>) -> (r: (i32, i32))
    ensures
        r.0 == total_tick_damage(old(statuses)@),
        r.1 == total_tick_heal(old(statuses)@),
        final(statuses)@ == after_tick(old(statuses)@),
{
    let ghost start = statuses@;
    let mut kept: Vec<StatusInstance> = Vec::new();
    let mut dmg: i32 = 0;
    let mut heal: i32 = 0;
    let mut i: usize = 0;
    while i < statuses.len()
        invariant
            statuses@ == start,
            i <= start.len(),
            dmg == total_tick_damage(start.subrange(0, i as int)),
            heal == total_tick_heal(start.subrange(0, i as int)),
            kept@ == after_tick(start.subrange(0, i as int)),
        decreases start.len() - i,
    {
        let s = statuses[i];
        proof {
            assert(start.subrange(0, i + 1).drop_last() =~= start.subrange(0, i as int));
            assert(start.subrange(0, i + 1).last() == s);
        }
        let mut t = s;
        if s.fresh {
            t.fresh = false;
        } else {
            match s.kind {
                StatusKind::Poison { damage } => {
                    dmg = sat_add(dmg, damage);
                },
                StatusKind::Burn { damage } => {
                    dmg = sat_add(dmg, damage);
                },
                StatusKind::Regen { heal: h } => {
                    heal = sat_add(heal, h);
                },
                _ => {},
            }
            t.turns_left = sat_add(s.turns_left, -1);
        }
        if t.turns_left > 0 {
            kept.push(t);
        }
        i += 1;
    }
    proof {
        assert(start.subrange(0, start.len() as int) =~= start);
    }
    *statuses = kept;
    (dmg, heal)
}

/// A fresh copy of a status list.
pub fn copy_statuses(v: &Vec<StatusInstance>) -> (r: Vec<StatusInstance>)
    ensures
        r@ == v@,
{
    let mut r: Vec<StatusInstance> = Vec::new();
    let mut i: usize = 0;
    while i < v.len()
        invariant
            i <= v@.len(),
            r@ == v@.subrange(0, i as int),
        decreases v@.len() - i,
    {
        r.push(v[i]);
        i += 1;
    }
    r
}

} // verus!
