//! Speeds, movement ranges and the turn queue.

use vstd::prelude::*;
use crate::player::{PlayerClass, PlayerForm};
use crate::status::{StatusInstance, has_haste, is_haste};
use crate::combat::{BattleUnit, PlayerStance, TacticalBattle};

verus! {

pub open spec fn player_base_speed_spec(class: PlayerClass) -> i32 {
    match class {
        PlayerClass::Operative | PlayerClass::Solarian => 5,
        PlayerClass::Soldier | PlayerClass::Mechanic => 3,
        _ => 4,
    }
}

/// Player base speed by class category: fast (Operative, Solarian) 5,
/// slow (Soldier, Mechanic) 3, every other class 4.
pub fn player_base_speed(class: PlayerClass) -> (s: i32)
    ensures
        s == player_base_speed_spec(class),
{
    match class {
        PlayerClass::Operative | PlayerClass::Solarian => 5,
        PlayerClass::Soldier | PlayerClass::Mechanic => 3,
        _ => 4,
    }
}

pub open spec fn hasted(statuses: Seq<StatusInstance>) -> bool {
    exists|i: int| 0 <= i < statuses.len() && is_haste(#[trigger] statuses[i])
}

pub open spec fn form_speed_mod(form: PlayerForm) -> int {
    match form {
        PlayerForm::Void => 2,
        PlayerForm::Cybernetic => -1,
        PlayerForm::Human => 0,
    }
}

/// Base speed, +2 under haste, +2 in void form, -1 in cybernetic form.
pub fn player_speed(class: PlayerClass, form: PlayerForm, statuses: &[StatusInstance]) -> (s: i32)
    ensures
        s == player_base_speed_spec(class) + (if hasted(statuses@) { 2int } else { 0int }) + form_speed_mod(form),
{
    let mut speed = player_base_speed(class);
    if has_haste(statuses) {
        speed += 2;
    }
    match form {
        PlayerForm::Void => speed += 2,
        PlayerForm::Cybernetic => speed -= 1,
        PlayerForm::Human => {},
    }
    speed
}

pub fn player_base_movement() -> (m: i32)
    ensures
        m == 3,
{
    3
}

pub open spec fn stance_movement_mod(stance: PlayerStance) -> int {
    match stance {
        PlayerStance::Mobile => 2,
        PlayerStance::Aggressive => -1,
        PlayerStance::Focused => -1,
        PlayerStance::Balanced => 0,
        PlayerStance::Defensive => 0,
    }
}

pub open spec fn player_movement_spec(statuses: Seq<StatusInstance>, stance: PlayerStance) -> int {
    let m = 3 + (if hasted(statuses) { 1int } else { 0int }) + stance_movement_mod(stance);
    if m < 1 { 1 } else { m }
}

/// Tiles the player may move: 3, +1 under haste, +2 in the mobile stance,
/// -1 in the aggressive or focused stance, and never below 1. The form does
/// not change it.
pub fn player_movement(form: PlayerForm, statuses: &[StatusInstance], stance: PlayerStance) -> (m: i32)
    ensures
        m == player_movement_spec(statuses@, stance),
        m >= 1,
{
    let mut mv = player_base_movement();
    if has_haste(statuses) {
        mv += 1;
    }
    match stance {
        PlayerStance::Mobile => mv += 2,
        PlayerStance::Aggressive | PlayerStance::Focused => mv -= 1,
        PlayerStance::Balanced | PlayerStance::Defensive => {},
    }
    if mv < 1 {
        1
    } else {
        mv
    }
}

/// Bosses and elites act at speed 4, other enemies at 3.
pub fn enemy_base_speed(is_elite: bool, is_boss: bool) -> (s: i32)
    ensures
        s == (if is_boss || is_elite { 4i32 } else { 3i32 }),
{
    if is_boss {
        4
    } else if is_elite {
        4
    } else {
        3
    }
}

/// Bosses and elites move 3 tiles, other enemies 2.
pub fn enemy_base_movement(is_elite: bool, is_boss: bool) -> (m: i32)
    ensures
        m == (if is_elite || is_boss { 3i32 } else { 2i32 }),
{
    if is_elite || is_boss {
        3
    } else {
        2
    }
}

/// Unit `a` acts before unit `b`: higher speed first, then the player, then
/// the lower index.
pub open spec fn acts_before(units: Seq<BattleUnit>, a: int, b: int) -> bool {
    let sa = units[a].speed;
    let sb = units[b].speed;
    let pa = units[a].kind is Player;
    let pb = units[b].kind is Player;
    sa > sb || (sa == sb && ((pa && !pb) || (pa == pb && a < b)))
}

/// A turn queue for `units`: every living unit exactly once, nothing else,
/// ordered by `acts_before`.
pub open spec fn is_turn_queue(units: Seq<BattleUnit>, q: Seq<usize>) -> bool {
    &&& forall|k: int| 0 <= k < q.len() ==> (#[trigger] q[k]) < units.len() && units[q[k] as int].alive
    &&& forall|i: int| 0 <= i < units.len() && (#[trigger] units[i]).alive ==> q.contains(i as usize)
    &&& forall|k1: int, k2: int| 0 <= k1 < k2 < q.len() ==> acts_before(units, #[trigger] q[k1] as int, #[trigger] q[k2] as int)
}

fn acts_before_exec(units: &[BattleUnit], a: usize, b: usize) -> (r: bool)
    requires
        a < units@.len(),
        b < units@.len(),
    ensures
        r == acts_before(units@, a as int, b as int),
{
    let sa = units[a].speed;
    let sb = units[b].speed;
    let pa = units[a].is_player();
    let pb = units[b].is_player();
    sa > sb || (sa == sb && ((pa && !pb) || (pa == pb && a < b)))
}

/// Builds the turn queue: indices of the living units sorted by speed,
/// highest first; ties go to the player, then to the lower index.
#[verifier::rlimit(80)]
pub fn build_turn_queue(units: &[BattleUnit]) -> (q: Vec<usize>)
    ensures
        is_turn_queue(units@, q@),
        q@.no_duplicates(),
{
    let mut q: Vec<usize> = Vec::new();
    let mut i: usize = 0;
    while i < units.len()
        invariant
            i <= units@.len(),
            forall|k: int| 0 <= k < q@.len() ==> (#[trigger] q@[k]) < i && units@[q@[k] as int].alive,
            forall|j: int| 0 <= j < i && (#[trigger] units@[j]).alive ==> q@.contains(j as usize),
            forall|k1: int, k2: int|
                0 <= k1 < k2 < q@.len() ==> acts_before(units@, #[trigger] q@[k1] as int, #[trigger] q@[k2] as int),
            q@.no_duplicates(),
        decreases units@.len() - i,
    {
        if units[i].alive {
            // Insert `i` after every queued unit that acts before it.
            let mut pos: usize = q.len();
            while pos > 0 && acts_before_exec(units, i, q[pos - 1])
                invariant
                    i < units@.len(),
                    pos <= q@.len(),
                    forall|k: int| 0 <= k < q@.len() ==> (#[trigger] q@[k]) < i,
                    forall|k: int| pos <= k < q@.len() ==> acts_before(units@, i as int, #[trigger] q@[k] as int),
                decreases pos,
            {
                pos -= 1;
            }
            let ghost before = q@;
            proof {
                // Every unit queued before `pos` acts before `i`.
                assert forall|k: int| 0 <= k < pos implies acts_before(units@, #[trigger] before[k] as int, i as int) by {
                    if pos > 0 {
                        let last = before[pos - 1] as int;
                        assert(!acts_before(units@, i as int, last));
                        assert(acts_before(units@, last, i as int));
                        if k < pos - 1 {
                            assert(acts_before(units@, before[k] as int, last));
                        }
                    }
                }
            }
            q.insert(pos, i);
            proof {
                assert forall|k1: int, k2: int|
                    0 <= k1 < k2 < q@.len() implies acts_before(units@, #[trigger] q@[k1] as int, #[trigger] q@[k2] as int) by {
                    if k2 < pos {
                        assert(q@[k1] == before[k1] && q@[k2] == before[k2]);
                    } else if k2 == pos {
                        assert(q@[k1] == before[k1]);
                    } else if k1 < pos {
                        assert(q@[k1] == before[k1] && q@[k2] == before[k2 - 1]);
                    } else if k1 == pos {
                        assert(q@[k2] == before[k2 - 1]);
                    } else {
                        assert(q@[k1] == before[k1 - 1] && q@[k2] == before[k2 - 1]);
                    }
                }
                assert forall|j: int| 0 <= j < i + 1 && (#[trigger] units@[j]).alive implies q@.contains(j as usize) by {
                    if j < i {
                        let k = choose|k: int| 0 <= k < before.len() && before[k] == j as usize;
                        if k < pos {
                            assert(q@[k] == j as usize);
                        } else {
                            assert(q@[k + 1] == j as usize);
                        }
                    } else {
                        assert(q@[pos as int] == i);
                    }
                }
                assert forall|k: int| 0 <= k < q@.len() implies (#[trigger] q@[k]) < i + 1 && units@[q@[k] as int].alive by {
                    if k < pos {
                        assert(q@[k] == before[k]);
                    } else if k > pos {
                        assert(q@[k] == before[k - 1]);
                    }
                }
                assert forall|a: int, b: int| 0 <= a < q@.len() && 0 <= b < q@.len() && a != b implies q@[a] != q@[b] by {
                    if a != pos && b != pos {
                        let a0 = if a < pos { a } else { a - 1 };
                        let b0 = if b < pos { b } else { b - 1 };
                        assert(q@[a] == before[a0] && q@[b] == before[b0]);
                    } else if a == pos {
                        let b0 = if b < pos { b } else { b - 1 };
                        assert(q@[b] == before[b0]);
                    } else {
                        let a0 = if a < pos { a } else { a - 1 };
                        assert(q@[a] == before[a0]);
                    }
                }
            }
        }
        i += 1;
    }
    q
}

/// Queue position of the next living unit at or after `p`, or the queue's
/// length when none is left.
pub open spec fn next_live(units: Seq<BattleUnit>, q: Seq<usize>, p: int) -> int
    decreases q.len() - p,
{
    if p >= q.len() || p < 0 {
        p
    } else if units[q[p] as int].alive {
        p
    } else {
        next_live(units, q, p + 1)
    }
}

/// All units with their defending flag cleared.
pub open spec fn undefended(units: Seq<BattleUnit>) -> Seq<BattleUnit> {
    Seq::new(units.len(), |i: int| BattleUnit { defending: false, ..units[i] })
}

/// Moves to the next living unit in the queue. When the queue runs out, a
/// new round starts: the queue is rebuilt, the turn number goes up and every
/// unit stops defending; the result then says that the round wrapped.
pub fn advance_turn(battle: &mut TacticalBattle) -> (wrapped: bool)
    requires
        forall|k: int| 0 <= k < old(battle).turn_queue@.len() ==> (#[trigger] old(battle).turn_queue@[k]) < old(
            battle,
        ).units@.len(),
        old(battle).turn_queue_pos < usize::MAX,
        old(battle).turn_number < u32::MAX,
    ensures
        ({
            let p = next_live(old(battle).units@, old(battle).turn_queue@, old(battle).turn_queue_pos + 1);
            &&& wrapped == (p >= old(battle).turn_queue@.len())
            &&& !wrapped ==> *final(battle) == (TacticalBattle { turn_queue_pos: p as usize, ..*old(battle) })
            &&& wrapped ==> {
                &&& is_turn_queue(old(battle).units@, final(battle).turn_queue@)
                &&& final(battle).turn_queue@.no_duplicates()
                &&& final(battle).turn_queue_pos == 0
                &&& final(battle).turn_number == old(battle).turn_number + 1
                &&& final(battle).units@ == undefended(old(battle).units@)
                &&& *final(battle) == (TacticalBattle {
                    units: final(battle).units,
                    turn_queue: final(battle).turn_queue,
                    turn_queue_pos: 0,
                    turn_number: final(battle).turn_number,
                    ..*old(battle)
                })
            }
        }),
{
    let ghost start = *battle;
    battle.turn_queue_pos += 1;
    while battle.turn_queue_pos < battle.turn_queue.len()
        && !battle.units[battle.turn_queue[battle.turn_queue_pos]].alive
        invariant
            start.turn_queue_pos + 1 <= battle.turn_queue_pos,
            battle.turn_queue_pos <= start.turn_queue@.len() || battle.turn_queue_pos == start.turn_queue_pos + 1,
            *battle == (TacticalBattle { turn_queue_pos: battle.turn_queue_pos, ..start }),
            forall|k: int| 0 <= k < start.turn_queue@.len() ==> (#[trigger] start.turn_queue@[k]) < start.units@.len(),
            next_live(start.units@, start.turn_queue@, start.turn_queue_pos + 1) == next_live(
                start.units@,
                start.turn_queue@,
                battle.turn_queue_pos as int,
            ),
        decreases battle.turn_queue@.len() - battle.turn_queue_pos,
    {
        battle.turn_queue_pos += 1;
    }
    if battle.turn_queue_pos >= battle.turn_queue.len() {
        battle.turn_queue = build_turn_queue(battle.units.as_slice());
        battle.turn_queue_pos = 0;
        battle.turn_number += 1;
        let mut i: usize = 0;
        while i < battle.units.len()
            invariant
                i <= battle.units@.len(),
                battle.units@.len() == start.units@.len(),
                forall|j: int| 0 <= j < i ==> #[trigger] battle.units@[j] == undefended(start.units@)[j],
                forall|j: int| i <= j < battle.units@.len() ==> #[trigger] battle.units@[j] == start.units@[j],
                is_turn_queue(start.units@, battle.turn_queue@),
                battle.turn_queue@.no_duplicates(),
                battle.turn_queue_pos == 0,
                battle.turn_number == start.turn_number + 1,
                *battle == (TacticalBattle {
                    units: battle.units,
                    turn_queue: battle.turn_queue,
                    turn_queue_pos: 0,
                    turn_number: battle.turn_number,
                    ..start
                }),
            decreases battle.units@.len() - i,
        {
            battle.units[i].defending = false;
            i += 1;
        }
        proof {
            assert(battle.units@ =~= undefended(start.units@));
        }
        true
    } else {
        false
    }
}

} // verus!
