//! Environment rules that run between turns: crates, conveyors, gravity
//! wells, weather, companions, arena events, lobbed and delayed strikes.

use vstd::prelude::*;
use crate::combat::{
    ARENA_MAX, AudioEvent, BattleTile, BattleUnit, TacticalArena, TacticalBattle, Weather, deal_damage, damaged,
    damage_taken, unit_at_spec, occupies,
};
use crate::text::{cat, with_int, decimal};
use vstd::string::StringExecFns;

verus! {

/// Tiles and units of a battle, as a push of crates changes them.
pub struct Board {
    pub tiles: Seq<BattleTile>,
    pub units: Seq<BattleUnit>,
}

pub open spec fn board_of(b: &TacticalBattle) -> Board {
    Board { tiles: b.arena.tiles@, units: b.units@ }
}

pub open spec fn inb(a: &TacticalArena, x: int, y: int) -> bool {
    a.in_bounds_spec(x, y)
}

/// What pushing the crate at `(bx, by)` one step along `(dx, dy)` does, as
/// the `depth`-th crate of a chain:
/// - past the fourth crate of a chain, or when `(bx, by)` holds no crate or
///   the step leaves the arena, nothing happens;
/// - a fuel canister in the way explodes: it becomes a blast mark and the
///   crate is destroyed;
/// - a crate in the way is pushed first; if it moved, this crate follows;
/// - a living unit in the way takes 3 damage and the crate moves onto its tile;
/// - a walkable tile takes the crate; anything else stops it.
pub open spec fn push_spec(w: int, h: int, board: Board, bx: int, by: int, dx: int, dy: int, depth: int) -> Board
    decreases 4 - depth,
{
    if depth > 3 || !in_grid(w, h, bx, by) || board.tiles[by * w + bx] != BattleTile::CargoCrate || !in_grid(
        w,
        h,
        bx + dx,
        by + dy,
    ) {
        board
    } else {
        let src = by * w + bx;
        let dst = (by + dy) * w + bx + dx;
        let t = board.tiles[dst];
        if t == BattleTile::FuelCanister {
            Board { tiles: board.tiles.update(src, BattleTile::MetalFloor).update(dst, BattleTile::BlastMark), ..board }
        } else if t == BattleTile::CargoCrate {
            let after = push_spec(w, h, board, bx + dx, by + dy, dx, dy, depth + 1);
            if after.tiles[dst] == BattleTile::CargoCrate {
                after
            } else {
                Board {
                    tiles: after.tiles.update(src, BattleTile::MetalFloor).update(dst, BattleTile::CargoCrate),
                    ..after
                }
            }
        } else if let Some(i) = unit_at_spec(board.units, bx + dx, by + dy) {
            Board {
                tiles: board.tiles.update(src, BattleTile::MetalFloor).update(dst, BattleTile::CargoCrate),
                units: board.units.update(i as int, damaged(board.units[i as int], 3)),
            }
        } else if t.walkable_spec() {
            Board { tiles: board.tiles.update(src, BattleTile::MetalFloor).update(dst, BattleTile::CargoCrate), ..board }
        } else {
            board
        }
    }
}

/// What a push reports, message by message: the fixed text of each message,
/// or `None` for the report of a unit crushed under the crate (which names
/// the unit and the damage). Nothing is reported when there is no crate at
/// `(bx, by)` or the step leaves the grid.
pub open spec fn push_texts(w: int, h: int, board: Board, bx: int, by: int, dx: int, dy: int, depth: int) -> Seq<Option<Seq<char>>>
    decreases 4 - depth,
{
    if depth > 3 {
        seq![Some("The chain of crates is too long to push!"@)]
    } else if !in_grid(w, h, bx, by) || board.tiles[by * w + bx] != BattleTile::CargoCrate || !in_grid(w, h, bx + dx, by + dy) {
        Seq::empty()
    } else {
        let dst = (by + dy) * w + bx + dx;
        let t = board.tiles[dst];
        if t == BattleTile::FuelCanister {
            seq![Some("📦💥 Cargo crate slams into a fuel canister!"@), Some("💥 The fuel canister explodes!"@)]
        } else if t == BattleTile::CargoCrate {
            let inner = push_texts(w, h, board, bx + dx, by + dy, dx, dy, depth + 1);
            if push_spec(w, h, board, bx + dx, by + dy, dx, dy, depth + 1).tiles[dst] == BattleTile::CargoCrate {
                inner.push(Some("The cargo crates are jammed!"@))
            } else if depth > 0 {
                inner.push(Some("📦📦 Chain push! Another crate slides!"@))
            } else {
                inner.push(Some("📦📦 The cargo crate chain-pushes another!"@))
            }
        } else if unit_at_spec(board.units, bx + dx, by + dy) is Some {
            seq![None]
        } else if t.walkable_spec() {
            if depth > 0 {
                seq![Some("📦 A chained crate slides!"@)]
            } else {
                seq![Some("The cargo crate slides!"@)]
            }
        } else {
            seq![Some("The cargo crate thuds against the wall."@)]
        }
    }
}

/// `msgs` tells what `texts` says: one message per entry, each with its text
/// where the entry gives one.
pub open spec fn reports(msgs: Seq<String>, texts: Seq<Option<Seq<char>>>) -> bool {
    &&& msgs.len() == texts.len()
    &&& forall|k: int| 0 <= k < msgs.len() && texts[k] is Some ==> (#[trigger] msgs[k])@ == texts[k]->0
}

pub open spec fn in_grid(w: int, h: int, x: int, y: int) -> bool {
    0 <= x < w && 0 <= y < h
}

/// Everything but the tiles, the units' hit points and life, the audio
/// queue and the log is as in `old`.
pub open spec fn env_frame(new: &TacticalBattle, old: &TacticalBattle) -> bool {
    &&& new.wf()
    &&& new.arena.same_shape(&old.arena)
    &&& new.arena.steam_timers@ == old.arena.steam_timers@
    &&& new.units@.len() == old.units@.len()
    &&& forall|i: int|
        0 <= i < old.units@.len() ==> (#[trigger] new.units@[i]).x == old.units@[i].x && new.units@[i].y
            == old.units@[i].y
    &&& *new == (TacticalBattle {
        units: new.units,
        arena: new.arena,
        audio_events: new.audio_events,
        log: new.log,
        ..*old
    })
}

/// A unit after damage keeps its place.
proof fn lemma_damaged_keeps_place(u: BattleUnit, d: int)
    ensures
        damaged(u, d).x == u.x && damaged(u, d).y == u.y,
{
}

/// Pushes the cargo crate at `(bx, by)` one step along `(dx, dy)`, chaining
/// into crates in the way, and returns what happened as messages.
pub fn push_boulder(battle: &mut TacticalBattle, bx: i32, by: i32, dx: i32, dy: i32) -> (msgs: Vec<String>)
    requires
        old(battle).wf(),
        -ARENA_MAX <= dx <= ARENA_MAX,
        -ARENA_MAX <= dy <= ARENA_MAX,
        -8 * ARENA_MAX <= bx <= 8 * ARENA_MAX,
        -8 * ARENA_MAX <= by <= 8 * ARENA_MAX,
    ensures
        board_of(final(battle)) == push_spec(
            old(battle).arena.width as int,
            old(battle).arena.height as int,
            board_of(old(battle)),
            bx as int,
            by as int,
            dx as int,
            dy as int,
            0,
        ),
        env_frame(final(battle), old(battle)),
        final(battle).log@ == old(battle).log@,
        (dx != 0 || dy != 0) && final(battle).arena.tiles@ == old(battle).arena.tiles@ ==> *final(battle) == *old(battle),
        reports(
            msgs@,
            push_texts(
                old(battle).arena.width as int,
                old(battle).arena.height as int,
                board_of(old(battle)),
                bx as int,
                by as int,
                dx as int,
                dy as int,
                0,
            ),
        ),
{
    push_boulder_recursive(battle, bx, by, dx, dy, 0)
}

/// The crate at index `src` rolls onto index `dst` over unit `unit_idx`,
/// which takes 3 damage; returns the message telling it.
fn crush_with_crate(battle: &mut TacticalBattle, unit_idx: usize, src: usize, dst: usize) -> (msg: String)
    requires
        old(battle).wf(),
        unit_idx < old(battle).units@.len(),
        src < old(battle).arena.tiles@.len(),
        dst < old(battle).arena.tiles@.len(),
    ensures
        final(battle).arena.tiles@ == old(battle).arena.tiles@.update(src as int, BattleTile::MetalFloor).update(
            dst as int,
            BattleTile::CargoCrate,
        ),
        final(battle).units@ == old(battle).units@.update(
            unit_idx as int,
            damaged(old(battle).units@[unit_idx as int], 3),
        ),
        env_frame(final(battle), old(battle)),
        final(battle).log@ == old(battle).log@,
{
    let ghost start = *battle;
    let actual = deal_damage(battle, unit_idx, 3);
    proof {
        lemma_damaged_keeps_place(start.units@[unit_idx as int], 3);
        assert(battle.wf());
    }
    let mut m = if battle.units[unit_idx].is_player() {
        String::from_str("You are")
    } else {
        cat(battle.units[unit_idx].hanzi, " is")
    };
    m.append(" crushed by a cargo crate! (");
    crate::text::push_int(&mut m, actual as i64);
    m.append(" dmg)");
    battle.audio_events.push(AudioEvent::CrateCrush);
    battle.arena.tiles.set(src, BattleTile::MetalFloor);
    battle.arena.tiles.set(dst, BattleTile::CargoCrate);
    m
}

/// The crate at `(bx, by)` (index `src`) moves onto `(dest_x, dest_y)` (index
/// `dst`), which holds neither a crate nor a fuel canister: a living unit
/// there is crushed, a walkable tile takes the crate, anything else stops it.
fn land_crate(
    battle: &mut TacticalBattle,
    bx: i32,
    by: i32,
    dest_x: i32,
    dest_y: i32,
    src: usize,
    dst: usize,
    depth: u32,
) -> (msgs: Vec<String>)
    requires
        old(battle).wf(),
        inb(&old(battle).arena, bx as int, by as int),
        inb(&old(battle).arena, dest_x as int, dest_y as int),
        src == old(battle).arena.index_of(bx as int, by as int),
        dst == old(battle).arena.index_of(dest_x as int, dest_y as int),
        src != dst,
        src < old(battle).arena.tiles@.len(),
        dst < old(battle).arena.tiles@.len(),
        old(battle).arena.tiles@[src as int] == BattleTile::CargoCrate,
    ensures
        final(battle).arena.tiles@[src as int] == BattleTile::CargoCrate ==> *final(battle) == *old(battle),
        board_of(final(battle)) == ({
            let board = board_of(old(battle));
            let t = board.tiles[dst as int];
            if let Some(i) = unit_at_spec(board.units, dest_x as int, dest_y as int) {
                Board {
                    tiles: board.tiles.update(src as int, BattleTile::MetalFloor).update(dst as int, BattleTile::CargoCrate),
                    units: board.units.update(i as int, damaged(board.units[i as int], 3)),
                }
            } else if t.walkable_spec() {
                Board {
                    tiles: board.tiles.update(src as int, BattleTile::MetalFloor).update(dst as int, BattleTile::CargoCrate),
                    ..board
                }
            } else {
                board
            }
        }),
        env_frame(final(battle), old(battle)),
        final(battle).log@ == old(battle).log@,
        msgs@.len() == 1,
        unit_at_spec(board_of(old(battle)).units, dest_x as int, dest_y as int) is None ==> msgs@[0]@ == if old(
            battle,
        ).arena.tiles@[dst as int].walkable_spec() {
            if depth > 0 {
                "📦 A chained crate slides!"@
            } else {
                "The cargo crate slides!"@
            }
        } else {
            "The cargo crate thuds against the wall."@
        },
{
    let mut messages: Vec<String> = Vec::new();
    if let Some(unit_idx) = battle.unit_at(dest_x, dest_y) {
        messages.push(crush_with_crate(battle, unit_idx, src, dst));
    } else if battle.arena.tiles[dst].is_walkable() {
        battle.arena.tiles.set(src, BattleTile::MetalFloor);
        battle.arena.tiles.set(dst, BattleTile::CargoCrate);
        battle.audio_events.push(AudioEvent::CratePush);
        if depth > 0 {
            messages.push(String::from_str("📦 A chained crate slides!"));
        } else {
            messages.push(String::from_str("The cargo crate slides!"));
        }
    } else {
        messages.push(String::from_str("The cargo crate thuds against the wall."));
    }
    messages
}

#[verifier::rlimit(30)]
fn push_boulder_recursive(battle: &mut TacticalBattle, bx: i32, by: i32, dx: i32, dy: i32, depth: u32) -> (msgs: Vec<String>)
    requires
        old(battle).wf(),
        depth <= 4,
        -ARENA_MAX <= dx <= ARENA_MAX,
        -ARENA_MAX <= dy <= ARENA_MAX,
        -8 * ARENA_MAX + depth * ARENA_MAX <= bx <= 8 * ARENA_MAX - depth * ARENA_MAX,
        -8 * ARENA_MAX + depth * ARENA_MAX <= by <= 8 * ARENA_MAX - depth * ARENA_MAX,
    ensures
        board_of(final(battle)) == push_spec(
            old(battle).arena.width as int,
            old(battle).arena.height as int,
            board_of(old(battle)),
            bx as int,
            by as int,
            dx as int,
            dy as int,
            depth as int,
        ),
        env_frame(final(battle), old(battle)),
        final(battle).log@ == old(battle).log@,
        !inb(&old(battle).arena, bx as int, by as int) ==> *final(battle) == *old(battle),
        (dx != 0 || dy != 0) && inb(&old(battle).arena, bx as int, by as int) && final(battle).arena.tiles@[old(
            battle,
        ).arena.index_of(bx as int, by as int)] == old(battle).arena.tiles@[old(battle).arena.index_of(bx as int, by as int)]
            ==> *final(battle) == *old(battle),
        reports(
            msgs@,
            push_texts(
                old(battle).arena.width as int,
                old(battle).arena.height as int,
                board_of(old(battle)),
                bx as int,
                by as int,
                dx as int,
                dy as int,
                depth as int,
            ),
        ),
    decreases 4 - depth,
{
    let ghost start = *battle;
    let mut messages: Vec<String> = Vec::new();
    if depth > 3 {
        messages.push(String::from_str("The chain of crates is too long to push!"));
        return messages;
    }
    let src_idx = match battle.arena.idx(bx, by) {
        Some(i) => i,
        None => return messages,
    };
    proof {
        crate::combat::lemma_index_in_grid(&battle.arena, bx as int, by as int);
    }
    if battle.arena.tiles[src_idx] != BattleTile::CargoCrate {
        return messages;
    }
    let dest_x = bx + dx;
    let dest_y = by + dy;
    let dest_idx = match battle.arena.idx(dest_x, dest_y) {
        Some(i) => i,
        None => return messages,
    };
    proof {
        crate::combat::lemma_index_in_grid(&battle.arena, dest_x as int, dest_y as int);
    }
    if battle.arena.tiles[dest_idx] == BattleTile::FuelCanister {
        battle.arena.tiles.set(src_idx, BattleTile::MetalFloor);
        messages.push(String::from_str("📦💥 Cargo crate slams into a fuel canister!"));
        battle.arena.tiles.set(dest_idx, BattleTile::BlastMark);
        messages.push(String::from_str("💥 The fuel canister explodes!"));
        return messages;
    }
    if battle.arena.tiles[dest_idx] == BattleTile::CargoCrate {
        let mut chain_msgs = push_boulder_recursive(battle, dest_x, dest_y, dx, dy, depth + 1);
        messages.append(&mut chain_msgs);
        let ghost inner_msgs = messages@;
        if battle.arena.tiles[dest_idx] == BattleTile::CargoCrate {
            messages.push(String::from_str("The cargo crates are jammed!"));
            proof {
                assert(messages@ =~= inner_msgs.push(messages@.last()));
            }
            return messages;
        }
        proof {
            if dx != 0 || dy != 0 {
                crate::combat::lemma_index_injective(&battle.arena, bx as int, by as int, dest_x as int, dest_y as int);
            }
        }
        battle.arena.tiles.set(src_idx, BattleTile::MetalFloor);
        battle.arena.tiles.set(dest_idx, BattleTile::CargoCrate);
        if depth > 0 {
            messages.push(String::from_str("📦📦 Chain push! Another crate slides!"));
        } else {
            messages.push(String::from_str("📦📦 The cargo crate chain-pushes another!"));
        }
        return messages;
    }
    assert(src_idx != dest_idx);
    land_crate(battle, bx, by, dest_x, dest_y, src_idx, dest_idx, depth)
}

/// Where a conveyor under a living unit would carry it, when that stays in the arena.
pub open spec fn conveyor_dest(a: &TacticalArena, u: BattleUnit) -> Option<(int, int)> {
    if !u.alive {
        None
    } else {
        match a.tile_spec(u.x as int, u.y as int) {
            Some(t) => match t.conveyor_spec() {
                Some(d) => if inb(a, u.x + d.0, u.y + d.1) {
                    Some((u.x + d.0, u.y + d.1))
                } else {
                    None
                },
                None => None,
            },
            None => None,
        }
    }
}

/// `u` moved to `(x, y)`, nothing else changed.
pub open spec fn moved_to(u: BattleUnit, x: int, y: int) -> BattleUnit {
    BattleUnit { x: x as i32, y: y as i32, ..u }
}

/// What a conveyor does to one unit: a unit carried into a blocking tile
/// takes 1 damage and stays; otherwise it moves one step, unless another
/// living unit holds the destination, in which case it stays.
pub open spec fn conveyor_ok(a: &TacticalArena, u: BattleUnit, v: BattleUnit) -> bool {
    match conveyor_dest(a, u) {
        None => v == u,
        Some(d) => if !a.tile_spec(d.0, d.1).unwrap().walkable_spec() {
            v == damaged(u, 1)
        } else {
            v == u || v == moved_to(u, d.0, d.1)
        },
    }
}

/// Conveyors move every living unit standing on them one tile along their
/// direction; a unit carried into a blocking tile takes 1 damage instead.
pub fn apply_flow_water(battle: &mut TacticalBattle) -> (msgs: Vec<String>)
    requires
        old(battle).wf(),
    ensures
        final(battle).wf(),
        final(battle).units@.len() == old(battle).units@.len(),
        forall|i: int|
            0 <= i < old(battle).units@.len() ==> conveyor_ok(
                &old(battle).arena,
                old(battle).units@[i],
                #[trigger] final(battle).units@[i],
            ),
        *final(battle) == (TacticalBattle {
            units: final(battle).units,
            audio_events: final(battle).audio_events,
            ..*old(battle)
        }),
{
    let ghost start = *battle;
    let mut messages: Vec<String> = Vec::new();
    let mut pushes: Vec<(usize, i32, i32)> = Vec::new();
    let mut idx: usize = 0;
    while idx < battle.units.len()
        invariant
            battle.wf(),
            start.wf(),
            idx <= battle.units@.len(),
            battle.units@.len() == start.units@.len(),
            *battle == (TacticalBattle { units: battle.units, ..start }),
            forall|j: int| idx <= j < battle.units@.len() ==> #[trigger] battle.units@[j] == start.units@[j],
            forall|j: int|
                0 <= j < idx ==> {
                    let u = start.units@[j];
                    let v = #[trigger] battle.units@[j];
                    match conveyor_dest(&start.arena, u) {
                        None => v == u,
                        Some(d) => if !start.arena.tile_spec(d.0, d.1).unwrap().walkable_spec() {
                            v == damaged(u, 1)
                        } else {
                            v == u
                        },
                    }
                },
            forall|k: int|
                0 <= k < pushes@.len() ==> {
                    let p = #[trigger] pushes@[k];
                    &&& p.0 < idx
                    &&& conveyor_dest(&start.arena, start.units@[p.0 as int]) == Some((p.1 as int, p.2 as int))
                    &&& start.arena.tile_spec(p.1 as int, p.2 as int).unwrap().walkable_spec()
                },
            forall|k1: int, k2: int| 0 <= k1 < k2 < pushes@.len() ==> (#[trigger] pushes@[k1]).0 < (#[trigger] pushes@[k2]).0,
        decreases battle.units@.len() - idx,
    {
        if !battle.units[idx].alive {
            idx += 1;
            continue;
        }
        let ux = battle.units[idx].x;
        let uy = battle.units[idx].y;
        let tile = battle.arena.tile(ux, uy);
        let d = match tile {
            Some(t) => t.conveyor(),
            None => None,
        };
        let (dx, dy) = match d {
            Some(d) => d,
            None => {
                idx += 1;
                continue;
            },
        };
        let dest_x = ux + dx;
        let dest_y = uy + dy;
        if !battle.arena.in_bounds(dest_x, dest_y) {
            idx += 1;
            continue;
        }
        let dest_tile = battle.arena.tile(dest_x, dest_y);
        if let Some(t) = dest_tile {
            if !t.is_walkable() {
                let ghost before = *battle;
                let actual = deal_damage(battle, idx, 1);
                proof {
                    lemma_damaged_keeps_place(before.units@[idx as int], 1);
                    assert forall|j: int| 0 <= j < battle.units@.len() implies battle.arena.in_bounds_spec(
                        #[trigger] battle.units@[j].x as int,
                        battle.units@[j].y as int,
                    ) by {
                        assert(before.arena.in_bounds_spec(before.units@[j].x as int, before.units@[j].y as int));
                    }
                }
                let mut m = if battle.units[idx].is_player() {
                    String::from_str("You are")
                } else {
                    cat(battle.units[idx].hanzi, " is")
                };
                m.append(" crushed against a wall by the conveyor! (");
                crate::text::push_int(&mut m, actual as i64);
                m.append(" dmg)");
                messages.push(m);
                idx += 1;
                continue;
            }
        }
        if battle.unit_at(dest_x, dest_y).is_some() {
            idx += 1;
            continue;
        }
        pushes.push((idx, dest_x, dest_y));
        idx += 1;
    }
    let ghost mid = *battle;
    let mut conveyor_played = false;
    let mut k: usize = 0;
    while k < pushes.len()
        invariant
            battle.wf(),
            mid.wf(),
            start.wf(),
            k <= pushes@.len(),
            battle.units@.len() == start.units@.len(),
            mid.units@.len() == start.units@.len(),
            *battle == (TacticalBattle { units: battle.units, audio_events: battle.audio_events, ..start }),
            forall|j: int|
                0 <= j < start.units@.len() ==> {
                    let u = start.units@[j];
                    let v = #[trigger] mid.units@[j];
                    match conveyor_dest(&start.arena, u) {
                        None => v == u,
                        Some(d) => if !start.arena.tile_spec(d.0, d.1).unwrap().walkable_spec() {
                            v == damaged(u, 1)
                        } else {
                            v == u
                        },
                    }
                },
            forall|q: int|
                0 <= q < pushes@.len() ==> {
                    let p = #[trigger] pushes@[q];
                    &&& p.0 < start.units@.len()
                    &&& conveyor_dest(&start.arena, start.units@[p.0 as int]) == Some((p.1 as int, p.2 as int))
                    &&& start.arena.tile_spec(p.1 as int, p.2 as int).unwrap().walkable_spec()
                },
            forall|k1: int, k2: int| 0 <= k1 < k2 < pushes@.len() ==> (#[trigger] pushes@[k1]).0 < (#[trigger] pushes@[k2]).0,
            forall|j: int|
                0 <= j < start.units@.len() ==> {
                    let v = #[trigger] battle.units@[j];
                    ||| v == mid.units@[j]
                    ||| exists|q: int|
                        0 <= q < k && (#[trigger] pushes@[q]).0 == j && v == moved_to(
                            mid.units@[j],
                            pushes@[q].1 as int,
                            pushes@[q].2 as int,
                        )
                },
            forall|j: int|
                0 <= j < start.units@.len() ==> (forall|q: int| k <= q < pushes@.len() ==> (#[trigger] pushes@[q]).0 != j)
                    || #[trigger] battle.units@[j] == mid.units@[j],
        decreases pushes@.len() - k,
    {
        let (pidx, dest_x, dest_y) = pushes[k];
        proof {
            assert(conveyor_dest(&start.arena, start.units@[pidx as int]) == Some((dest_x as int, dest_y as int)));
            assert(battle.units@[pidx as int] == mid.units@[pidx as int]);
        }
        if battle.units[pidx].alive {
            let name = if battle.units[pidx].is_player() {
                String::from_str("You are")
            } else {
                cat(battle.units[pidx].hanzi, " is")
            };
            let ghost before = battle.units@;
            battle.units[pidx].x = dest_x;
            battle.units[pidx].y = dest_y;
            proof {
                assert(battle.units@ == before.update(pidx as int, moved_to(before[pidx as int], dest_x as int, dest_y as int)));
            }
            let mut m = name;
            m.append(" pushed by the conveyor!");
            messages.push(m);
            if !conveyor_played {
                battle.audio_events.push(AudioEvent::ConveyorMove);
                conveyor_played = true;
            }
        }
        k += 1;
    }
    messages
}

/// What the weather turns a tile into: coolant leaks put out blast marks
/// (into vent steam) and melt frozen coolant, debris storms bury lubricant.
pub open spec fn weather_tile(w: Weather, t: BattleTile) -> BattleTile {
    match w {
        Weather::CoolantLeak => if t == BattleTile::BlastMark {
            BattleTile::VentSteam
        } else if t == BattleTile::FrozenCoolant {
            BattleTile::CoolantPool
        } else {
            t
        },
        Weather::DebrisStorm => if t == BattleTile::Lubricant {
            BattleTile::Debris
        } else {
            t
        },
        _ => t,
    }
}

/// The steam timer of a tile after the weather: steam from a put-out blast
/// mark lasts 2 turns, and smoke keeps existing steam up for at least 4.
pub open spec fn weather_steam(w: Weather, t: BattleTile, timer: u8) -> u8 {
    match w {
        Weather::CoolantLeak => if t == BattleTile::BlastMark {
            2
        } else {
            timer
        },
        Weather::SmokeScreen => if t == BattleTile::VentSteam && timer < 4 {
            4
        } else {
            timer
        },
        _ => timer,
    }
}

/// Position text `(x,y)` of tile index `i` in a grid `w` wide.
fn position_text(prefix: &str, i: usize, w: usize, suffix: &str) -> (s: String)
    requires
        w >= 1,
        i < ARENA_MAX * ARENA_MAX,
{
    let mut m = String::from_str(prefix);
    m.append("(");
    crate::text::push_int(&mut m, (i % w) as i64);
    m.append(",");
    crate::text::push_int(&mut m, (i / w) as i64);
    m.append(")");
    m.append(suffix);
    m
}

/// Weather acting on the terrain at the end of a round (see `weather_tile`
/// and `weather_steam`); units are not touched.
pub fn apply_weather_terrain_synergies(battle: &mut TacticalBattle) -> (msgs: Vec<String>)
    requires
        old(battle).wf(),
    ensures
        final(battle).wf(),
        final(battle).arena.same_shape(&old(battle).arena),
        forall|i: int|
            0 <= i < old(battle).arena.tiles@.len() ==> #[trigger] final(battle).arena.tiles@[i] == weather_tile(
                old(battle).weather,
                old(battle).arena.tiles@[i],
            ),
        forall|i: int|
            0 <= i < old(battle).arena.tiles@.len() ==> #[trigger] final(battle).arena.steam_timers@[i] == weather_steam(
                old(battle).weather,
                old(battle).arena.tiles@[i],
                old(battle).arena.steam_timers@[i],
            ),
        *final(battle) == (TacticalBattle { arena: final(battle).arena, ..*old(battle) }),
        (old(battle).weather is Normal || old(battle).weather is EnergyFlux) ==> msgs@.len() == 0,
{
    let ghost start = *battle;
    let mut messages: Vec<String> = Vec::new();
    let len = battle.arena.tiles.len();
    let w = battle.arena.width;
    proof {
        crate::combat::lemma_grid_cells(&battle.arena);
    }
    match battle.weather {
        Weather::CoolantLeak => {
            let mut i: usize = 0;
            while i < len
                invariant
                    battle.wf(),
                    start.wf(),
                    len == start.arena.tiles@.len(),
                    len <= ARENA_MAX * ARENA_MAX,
                    w == start.arena.width,
                    start.weather is CoolantLeak,
                    battle.arena.same_shape(&start.arena),
                    *battle == (TacticalBattle { arena: battle.arena, ..start }),
                    i <= len,
                    forall|j: int| 0 <= j < len ==> #[trigger] battle.arena.tiles@[j] == if j < i && start.arena.tiles@[j] == BattleTile::BlastMark {
                        BattleTile::VentSteam
                    } else {
                        start.arena.tiles@[j]
                    },
                    forall|j: int| 0 <= j < len ==> #[trigger] battle.arena.steam_timers@[j] == if j < i && start.arena.tiles@[j] == BattleTile::BlastMark {
                        2u8
                    } else {
                        start.arena.steam_timers@[j]
                    },
                decreases len - i,
            {
                if battle.arena.tiles[i] == BattleTile::BlastMark {
                    battle.arena.tiles.set(i, BattleTile::VentSteam);
                    battle.arena.steam_timers.set(i, 2);
                    messages.push(position_text("🌧🔥 Coolant extinguishes fire at ", i, w, " → Vent Steam!"));
                }
                i += 1;
            }
            let ghost mid = *battle;
            let mut i: usize = 0;
            while i < len
                invariant
                    battle.wf(),
                    len == mid.arena.tiles@.len(),
                    len <= ARENA_MAX * ARENA_MAX,
                    w == mid.arena.width,
                    w >= 1,
                    battle.arena.same_shape(&mid.arena),
                    battle.arena.steam_timers@ == mid.arena.steam_timers@,
                    *battle == (TacticalBattle { arena: battle.arena, ..mid }),
                    i <= len,
                    forall|j: int| 0 <= j < len ==> #[trigger] battle.arena.tiles@[j] == if j < i && mid.arena.tiles@[j] == BattleTile::FrozenCoolant {
                        BattleTile::CoolantPool
                    } else {
                        mid.arena.tiles@[j]
                    },
                decreases len - i,
            {
                if battle.arena.tiles[i] == BattleTile::FrozenCoolant {
                    battle.arena.tiles.set(i, BattleTile::CoolantPool);
                    messages.push(position_text("🌧❄ Coolant leak melts frozen coolant at ", i, w, " → Coolant Pool!"));
                }
                i += 1;
            }
        },
        Weather::DebrisStorm => {
            let mut any = false;
            let mut i: usize = 0;
            while i < len
                invariant
                    battle.wf(),
                    len == start.arena.tiles@.len(),
                    battle.arena.same_shape(&start.arena),
                    battle.arena.steam_timers@ == start.arena.steam_timers@,
                    *battle == (TacticalBattle { arena: battle.arena, ..start }),
                    i <= len,
                    forall|j: int| 0 <= j < len ==> #[trigger] battle.arena.tiles@[j] == if j < i && start.arena.tiles@[j] == BattleTile::Lubricant {
                        BattleTile::Debris
                    } else {
                        start.arena.tiles@[j]
                    },
                decreases len - i,
            {
                if battle.arena.tiles[i] == BattleTile::Lubricant {
                    battle.arena.tiles.set(i, BattleTile::Debris);
                    any = true;
                }
                i += 1;
            }
            if any {
                messages.push(String::from_str("🏜 Debris storm covers lubricant tiles with debris!"));
            }
        },
        Weather::SmokeScreen => {
            let mut i: usize = 0;
            while i < len
                invariant
                    battle.wf(),
                    len == start.arena.tiles@.len(),
                    battle.arena.same_shape(&start.arena),
                    battle.arena.tiles@ == start.arena.tiles@,
                    *battle == (TacticalBattle { arena: battle.arena, ..start }),
                    start.weather is SmokeScreen,
                    i <= len,
                    forall|j: int| 0 <= j < len ==> #[trigger] battle.arena.steam_timers@[j] == if j < i {
                        weather_steam(start.weather, start.arena.tiles@[j], start.arena.steam_timers@[j])
                    } else {
                        start.arena.steam_timers@[j]
                    },
                decreases len - i,
            {
                if battle.arena.tiles[i] == BattleTile::VentSteam && battle.arena.steam_timers[i] < 4 {
                    battle.arena.steam_timers.set(i, 4);
                }
                i += 1;
            }
        },
        Weather::EnergyFlux => {},
        Weather::Normal => {},
    }
    messages
}

/// A metal floor tile next to a coolant pool is flooded by a coolant leak
/// when its fixed roll `(31x + 17y) mod 100` is under 20.
pub open spec fn rain_spreads(a: &TacticalArena, x: int, y: int) -> bool {
    &&& a.tile_spec(x, y) == Some(BattleTile::MetalFloor)
    &&& (31 * x + 17 * y) % 100 < 20
    &&& {
        ||| a.tile_spec(x - 1, y) == Some(BattleTile::CoolantPool)
        ||| a.tile_spec(x + 1, y) == Some(BattleTile::CoolantPool)
        ||| a.tile_spec(x, y - 1) == Some(BattleTile::CoolantPool)
        ||| a.tile_spec(x, y + 1) == Some(BattleTile::CoolantPool)
    }
}

/// Spreads coolant pools onto neighbouring metal floor, by a fixed pattern.
pub fn spread_rain_water(arena: &mut TacticalArena)
    requires
        old(arena).wf(),
    ensures
        final(arena).wf(),
        final(arena).same_shape(old(arena)),
        final(arena).steam_timers@ == old(arena).steam_timers@,
        forall|x: int, y: int|
            old(arena).in_bounds_spec(x, y) ==> #[trigger] final(arena).tile_spec(x, y) == if rain_spreads(old(arena), x, y) {
                Some(BattleTile::CoolantPool)
            } else {
                old(arena).tile_spec(x, y)
            },
{
    let len = arena.tiles.len();
    let w = arena.width;
    proof {
        crate::combat::lemma_grid_cells(arena);
    }
    let mut new_tiles: Vec<BattleTile> = Vec::new();
    let mut i: usize = 0;
    while i < len
        invariant
            arena.wf(),
            len == arena.tiles@.len(),
            w == arena.width,
            len <= ARENA_MAX * ARENA_MAX,
            i <= len,
            new_tiles@.len() == i,
            forall|j: int| 0 <= j < i ==> #[trigger] new_tiles@[j] == if rain_spreads(arena, j % (w as int), j / (w as int)) {
                BattleTile::CoolantPool
            } else {
                arena.tiles@[j]
            },
        decreases len - i,
    {
        proof {
            crate::combat::lemma_index_position(arena, i as int);
        }
        let x = (i % w) as i32;
        let y = (i / w) as i32;
        let t = arena.tiles[i];
        let roll = ((x as u64) * 31 + (y as u64) * 17) % 100;
        let wet = arena.tile(x - 1, y) == Some(BattleTile::CoolantPool) || arena.tile(x + 1, y) == Some(
            BattleTile::CoolantPool,
        ) || arena.tile(x, y - 1) == Some(BattleTile::CoolantPool) || arena.tile(x, y + 1) == Some(
            BattleTile::CoolantPool,
        );
        if t == BattleTile::MetalFloor && roll < 20 && wet {
            new_tiles.push(BattleTile::CoolantPool);
        } else {
            new_tiles.push(t);
        }
        i += 1;
    }
    let ghost start = *arena;
    arena.tiles = new_tiles;
    proof {
        assert forall|x: int, y: int| start.in_bounds_spec(x, y) implies #[trigger] arena.tile_spec(x, y) == if rain_spreads(&start, x, y) {
            Some(BattleTile::CoolantPool)
        } else {
            start.tile_spec(x, y)
        } by {
            crate::combat::lemma_index_in_grid(&start, x, y);
            let k = start.index_of(x, y);
            crate::combat::lemma_index_position(&start, k);
            let kx = k % (w as int);
            let ky = k / (w as int);
            if kx != x || ky != y {
                crate::combat::lemma_index_injective(&start, kx, ky, x, y);
            }
        }
    }
}

/// An in-bounds walkable tile.
pub open spec fn walkable_at(a: &TacticalArena, x: int, y: int) -> bool {
    a.tile_spec(x, y) matches Some(t) && t.walkable_spec()
}

pub open spec fn manhattan(ax: int, ay: int, bx: int, by: int) -> int {
    (if ax >= bx { ax - bx } else { bx - ax }) + (if ay >= by { ay - by } else { by - ay })
}

/// A gravity well lies one or two steps from the unit.
pub open spec fn near_well(a: &TacticalArena, u: BattleUnit) -> bool {
    exists|wx: int, wy: int|
        #[trigger] a.tile_spec(wx, wy) == Some(BattleTile::GravityWell) && 1 <= manhattan(
            u.x as int,
            u.y as int,
            wx,
            wy,
        ) <= 2
}

/// How a unit may change under gravity wells: only a living unit near a
/// well changes at all; it may lose hit points (or die), and it may take
/// one orthogonal step onto a walkable tile; nothing else about it changes.
pub open spec fn gravity_ok(a: &TacticalArena, u: BattleUnit, v: BattleUnit) -> bool {
    &&& (!u.alive || !near_well(a, u)) ==> v == u
    &&& v == (BattleUnit { x: v.x, y: v.y, hp: v.hp, alive: v.alive, ..u })
    &&& v.hp <= u.hp || v.hp == 0
    &&& !u.alive ==> !v.alive
    &&& (v.x == u.x && v.y == u.y) || (manhattan(u.x as int, u.y as int, v.x as int, v.y as int) == 1 && walkable_at(a, v.x as int, v.y as int))
}

fn sign(v: i32) -> (s: i32)
    ensures
        s == (if v > 0 { 1i32 } else if v < 0 { -1i32 } else { 0i32 }),
{
    if v > 0 {
        1
    } else if v < 0 {
        -1
    } else {
        0
    }
}

fn abs_i32(v: i32) -> (r: i32)
    requires
        v > i32::MIN,
    ensures
        r == (if v >= 0 { v as int } else { -v }),
{
    if v >= 0 {
        v
    } else {
        -v
    }
}

proof fn lemma_same_well(a: &TacticalArena, x1: int, y1: int, x2: int, y2: int)
    requires
        a.wf(),
        a.tile_spec(x1, y1) is Some,
        a.tile_spec(x2, y2) is Some,
        a.index_of(x1, y1) == a.index_of(x2, y2),
    ensures
        x1 == x2 && y1 == y2,
{
    if x1 != x2 || y1 != y2 {
        crate::combat::lemma_index_injective(a, x1, y1, x2, y2);
    }
}

/// A gravity well at `(x, y)`.
pub open spec fn well_at(a: &TacticalArena, x: int, y: int) -> bool {
    a.tile_spec(x, y) == Some(BattleTile::GravityWell)
}

/// The tile a well at `(wx, wy)` pulls a unit at `(ux, uy)` onto: one step
/// toward it along the longer axis (the x axis on a tie).
pub open spec fn pull_step(ux: int, uy: int, wx: int, wy: int) -> (int, int) {
    let ax = if ux >= wx { ux - wx } else { wx - ux };
    let ay = if uy >= wy { uy - wy } else { wy - uy };
    if ax >= ay {
        (ux + (if wx > ux { 1int } else if wx < ux { -1int } else { 0int }), uy)
    } else {
        (ux, uy + (if wy > uy { 1int } else if wy < uy { -1int } else { 0int }))
    }
}

/// `u` is alive, the well at `(wx, wy)` is two steps away and is the only
/// well within two steps, and the tile it would pull `u` onto is walkable
/// with no living unit of `units` on it.
pub open spec fn lone_pull(a: &TacticalArena, units: Seq<BattleUnit>, u: BattleUnit, wx: int, wy: int) -> bool {
    let d = pull_step(u.x as int, u.y as int, wx, wy);
    &&& u.alive
    &&& well_at(a, wx, wy)
    &&& manhattan(u.x as int, u.y as int, wx, wy) == 2
    &&& forall|x2: int, y2: int|
        #[trigger] well_at(a, x2, y2) && !(x2 == wx && y2 == wy) ==> manhattan(u.x as int, u.y as int, x2, y2) > 2
    &&& walkable_at(a, d.0, d.1)
    &&& forall|k: int| 0 <= k < units.len() ==> !occupies(#[trigger] units[k], d.0, d.1)
}

/// The pull of unit `j` toward the well at `(wx, wy)` as recorded: the unit
/// and the tile it goes to.
pub open spec fn pull_entry(units: Seq<BattleUnit>, j: int, wx: int, wy: int) -> (usize, i32, i32) {
    let d = pull_step(units[j].x as int, units[j].y as int, wx, wy);
    (j as usize, d.0 as i32, d.1 as i32)
}

/// Gravity wells hurt units standing next to them (1 damage per well) and
/// pull units two steps away one step closer, along the longer axis, when
/// that tile is walkable and free; each unit is pulled at most once.
#[verifier::rlimit(100)]
#[verifier::spinoff_prover]
pub fn apply_gravity_wells(battle: &mut TacticalBattle) -> (msgs: Vec<String>)
    requires
        old(battle).wf(),
    ensures
        forall|j: int, wx: int, wy: int|
            0 <= j < old(battle).units@.len() && #[trigger] lone_pull(&old(battle).arena, old(battle).units@, old(battle).units@[j], wx, wy)
                ==> final(battle).units@[j] == moved_to(
                old(battle).units@[j],
                pull_step(old(battle).units@[j].x as int, old(battle).units@[j].y as int, wx, wy).0,
                pull_step(old(battle).units@[j].x as int, old(battle).units@[j].y as int, wx, wy).1,
            ),
        final(battle).wf(),
        final(battle).units@.len() == old(battle).units@.len(),
        forall|i: int|
            0 <= i < old(battle).units@.len() ==> gravity_ok(
                &old(battle).arena,
                old(battle).units@[i],
                #[trigger] final(battle).units@[i],
            ),
        *final(battle) == (TacticalBattle {
            units: final(battle).units,
            audio_events: final(battle).audio_events,
            ..*old(battle)
        }),
{
    let ghost start = *battle;
    let mut messages: Vec<String> = Vec::new();
    let len = battle.arena.tiles.len();
    let w = battle.arena.width;
    let h = battle.arena.height;
    proof {
        crate::combat::lemma_grid_cells(&battle.arena);
    }
    let mut gravity_played = false;
    let mut pulls: Vec<(usize, i32, i32)> = Vec::new();
    let mut i: usize = 0;
    while i < len
        invariant
            battle.wf(),
            start.wf(),
            len == start.arena.tiles@.len(),
            w == start.arena.width,
            h == start.arena.height,
            len <= ARENA_MAX * ARENA_MAX,
            i <= len,
            battle.units@.len() == start.units@.len(),
            *battle == (TacticalBattle { units: battle.units, audio_events: battle.audio_events, ..start }),
            forall|j: int|
                0 <= j < start.units@.len() ==> {
                    let u = start.units@[j];
                    let v = #[trigger] battle.units@[j];
                    &&& (!u.alive || !near_well(&start.arena, u)) ==> v == u
                    &&& v == (BattleUnit { hp: v.hp, alive: v.alive, ..u })
                    &&& v.hp <= u.hp || v.hp == 0
                    &&& !u.alive ==> !v.alive
                },
            forall|k: int|
                0 <= k < pulls@.len() ==> {
                    let p = #[trigger] pulls@[k];
                    let u = start.units@[p.0 as int];
                    &&& p.0 < start.units@.len()
                    &&& u.alive && near_well(&start.arena, u)
                    &&& manhattan(u.x as int, u.y as int, p.1 as int, p.2 as int) == 1
                    &&& walkable_at(&start.arena, p.1 as int, p.2 as int)
                },
            forall|k1: int, k2: int| 0 <= k1 < k2 < pulls@.len() ==> (#[trigger] pulls@[k1]).0 != (#[trigger] pulls@[k2]).0,
            forall|j: int, wx2: int, wy2: int|
                0 <= j < start.units@.len() && #[trigger] lone_pull(&start.arena, start.units@, start.units@[j], wx2, wy2) ==> {
                    &&& battle.units@[j] == start.units@[j]
                    &&& start.arena.index_of(wx2, wy2) < i ==> exists|q: int|
                        0 <= q < pulls@.len() && #[trigger] pulls@[q] == pull_entry(start.units@, j, wx2, wy2)
                    &&& start.arena.index_of(wx2, wy2) >= i ==> forall|q: int| 0 <= q < pulls@.len() ==> (#[trigger] pulls@[q]).0 != j
                },
        decreases len - i,
    {
        if battle.arena.tiles[i] == BattleTile::GravityWell {
            proof {
                crate::combat::lemma_index_position(&battle.arena, i as int);
            }
            let wx = (i % w) as i32;
            let wy = (i / w) as i32;
            assert(start.arena.tile_spec(wx as int, wy as int) == Some(BattleTile::GravityWell));
            let mut idx: usize = 0;
            while idx < battle.units.len()
                invariant
                    battle.wf(),
                    start.wf(),
                    len == start.arena.tiles@.len(),
                    w == start.arena.width,
                    h == start.arena.height,
                    0 <= wx < w,
                    0 <= wy < h,
                    start.arena.tile_spec(wx as int, wy as int) == Some(BattleTile::GravityWell),
                    idx <= battle.units@.len(),
                    battle.units@.len() == start.units@.len(),
                    *battle == (TacticalBattle { units: battle.units, audio_events: battle.audio_events, ..start }),
                    forall|j: int|
                        0 <= j < start.units@.len() ==> {
                            let u = start.units@[j];
                            let v = #[trigger] battle.units@[j];
                            &&& (!u.alive || !near_well(&start.arena, u)) ==> v == u
                            &&& v == (BattleUnit { hp: v.hp, alive: v.alive, ..u })
                            &&& v.hp <= u.hp || v.hp == 0
                            &&& !u.alive ==> !v.alive
                        },
                    forall|k: int|
                        0 <= k < pulls@.len() ==> {
                            let p = #[trigger] pulls@[k];
                            let u = start.units@[p.0 as int];
                            &&& p.0 < start.units@.len()
                            &&& u.alive && near_well(&start.arena, u)
                            &&& manhattan(u.x as int, u.y as int, p.1 as int, p.2 as int) == 1
                            &&& walkable_at(&start.arena, p.1 as int, p.2 as int)
                        },
                    forall|k1: int, k2: int|
                        0 <= k1 < k2 < pulls@.len() ==> (#[trigger] pulls@[k1]).0 != (#[trigger] pulls@[k2]).0,
                    start.arena.index_of(wx as int, wy as int) == i,
                    i < len,
                    forall|j: int, wx2: int, wy2: int|
                        0 <= j < start.units@.len() && #[trigger] lone_pull(&start.arena, start.units@, start.units@[j], wx2, wy2) ==> {
                            &&& battle.units@[j] == start.units@[j]
                            &&& (start.arena.index_of(wx2, wy2) < i || (start.arena.index_of(wx2, wy2) == i && j < idx)) ==> exists|q: int|
                                0 <= q < pulls@.len() && #[trigger] pulls@[q] == pull_entry(start.units@, j, wx2, wy2)
                            &&& (start.arena.index_of(wx2, wy2) > i || (start.arena.index_of(wx2, wy2) == i && j >= idx)) ==> forall|q: int|
                                0 <= q < pulls@.len() ==> (#[trigger] pulls@[q]).0 != j
                        },
                decreases battle.units@.len() - idx,
            {
                proof {
                    assert(well_at(&start.arena, wx as int, wy as int));
                    assert forall|wx2: int, wy2: int|
                        #[trigger] lone_pull(&start.arena, start.units@, start.units@[idx as int], wx2, wy2) && start.arena.index_of(
                            wx2,
                            wy2,
                        ) == i implies wx2 == wx && wy2 == wy by {
                        lemma_same_well(&start.arena, wx2, wy2, wx as int, wy as int);
                    }
                }
                if !battle.units[idx].alive {
                    idx += 1;
                    continue;
                }
                let ux = battle.units[idx].x;
                let uy = battle.units[idx].y;
                proof {
                    assert(battle.arena.in_bounds_spec(battle.units@[idx as int].x as int, battle.units@[idx as int].y as int));
                }
                let ddx = abs_i32(ux - wx);
                let ddy = abs_i32(uy - wy);
                let dist = ddx + ddy;
                if dist < 1 || dist > 2 {
                    idx += 1;
                    continue;
                }
                proof {
                    assert(near_well(&start.arena, start.units@[idx as int]));
                }
                proof {
                    assert forall|wx2: int, wy2: int|
                        #[trigger] lone_pull(&start.arena, start.units@, start.units@[idx as int], wx2, wy2) implies wx2 == wx
                        && wy2 == wy by {
                        assert(battle.units@[idx as int] == start.units@[idx as int]);
                        if !(wx2 == wx && wy2 == wy) {
                            assert(well_at(&start.arena, wx as int, wy as int));
                        }
                    }
                }
                if dist == 1 {
                    let ghost before = *battle;
                    let actual = deal_damage(battle, idx, 1);
                    proof {
                        lemma_damaged_keeps_place(before.units@[idx as int], 1);
                        assert forall|j: int| 0 <= j < battle.units@.len() implies battle.arena.in_bounds_spec(
                            #[trigger] battle.units@[j].x as int,
                            battle.units@[j].y as int,
                        ) by {
                            assert(before.arena.in_bounds_spec(before.units@[j].x as int, before.units@[j].y as int));
                        }
                    }
                    let mut m = String::from_str("⚫ ");
                    if battle.units[idx].is_player() {
                        m.append("You");
                    } else {
                        m.append(battle.units[idx].hanzi);
                    }
                    m.append(" takes damage near gravity well! (-");
                    crate::text::push_int(&mut m, actual as i64);
                    m.append(" HP)");
                    messages.push(m);
                    idx += 1;
                    continue;
                }
                let sx = sign(wx - ux);
                let sy = sign(wy - uy);
                let (step_x, step_y) = if ddx >= ddy {
                    (sx, 0)
                } else {
                    (0, sy)
                };
                let dest_x = ux + step_x;
                let dest_y = uy + step_y;
                proof {
                    if lone_pull(&start.arena, start.units@, start.units@[idx as int], wx as int, wy as int) {
                        assert(battle.units@[idx as int] == start.units@[idx as int]);
                        assert(dest_x == pull_step(ux as int, uy as int, wx as int, wy as int).0);
                        assert(dest_y == pull_step(ux as int, uy as int, wx as int, wy as int).1);
                    }
                }
                if dest_x < 0 || dest_y < 0 || dest_x >= w as i32 || dest_y >= h as i32 {
                    idx += 1;
                    continue;
                }
                if let Some(dest_tile) = battle.arena.tile(dest_x, dest_y) {
                    if !dest_tile.is_walkable() {
                        idx += 1;
                        continue;
                    }
                }
                let occupant = battle.unit_at(dest_x, dest_y);
                if occupant.is_some() {
                    proof {
                        let o = occupant.unwrap() as int;
                        if lone_pull(&start.arena, start.units@, start.units@[idx as int], wx as int, wy as int) {
                            assert(occupies(battle.units@[o], dest_x as int, dest_y as int));
                            assert(!occupies(start.units@[o], dest_x as int, dest_y as int));
                        }
                    }
                    idx += 1;
                    continue;
                }
                let mut already = false;
                let mut k: usize = 0;
                while k < pulls.len()
                    invariant
                        k <= pulls@.len(),
                        already == exists|q: int| 0 <= q < k && (#[trigger] pulls@[q]).0 == idx,
                    decreases pulls@.len() - k,
                {
                    if pulls[k].0 == idx {
                        already = true;
                    }
                    k += 1;
                }
                if already {
                    idx += 1;
                    continue;
                }
                proof {
                    assert(battle.units@[idx as int] == start.units@[idx as int] || !battle.units@[idx as int].alive || true);
                }
                let ghost before_pulls = pulls@;
                pulls.push((idx, dest_x, dest_y));
                proof {
                    assert(pulls@[pulls@.len() - 1] == (idx, dest_x, dest_y));
                    assert forall|q: int| 0 <= q < before_pulls.len() implies pulls@[q] == #[trigger] before_pulls[q] by {}
                }
                let mut m = String::from_str("⬇ Gravity well pulls ");
                if battle.units[idx].is_player() {
                    m.append("You are");
                } else {
                    m.append(battle.units[idx].hanzi);
                    m.append(" is");
                }
                m.append(" closer!");
                messages.push(m);
                if !gravity_played {
                    battle.audio_events.push(AudioEvent::GravityPull);
                    gravity_played = true;
                }
                idx += 1;
            }
        } else {
            proof {
                crate::combat::lemma_index_position(&start.arena, i as int);
                assert forall|j: int, wx2: int, wy2: int|
                    0 <= j < start.units@.len() && #[trigger] lone_pull(&start.arena, start.units@, start.units@[j], wx2, wy2)
                        implies start.arena.index_of(wx2, wy2) != i by {
                    if start.arena.index_of(wx2, wy2) == i {
                        lemma_same_well(&start.arena, wx2, wy2, i as int % (w as int), i as int / (w as int));
                    }
                }
            }
        }
        i += 1;
    }
    proof {
        assert forall|j: int, wx2: int, wy2: int|
            0 <= j < start.units@.len() && #[trigger] lone_pull(&start.arena, start.units@, start.units@[j], wx2, wy2)
                implies start.arena.index_of(wx2, wy2) < len by {
            crate::combat::lemma_index_in_grid(&start.arena, wx2, wy2);
        }
    }
    let ghost mid = *battle;
    let mut k: usize = 0;
    while k < pulls.len()
        invariant
            battle.wf(),
            mid.wf(),
            start.wf(),
            k <= pulls@.len(),
            battle.units@.len() == start.units@.len(),
            mid.units@.len() == start.units@.len(),
            *battle == (TacticalBattle { units: battle.units, audio_events: battle.audio_events, ..start }),
            forall|j: int|
                0 <= j < start.units@.len() ==> {
                    let u = start.units@[j];
                    let v = #[trigger] mid.units@[j];
                    &&& (!u.alive || !near_well(&start.arena, u)) ==> v == u
                    &&& v == (BattleUnit { hp: v.hp, alive: v.alive, ..u })
                    &&& v.hp <= u.hp || v.hp == 0
                    &&& !u.alive ==> !v.alive
                },
            forall|q: int|
                0 <= q < pulls@.len() ==> {
                    let p = #[trigger] pulls@[q];
                    let u = start.units@[p.0 as int];
                    &&& p.0 < start.units@.len()
                    &&& u.alive && near_well(&start.arena, u)
                    &&& manhattan(u.x as int, u.y as int, p.1 as int, p.2 as int) == 1
                    &&& walkable_at(&start.arena, p.1 as int, p.2 as int)
                },
            forall|j: int|
                0 <= j < start.units@.len() ==> {
                    let v = #[trigger] battle.units@[j];
                    let m = mid.units@[j];
                    let u = start.units@[j];
                    &&& v == (BattleUnit { x: v.x, y: v.y, ..m })
                    &&& (v.x == u.x && v.y == u.y) || (u.alive && near_well(&start.arena, u) && manhattan(
                        u.x as int,
                        u.y as int,
                        v.x as int,
                        v.y as int,
                    ) == 1 && walkable_at(&start.arena, v.x as int, v.y as int))
                },
            forall|j: int, wx2: int, wy2: int|
                0 <= j < start.units@.len() && #[trigger] lone_pull(&start.arena, start.units@, start.units@[j], wx2, wy2) ==> {
                    &&& mid.units@[j] == start.units@[j]
                    &&& exists|q: int| 0 <= q < pulls@.len() && #[trigger] pulls@[q] == pull_entry(start.units@, j, wx2, wy2)
                },
            forall|k1: int, k2: int| 0 <= k1 < k2 < pulls@.len() ==> (#[trigger] pulls@[k1]).0 != (#[trigger] pulls@[k2]).0,
            forall|q: int|
                0 <= q < k ==> {
                    let p = #[trigger] pulls@[q];
                    mid.units@[p.0 as int].alive ==> battle.units@[p.0 as int] == (BattleUnit {
                        x: p.1,
                        y: p.2,
                        ..mid.units@[p.0 as int]
                    })
                },
        decreases pulls@.len() - k,
    {
        let (pidx, dest_x, dest_y) = pulls[k];
        let ghost before_all = battle.units@;
        proof {
            assert(battle.units@[pidx as int] == (BattleUnit { x: battle.units@[pidx as int].x, y: battle.units@[pidx as int].y, ..mid.units@[pidx as int] }));
        }
        if battle.units[pidx].alive {
            let ghost before = battle.units@;
            battle.units[pidx].x = dest_x;
            battle.units[pidx].y = dest_y;
            proof {
                assert forall|q: int| 0 <= q < k implies #[trigger] pulls@[q].0 != pidx by {
                    assert(pulls@[q].0 != pulls@[k as int].0);
                }
                assert forall|j: int| 0 <= j < battle.units@.len() implies battle.arena.in_bounds_spec(
                    #[trigger] battle.units@[j].x as int,
                    battle.units@[j].y as int,
                ) by {
                    if j != pidx {
                        assert(battle.units@[j] == before[j]);
                    }
                }
            }
        }
        proof {
            assert forall|q: int| 0 <= q < k implies #[trigger] pulls@[q].0 != pidx by {
                assert(pulls@[q].0 != pulls@[k as int].0);
            }
            assert forall|q: int| 0 <= q < k implies battle.units@[(#[trigger] pulls@[q]).0 as int] == before_all[pulls@[q].0 as int] by {
                assert(pulls@[q].0 != pidx);
            }
        }
        k += 1;
    }
    proof {
        assert forall|j: int, wx2: int, wy2: int|
            0 <= j < start.units@.len() && #[trigger] lone_pull(&start.arena, start.units@, start.units@[j], wx2, wy2) implies battle.units@[j]
                == moved_to(
                start.units@[j],
                pull_step(start.units@[j].x as int, start.units@[j].y as int, wx2, wy2).0,
                pull_step(start.units@[j].x as int, start.units@[j].y as int, wx2, wy2).1,
            ) by {
            let q = choose|q: int| 0 <= q < pulls@.len() && #[trigger] pulls@[q] == pull_entry(start.units@, j, wx2, wy2);
            assert(pulls@[q].0 == j as usize);
            assert(mid.units@[j] == start.units@[j]);
        }
    }
    messages
}

/// A conveyor at `(p.0 - p.2, p.1 - p.3)` points along `(p.2, p.3)` at a
/// cargo crate standing at `(p.0, p.1)`.
pub open spec fn conveyor_feeds(a: &TacticalArena, p: (i32, i32, i32, i32)) -> bool {
    &&& a.tile_spec(p.0 - p.2, p.1 - p.3) matches Some(t) && t.conveyor_spec() == Some((p.2, p.3))
    &&& a.tile_spec(p.0 as int, p.1 as int) == Some(BattleTile::CargoCrate)
}

/// Crate pushes applied one after the other.
pub open spec fn push_all(a: &TacticalArena, board: Board, ps: Seq<(i32, i32, i32, i32)>) -> Board
    decreases ps.len(),
{
    if ps.len() == 0 {
        board
    } else {
        let p = ps.last();
        push_spec(
            a.width as int,
            a.height as int,
            push_all(a, board, ps.drop_last()),
            p.0 as int,
            p.1 as int,
            p.2 as int,
            p.3 as int,
            0,
        )
    }
}

/// The crate pushes found scanning the first `i` cells in row-major order:
/// a conveyor pointing at a cargo crate adds a push of that crate along its
/// direction, unless the crate already has one.
pub open spec fn pushes_upto(a: &TacticalArena, i: int) -> Seq<(i32, i32, i32, i32)>
    decreases i,
{
    if i <= 0 {
        Seq::empty()
    } else {
        let prev = pushes_upto(a, i - 1);
        let x = (i - 1) % (a.width as int);
        let y = (i - 1) / (a.width as int);
        match a.tiles@[i - 1].conveyor_spec() {
            Some(d) => {
                let tx = x + d.0;
                let ty = y + d.1;
                if a.tile_spec(tx, ty) == Some(BattleTile::CargoCrate) && !(exists|q: int|
                    0 <= q < prev.len() && (#[trigger] prev[q]).0 == tx && prev[q].1 == ty) {
                    prev.push((tx as i32, ty as i32, d.0, d.1))
                } else {
                    prev
                }
            },
            None => prev,
        }
    }
}

/// Conveyors push the cargo crates they point at, each crate once, in
/// row-major order of the crates' first conveyor.
pub fn apply_conveyor_crates(battle: &mut TacticalBattle) -> (msgs: Vec<String>)
    requires
        old(battle).wf(),
    ensures
        env_frame(final(battle), old(battle)),
        final(battle).log@ == old(battle).log@,
        board_of(final(battle)) == push_all(
            &old(battle).arena,
            board_of(old(battle)),
            pushes_upto(&old(battle).arena, old(battle).arena.tiles@.len() as int),
        ),
        forall|k: int|
            0 <= k < pushes_upto(&old(battle).arena, old(battle).arena.tiles@.len() as int).len() ==> conveyor_feeds(
                &old(battle).arena,
                #[trigger] pushes_upto(&old(battle).arena, old(battle).arena.tiles@.len() as int)[k],
            ),
{
    let ghost start = *battle;
    let mut messages: Vec<String> = Vec::new();
    let len = battle.arena.tiles.len();
    let w = battle.arena.width;
    proof {
        crate::combat::lemma_grid_cells(&battle.arena);
    }
    let mut crate_pushes: Vec<(i32, i32, i32, i32)> = Vec::new();
    let mut i: usize = 0;
    while i < len
        invariant
            battle.wf(),
            *battle == start,
            len == start.arena.tiles@.len(),
            w == start.arena.width,
            len <= ARENA_MAX * ARENA_MAX,
            i <= len,
            crate_pushes@ == pushes_upto(&start.arena, i as int),
            forall|k: int| 0 <= k < crate_pushes@.len() ==> conveyor_feeds(&start.arena, #[trigger] crate_pushes@[k]),
            forall|k: int|
                0 <= k < crate_pushes@.len() ==> {
                    let p = #[trigger] crate_pushes@[k];
                    &&& -1 <= p.2 <= 1
                    &&& -1 <= p.3 <= 1
                    &&& start.arena.in_bounds_spec(p.0 as int, p.1 as int)
                },
        decreases len - i,
    {
        proof {
            crate::combat::lemma_index_position(&battle.arena, i as int);
        }
        let x = (i % w) as i32;
        let y = (i / w) as i32;
        if let Some((dx, dy)) = battle.arena.tiles[i].conveyor() {
            let tx = x + dx;
            let ty = y + dy;
            if battle.arena.tile(tx, ty) == Some(BattleTile::CargoCrate) {
                let mut seen = false;
                let mut k: usize = 0;
                while k < crate_pushes.len()
                    invariant
                        k <= crate_pushes@.len(),
                        seen == exists|q: int| 0 <= q < k && (#[trigger] crate_pushes@[q]).0 == tx && crate_pushes@[q].1 == ty,
                    decreases crate_pushes@.len() - k,
                {
                    let (cx, cy, _, _) = crate_pushes[k];
                    if cx == tx && cy == ty {
                        seen = true;
                    }
                    k += 1;
                }
                if !seen {
                    proof {
                        assert(battle.arena.tile_spec(x as int, y as int) == Some(battle.arena.tiles@[i as int]));
                        assert(tx - dx == x && ty - dy == y);
                    }
                    crate_pushes.push((tx, ty, dx, dy));
                }
            }
        }
        i += 1;
    }
    let mut k: usize = 0;
    while k < crate_pushes.len()
        invariant
            battle.wf(),
            start.wf(),
            k <= crate_pushes@.len(),
            env_frame(battle, &start),
            battle.log@ == start.log@,
            forall|q: int|
                0 <= q < crate_pushes@.len() ==> {
                    let p = #[trigger] crate_pushes@[q];
                    &&& -1 <= p.2 <= 1
                    &&& -1 <= p.3 <= 1
                    &&& start.arena.in_bounds_spec(p.0 as int, p.1 as int)
                },
            board_of(battle) == push_all(&start.arena, board_of(&start), crate_pushes@.subrange(0, k as int)),
        decreases crate_pushes@.len() - k,
    {
        let (cx, cy, dx, dy) = crate_pushes[k];
        proof {
            assert(crate_pushes@.subrange(0, k + 1).drop_last() =~= crate_pushes@.subrange(0, k as int));
            assert(crate_pushes@.subrange(0, k + 1).last() == crate_pushes@[k as int]);
        }
        let ghost before = *battle;
        if battle.arena.tile(cx, cy) == Some(BattleTile::CargoCrate) {
            messages.push(String::from_str("⚙ Conveyor pushes a cargo crate!"));
            let mut push_msgs = push_boulder(battle, cx, cy, dx, dy);
            messages.append(&mut push_msgs);
        } else {
            proof {
                crate::combat::lemma_index_in_grid(&before.arena, cx as int, cy as int);
            }
        }
        k += 1;
    }
    proof {
        assert(crate_pushes@.subrange(0, crate_pushes@.len() as int) =~= crate_pushes@);
    }
    messages
}

/// Damage the unstable reactor deals to the player on round `turn`: none
/// before the threshold (round 20, or 30 against a boss), then 1, rising by
/// 1 every three rounds, at most 3.
pub open spec fn exhaustion_damage(is_boss: bool, turn: u32) -> int {
    let threshold: int = if is_boss { 30 } else { 20 };
    if turn < threshold {
        0
    } else {
        let e = (turn - threshold) / 3;
        if 1 + e < 3 { 1 + e } else { 3 }
    }
}

/// Round on which the reactor warning is logged: 15, or 25 against a boss.
pub open spec fn exhaustion_warning(is_boss: bool) -> int {
    if is_boss { 25 } else { 15 }
}

/// The reactor grows unstable in long fights: a warning on the warning
/// round, then damage to the player (unit 0) every round from the threshold.
pub fn apply_exhaustion(battle: &mut TacticalBattle)
    requires
        old(battle).units@.len() >= 1,
    ensures
        ({
            let d = exhaustion_damage(old(battle).is_boss_battle, old(battle).turn_number);
            &&& d == 0 ==> final(battle).units@ == old(battle).units@
            &&& d > 0 ==> final(battle).units@ == old(battle).units@.update(
                0,
                crate::combat::pierced(old(battle).units@[0], d),
            )
            &&& final(battle).log@.len() == old(battle).log@.len() + (if d > 0 || old(battle).turn_number
                == exhaustion_warning(old(battle).is_boss_battle) { 1int } else { 0int })
            &&& old(battle).turn_number == exhaustion_warning(old(battle).is_boss_battle) ==> final(battle).log@.last()@
                == "The reactor grows unstable..."@
            &&& d > 0 ==> final(battle).log@.last()@ == "Overload! The reactor sears for "@ + decimal(d) + " damage!"@
            &&& final(battle).log@.len() > old(battle).log@.len() ==> final(battle).log@.drop_last() == old(battle).log@
            &&& final(battle).log@.len() == old(battle).log@.len() ==> final(battle).log@ == old(battle).log@
        }),
        *final(battle) == (TacticalBattle { units: final(battle).units, log: final(battle).log, ..*old(battle) }),
{
    let threshold: u32 = if battle.is_boss_battle { 30 } else { 20 };
    let warning_turn: u32 = if battle.is_boss_battle { 25 } else { 15 };
    let turn = battle.turn_number;
    if turn == warning_turn {
        battle.log_message(String::from_str("The reactor grows unstable..."));
    } else if turn >= threshold {
        let escalation = (turn - threshold) / 3;
        let dmg: i32 = if escalation >= 2 { 3 } else { 1 + escalation as i32 };
        let hp = crate::util::sat_add(battle.units[0].hp, -dmg);
        battle.units[0].hp = hp;
        battle.log_message(with_int("Overload! The reactor sears for ", dmg as i64, " damage!"));
        if battle.units[0].hp <= 0 {
            battle.units[0].hp = 0;
            battle.units[0].alive = false;
        }
    }
}

/// Ticks the player's statuses at the end of their turn: status damage and
/// healing (capped at the maximum) land on unit 0, which dies at zero or
/// fewer hit points.
#[verifier::rlimit(40)]
pub fn tick_player_end_of_turn(battle: &mut TacticalBattle)
    requires
        old(battle).units@.len() >= 1,
    ensures
        ({
            let u = old(battle).units@[0];
            let d = crate::status::total_tick_damage(u.statuses@);
            let h = crate::status::total_tick_heal(u.statuses@);
            let hp1 = if d > 0 { crate::status::clamp32(u.hp - d) } else { u.hp as int };
            let hp2 = if h > 0 {
                let t = crate::status::clamp32(hp1 + h);
                if t < u.max_hp { t } else { u.max_hp as int }
            } else {
                hp1
            };
            let v = final(battle).units@[0];
            &&& final(battle).units@.len() == old(battle).units@.len()
            &&& forall|i: int| 1 <= i < old(battle).units@.len() ==> #[trigger] final(battle).units@[i] == old(battle).units@[i]
            &&& v.statuses@ == crate::status::after_tick(u.statuses@)
            &&& v.hp == hp2
            &&& v.alive == (u.alive && hp2 > 0)
            &&& v == (BattleUnit { statuses: v.statuses, hp: v.hp, alive: v.alive, ..u })
            &&& final(battle).log@.len() == old(battle).log@.len() + (if d > 0 { 1int } else { 0int }) + (if h > 0 { 1int } else { 0int })
        }),
        *final(battle) == (TacticalBattle { units: final(battle).units, log: final(battle).log, ..*old(battle) }),
{
    let (status_dmg, status_heal) = crate::status::tick_statuses(&mut battle.units[0].statuses);
    if status_dmg > 0 {
        battle.units[0].hp = crate::util::sat_add(battle.units[0].hp, -status_dmg);
        battle.log_message(with_int("Status damage: -", status_dmg as i64, " HP"));
    }
    if status_heal > 0 {
        let h = crate::util::sat_add(battle.units[0].hp, status_heal);
        let m = battle.units[0].max_hp;
        battle.units[0].hp = if h < m { h } else { m };
        battle.log_message(with_int("Status heal: +", status_heal as i64, " HP"));
    }
    if battle.units[0].hp <= 0 {
        battle.units[0].alive = false;
    }
}

/// Frames an enemy turn lasts on screen.
pub const ENEMY_TURN_FRAMES: u8 = 24;

/// The queue is usable: it points into the units and its position is inside it.
pub open spec fn queue_ok(b: &TacticalBattle) -> bool {
    &&& b.turn_queue_pos < b.turn_queue@.len()
    &&& forall|k: int| 0 <= k < b.turn_queue@.len() ==> (#[trigger] b.turn_queue@[k]) < b.units@.len()
}

/// Hands the turn to the next living unit in the queue: the player gets the
/// command phase with fresh move and action, an enemy gets its turn.
pub fn select_next_unit(battle: &mut TacticalBattle) -> (ev: crate::combat::BattleEvent)
    requires
        queue_ok(old(battle)),
        old(battle).turn_number < u32::MAX,
        exists|i: int| 0 <= i < old(battle).units@.len() && (#[trigger] old(battle).units@[i]).alive,
    ensures
        ev is NoEvent,
        queue_ok(final(battle)),
        ({
            let c = final(battle).turn_queue@[final(battle).turn_queue_pos as int] as int;
            &&& final(battle).units@[c].alive
            &&& final(battle).units@[c].kind is Player ==> final(battle).phase is Command && !final(battle).player_moved
                && !final(battle).player_acted
            &&& !(final(battle).units@[c].kind is Player) ==> final(battle).phase == (crate::combat::TacticalPhase::EnemyTurn {
                unit_idx: c as usize,
                timer: ENEMY_TURN_FRAMES,
                acted: false,
            })
        }),
        old(battle).units@[old(battle).turn_queue@[old(battle).turn_queue_pos as int] as int].alive
            ==> final(battle).turn_queue_pos == old(battle).turn_queue_pos && final(battle).turn_queue@ == old(battle).turn_queue@,
        final(battle).units@.len() == old(battle).units@.len(),
        forall|i: int|
            0 <= i < old(battle).units@.len() ==> #[trigger] final(battle).units@[i] == (BattleUnit {
                defending: final(battle).units@[i].defending,
                ..old(battle).units@[i]
            }),
        final(battle).arena == old(battle).arena,
{
    let current = battle.current_unit_idx();
    let ql = battle.turn_queue.len();
    if !battle.units[current].alive {
        let ghost before = *battle;
        let wrapped = crate::combat::turn::advance_turn(battle);
        proof {
            if wrapped {
                let i = choose|i: int| 0 <= i < before.units@.len() && (#[trigger] before.units@[i]).alive;
                assert(battle.turn_queue@.contains(i as usize));
                let c = battle.turn_queue@[0] as int;
                assert(before.units@[c].alive);
                assert(battle.units@[c] == crate::combat::turn::undefended(before.units@)[c]);
                assert forall|j: int| 0 <= j < battle.units@.len() implies #[trigger] battle.units@[j] == (BattleUnit {
                    defending: battle.units@[j].defending,
                    ..before.units@[j]
                }) by {
                    assert(battle.units@[j] == crate::combat::turn::undefended(before.units@)[j]);
                }
            } else {
                lemma_next_live(before.units@, before.turn_queue@, before.turn_queue_pos + 1);
            }
        }
    }
    let current = battle.current_unit_idx();
    if battle.units[current].is_player() {
        battle.player_moved = false;
        battle.player_acted = false;
        battle.phase = crate::combat::TacticalPhase::Command;
        return crate::combat::BattleEvent::NoEvent;
    }
    battle.phase = crate::combat::TacticalPhase::EnemyTurn { unit_idx: current, timer: ENEMY_TURN_FRAMES, acted: false };
    crate::combat::BattleEvent::NoEvent
}

/// The next living position found is inside the queue and holds a living unit.
proof fn lemma_next_live(units: Seq<BattleUnit>, q: Seq<usize>, p: int)
    requires
        0 <= p,
        forall|k: int| 0 <= k < q.len() ==> (#[trigger] q[k]) < units.len(),
    ensures
        ({
            let r = crate::combat::turn::next_live(units, q, p);
            &&& r >= p
            &&& r < q.len() ==> units[q[r] as int].alive
        }),
    decreases q.len() - p,
{
    if p < q.len() && !units[q[p] as int].alive {
        lemma_next_live(units, q, p + 1);
    }
}

/// Position of the first negative status, if any.
pub open spec fn first_negative(s: Seq<crate::status::StatusInstance>) -> Option<int> {
    if exists|k: int| 0 <= k < s.len() && (#[trigger] s[k]).is_negative_spec() {
        Some(choose|k: int| 0 <= k < s.len() && s[k].is_negative_spec() && forall|j: int| 0 <= j < k ==> !(#[trigger] s[j]).is_negative_spec())
    } else {
        None
    }
}

/// `i` is the first unit matching `pred` at the least distance from `(cx, cy)`.
pub open spec fn is_nearest(units: Seq<BattleUnit>, i: int, cx: int, cy: int, pred: spec_fn(BattleUnit) -> bool) -> bool {
    &&& 0 <= i < units.len()
    &&& pred(units[i])
    &&& forall|j: int|
        0 <= j < units.len() && pred(#[trigger] units[j]) ==> {
            let dj = manhattan(units[j].x as int, units[j].y as int, cx, cy);
            let di = manhattan(units[i].x as int, units[i].y as int, cx, cy);
            dj > di || (dj == di && j >= i)
        }
}

pub open spec fn taunt_target(u: BattleUnit) -> bool {
    u.alive && u.kind is Enemy
}

pub open spec fn bribe_target(u: BattleUnit) -> bool {
    u.alive && u.kind is Enemy && !u.stunned
}

/// Enemies the security chief can taunt.
pub open spec fn taunt_pred() -> spec_fn(BattleUnit) -> bool {
    |u: BattleUnit| taunt_target(u)
}

/// Enemies the quartermaster can bribe.
pub open spec fn bribe_pred() -> spec_fn(BattleUnit) -> bool {
    |u: BattleUnit| bribe_target(u)
}

/// The line logged when the security chief taunts enemy `hanzi`.
pub open spec fn taunt_text(hanzi: Seq<char>) -> Seq<char> {
    "🛡 Guard taunts "@ + hanzi + "! \"Over here!\""@
}

/// The line logged when the quartermaster bribes enemy `hanzi`.
pub open spec fn bribe_text(hanzi: Seq<char>) -> Seq<char> {
    "💰 Merchant bribes "@ + hanzi + "! Enemy skips their turn!"@
}

/// The fixed roll that decides a bribe of unit `e` in round `turn`.
pub open spec fn bribe_roll(turn: u32, e: int) -> int {
    ((turn as int) * 37 + e * 13) % 100
}

/// What the security chief at index `c` does: with the player alive under
/// 30% health and an enemy alive, the enemy nearest to the chief turns to
/// face it (unless they share a tile) and the taunt is logged; otherwise
/// nothing happens.
#[verifier::opaque]
pub open spec fn taunt_outcome(units: Seq<BattleUnit>, c: int, new: Seq<BattleUnit>, texts: Seq<Seq<char>>) -> bool {
    let u0 = units[0];
    let cx = units[c].x as int;
    let cy = units[c].y as int;
    if u0.alive && (u0.hp as int) * 10 < (u0.max_hp as int) * 3 && exists|e: int| #[trigger] is_nearest(units, e, cx, cy, taunt_pred()) {
        forall|e: int|
            #[trigger] is_nearest(units, e, cx, cy, taunt_pred()) ==> {
                &&& new == match crate::combat::Direction::from_delta_spec(cx - units[e].x, cy - units[e].y) {
                    Some(d) => units.update(e, BattleUnit { facing: d, ..units[e] }),
                    None => units,
                }
                &&& texts == seq![taunt_text(units[e].hanzi@)]
            }
    } else {
        new == units && texts.len() == 0
    }
}

/// What the quartermaster does in round `turn`: with the player alive under
/// 40% health and an unstunned enemy alive, the one nearest to the player is
/// stunned when its roll is under 50, and the bribe or its failure is logged;
/// otherwise nothing happens.
#[verifier::opaque]
pub open spec fn bribe_outcome(units: Seq<BattleUnit>, turn: u32, new: Seq<BattleUnit>, texts: Seq<Seq<char>>) -> bool {
    let u0 = units[0];
    let px = u0.x as int;
    let py = u0.y as int;
    if u0.alive && (u0.hp as int) * 10 < (u0.max_hp as int) * 4 && exists|e: int| #[trigger] is_nearest(units, e, px, py, bribe_pred()) {
        forall|e: int|
            #[trigger] is_nearest(units, e, px, py, bribe_pred()) ==> if bribe_roll(turn, e) < 50 {
                &&& new == units.update(e, BattleUnit { stunned: true, ..units[e] })
                &&& texts == seq![bribe_text(units[e].hanzi@)]
            } else {
                &&& new == units
                &&& texts == seq!["💰 Merchant's bribe attempt fails!"@]
            }
    } else {
        new == units && texts.len() == 0
    }
}

/// The first living companion, if any.
pub open spec fn living_companion(units: Seq<BattleUnit>) -> Option<int> {
    if exists|k: int| 0 <= k < units.len() && (#[trigger] units[k]).kind is Companion && units[k].alive {
        Some(choose|k: int|
            0 <= k < units.len() && units[k].kind is Companion && units[k].alive && forall|j: int|
                0 <= j < k ==> !((#[trigger] units[j]).kind is Companion && units[j].alive))
    } else {
        None
    }
}

/// The first living companion is the one that no earlier living companion precedes.
proof fn lemma_first_living_companion(units: Seq<BattleUnit>, c: int)
    requires
        0 <= c < units.len(),
        units[c].kind is Companion && units[c].alive,
        forall|j: int| 0 <= j < c ==> !((#[trigger] units[j]).kind is Companion && units[j].alive),
    ensures
        living_companion(units) == Some(c),
{
    assert(units[c].kind is Companion && units[c].alive);
    let k = choose|k: int|
        0 <= k < units.len() && units[k].kind is Companion && units[k].alive && forall|j: int|
            0 <= j < k ==> !((#[trigger] units[j]).kind is Companion && units[j].alive);
    assert(0 <= k < units.len() && units[k].kind is Companion && units[k].alive);
    if k < c {
        assert(!(units[k].kind is Companion && units[k].alive));
    } else if k > c {
        assert(!(units[c].kind is Companion && units[c].alive));
    }
}

/// The unit nearest to `(cx, cy)` among those matching `pred`, first on ties.
fn nearest_unit(units: &Vec<BattleUnit>, cx: i32, cy: i32, need_unstunned: bool) -> (r: Option<usize>)
    requires
        forall|i: int| 0 <= i < units@.len() ==> -ARENA_MAX <= (#[trigger] units@[i]).x <= ARENA_MAX && -ARENA_MAX
            <= units@[i].y <= ARENA_MAX,
        -ARENA_MAX <= cx <= ARENA_MAX,
        -ARENA_MAX <= cy <= ARENA_MAX,
    ensures
        ({
            let pred = if need_unstunned { bribe_pred() } else { taunt_pred() };
            &&& r matches Some(i) ==> is_nearest(units@, i as int, cx as int, cy as int, pred) && i < units@.len()
            &&& r is None ==> forall|j: int| 0 <= j < units@.len() ==> !pred(#[trigger] units@[j])
        }),
{
    let ghost pred = if need_unstunned { bribe_pred() } else { taunt_pred() };
    let mut best: Option<usize> = None;
    let mut best_dist: i32 = i32::MAX;
    let mut i: usize = 0;
    while i < units.len()
        invariant
            i <= units@.len(),
            forall|k: int| 0 <= k < units@.len() ==> -ARENA_MAX <= (#[trigger] units@[k]).x <= ARENA_MAX && -ARENA_MAX
                <= units@[k].y <= ARENA_MAX,
            -ARENA_MAX <= cx <= ARENA_MAX,
            -ARENA_MAX <= cy <= ARENA_MAX,
            pred == (if need_unstunned { bribe_pred() } else { taunt_pred() }),
            best is None ==> forall|j: int| 0 <= j < i ==> !pred(#[trigger] units@[j]),
            best matches Some(b) ==> {
                &&& b < i
                &&& pred(units@[b as int])
                &&& best_dist == manhattan(units@[b as int].x as int, units@[b as int].y as int, cx as int, cy as int)
                &&& forall|j: int|
                    0 <= j < i && pred(#[trigger] units@[j]) ==> {
                        let dj = manhattan(units@[j].x as int, units@[j].y as int, cx as int, cy as int);
                        dj > best_dist || (dj == best_dist && j >= b)
                    }
            },
        decreases units@.len() - i,
    {
        let u = &units[i];
        let ok = u.alive && u.is_enemy() && (!need_unstunned || !u.stunned);
        if ok {
            let d = abs_i32(u.x - cx) + abs_i32(u.y - cy);
            if best.is_none() || d < best_dist {
                best_dist = d;
                best = Some(i);
            }
        }
        i += 1;
    }
    best
}

/// Position of the first negative status.
fn first_negative_index(statuses: &Vec<crate::status::StatusInstance>) -> (r: Option<usize>)
    ensures
        r matches Some(k) ==> first_negative(statuses@) == Some(k as int) && k < statuses@.len(),
        r is None ==> first_negative(statuses@) is None,
{
    let mut k: usize = 0;
    while k < statuses.len()
        invariant
            k <= statuses@.len(),
            forall|j: int| 0 <= j < k ==> !(#[trigger] statuses@[j]).is_negative_spec(),
        decreases statuses@.len() - k,
    {
        if statuses[k].is_negative() {
            proof {
                let s0 = statuses@;
                assert(exists|q: int| 0 <= q < s0.len() && (#[trigger] s0[q]).is_negative_spec());
                let c = choose|q: int| 0 <= q < s0.len() && s0[q].is_negative_spec() && forall|j: int| 0 <= j < q ==> !(#[trigger] s0[j]).is_negative_spec();
                assert(s0[k as int].is_negative_spec() && forall|j: int| 0 <= j < k ==> !(#[trigger] s0[j]).is_negative_spec());
                if c < k {
                } else if c > k {
                    assert(!s0[k as int].is_negative_spec());
                }
            }
            return Some(k);
        }
        k += 1;
    }
    None
}

/// The text of each message.
pub open spec fn message_texts(v: Seq<String>) -> Seq<Seq<char>> {
    Seq::new(v.len(), |k: int| v[k]@)
}

/// The medic's messages for a player `u0`: the healing aura when the player
/// is alive and hurt, then the purified status when the player is (after
/// healing) under half health and has a negative status.
pub open spec fn medic_messages(u0: BattleUnit) -> Seq<Seq<char>> {
    let h = if u0.alive && u0.hp < u0.max_hp { crate::combat::healed(u0, 1) } else { u0 };
    let purify = h.alive && (h.hp as int) * 2 < h.max_hp && first_negative(u0.statuses@) is Some;
    (if u0.alive && u0.hp < u0.max_hp { seq!["💊 Medic's healing aura restores 1 HP!"@] } else { Seq::empty() })
        + (if purify {
        seq![
            "💊✨ Medic purifies "@ + u0.statuses@[first_negative(u0.statuses@).unwrap() as int].label_spec()@
                + "! Status removed!"@,
        ]
    } else {
        Seq::empty()
    })
}

/// The medic heals the player 1 HP, and purifies one negative status when
/// the player is under half health.
fn medic_passive(battle: &mut TacticalBattle, messages: &mut Vec<String>)
    requires
        old(battle).wf(),
    ensures
        final(battle).wf(),
        message_texts(final(messages)@) == message_texts(old(messages)@) + medic_messages(old(battle).units@[0]),
        ({
            let u0 = old(battle).units@[0];
            let h = if u0.alive && u0.hp < u0.max_hp { crate::combat::healed(u0, 1) } else { u0 };
            let purify = h.alive && (h.hp as int) * 2 < h.max_hp && first_negative(u0.statuses@) is Some;
            &&& final(battle).units@ == old(battle).units@.update(
                0,
                if purify {
                    BattleUnit { statuses: final(battle).units@[0].statuses, ..h }
                } else {
                    h
                },
            )
            &&& purify ==> final(battle).units@[0].statuses@ == u0.statuses@.remove(first_negative(u0.statuses@).unwrap())
        }),
        *final(battle) == (TacticalBattle {
            units: final(battle).units,
            audio_events: final(battle).audio_events,
            ..*old(battle)
        }),
{
    let ghost u0 = battle.units@[0];
    let ghost m0 = message_texts(messages@);
    if battle.units[0].alive && battle.units[0].hp < battle.units[0].max_hp {
        crate::combat::heal_unit(battle, 0, 1);
        let ghost mb = messages@;
        messages.push(String::from_str("💊 Medic's healing aura restores 1 HP!"));
        proof {
            reveal_strlit("💊 Medic's healing aura restores 1 HP!");
            assert(message_texts(messages@) =~= message_texts(mb).push("💊 Medic's healing aura restores 1 HP!"@));
        }
        battle.audio_events.push(AudioEvent::Heal);
    }
    let ghost m1 = message_texts(messages@);
    assert(m1 =~= m0 + (if u0.alive && u0.hp < u0.max_hp { seq!["💊 Medic's healing aura restores 1 HP!"@] } else { Seq::empty() }));
    let hp = battle.units[0].hp as i64;
    if battle.units[0].alive && hp * 2 < battle.units[0].max_hp as i64 {
        if let Some(f) = first_negative_index(&battle.units[0].statuses) {
            let label = battle.units[0].statuses[f].label();
            let ghost before = battle.units@;
            battle.units[0].statuses.remove(f);
            proof {
                assert(battle.arena.in_bounds_spec(before[0].x as int, before[0].y as int));
            }
            let mut m = String::from_str("💊✨ Medic purifies ");
            m.append(label);
            m.append("! Status removed!");
            let ghost mb = messages@;
            messages.push(m);
            proof {
                assert(message_texts(messages@) =~= message_texts(mb).push(m@));
            }
        }
    }
    assert(message_texts(messages@) =~= message_texts(old(messages)@) + medic_messages(u0));
}

/// The security chief, with the player under 30% health, turns the enemy
/// nearest to it to face it.
fn security_taunt(battle: &mut TacticalBattle, companion_idx: usize, messages: &mut Vec<String>)
    requires
        old(battle).wf(),
        companion_idx < old(battle).units@.len(),
        forall|k: int| 0 <= k < old(battle).units@.len() ==> -ARENA_MAX <= (#[trigger] old(battle).units@[k]).x <= ARENA_MAX && -ARENA_MAX
            <= old(battle).units@[k].y <= ARENA_MAX,
    ensures
        final(battle).wf(),
        final(battle).units@.len() == old(battle).units@.len(),
        forall|i: int|
            0 <= i < old(battle).units@.len() ==> #[trigger] final(battle).units@[i] == (BattleUnit {
                facing: final(battle).units@[i].facing,
                stunned: final(battle).units@[i].stunned,
                ..old(battle).units@[i]
            }),
        *final(battle) == (TacticalBattle { units: final(battle).units, ..*old(battle) }),
        taunt_outcome(
            old(battle).units@,
            companion_idx as int,
            final(battle).units@,
            message_texts(final(messages)@).skip(old(messages)@.len() as int),
        ),
        message_texts(final(messages)@).take(old(messages)@.len() as int) == message_texts(old(messages)@),
{
    proof {
        reveal(taunt_outcome);
    }
    let ghost m0 = messages@;
    let hp = battle.units[0].hp as i64;
    let max = battle.units[0].max_hp as i64;
    if battle.units[0].alive && hp * 10 < max * 3 {
        let cx = battle.units[companion_idx].x;
        let cy = battle.units[companion_idx].y;
        if let Some(eidx) = nearest_unit(&battle.units, cx, cy, false) {
            let gdx = cx - battle.units[eidx].x;
            let gdy = cy - battle.units[eidx].y;
            if let Some(dir) = crate::combat::Direction::from_delta(gdx, gdy) {
                let ghost before = battle.units@;
                battle.units[eidx].facing = dir;
                proof {
                    assert forall|j: int| 0 <= j < battle.units@.len() implies battle.arena.in_bounds_spec(
                        #[trigger] battle.units@[j].x as int,
                        battle.units@[j].y as int,
                    ) by {
                        assert(battle.arena.in_bounds_spec(before[j].x as int, before[j].y as int));
                    }
                }
            }
            let mut m = String::from_str("🛡 Guard taunts ");
            m.append(battle.units[eidx].hanzi);
            m.append("! \"Over here!\"");
            messages.push(m);
            proof {
                assert(message_texts(messages@).skip(m0.len() as int) =~= seq![m@]);
                assert(message_texts(messages@).take(m0.len() as int) =~= message_texts(m0));
                assert forall|e: int| #[trigger] is_nearest(old(battle).units@, e, cx as int, cy as int, taunt_pred())
                    implies e == eidx as int by {
                    assert(is_nearest(old(battle).units@, eidx as int, cx as int, cy as int, taunt_pred()));
                }
            }
        } else {
            proof {
                assert(message_texts(messages@).skip(m0.len() as int) =~= Seq::<Seq<char>>::empty());
                assert(message_texts(messages@).take(m0.len() as int) =~= message_texts(m0));
            }
        }
    } else {
        proof {
            assert(message_texts(messages@).skip(m0.len() as int) =~= Seq::<Seq<char>>::empty());
            assert(message_texts(messages@).take(m0.len() as int) =~= message_texts(m0));
        }
    }
}

/// The quartermaster, with the player under 40% health, may bribe the
/// nearest unstunned enemy into skipping its turn.
fn quartermaster_bribe(battle: &mut TacticalBattle, messages: &mut Vec<String>)
    requires
        old(battle).wf(),
        forall|k: int| 0 <= k < old(battle).units@.len() ==> -ARENA_MAX <= (#[trigger] old(battle).units@[k]).x <= ARENA_MAX && -ARENA_MAX
            <= old(battle).units@[k].y <= ARENA_MAX,
    ensures
        final(battle).wf(),
        final(battle).units@.len() == old(battle).units@.len(),
        forall|i: int|
            0 <= i < old(battle).units@.len() ==> #[trigger] final(battle).units@[i] == (BattleUnit {
                facing: final(battle).units@[i].facing,
                stunned: final(battle).units@[i].stunned,
                ..old(battle).units@[i]
            }),
        *final(battle) == (TacticalBattle { units: final(battle).units, ..*old(battle) }),
        bribe_outcome(
            old(battle).units@,
            old(battle).turn_number,
            final(battle).units@,
            message_texts(final(messages)@).skip(old(messages)@.len() as int),
        ),
        message_texts(final(messages)@).take(old(messages)@.len() as int) == message_texts(old(messages)@),
{
    proof {
        reveal(bribe_outcome);
    }
    let ghost m0 = messages@;
    let hp = battle.units[0].hp as i64;
    let max = battle.units[0].max_hp as i64;
    if battle.units[0].alive && hp * 10 < max * 4 {
        let px = battle.units[0].x;
        let py = battle.units[0].y;
        if let Some(eidx) = nearest_unit(&battle.units, px, py, true) {
            let roll = (battle.turn_number as u64 * 37 + eidx as u64 * 13) % 100;
            if roll < 50 {
                let ghost before = battle.units@;
                battle.units[eidx].stunned = true;
                proof {
                    assert forall|j: int| 0 <= j < battle.units@.len() implies battle.arena.in_bounds_spec(
                        #[trigger] battle.units@[j].x as int,
                        battle.units@[j].y as int,
                    ) by {
                        assert(battle.arena.in_bounds_spec(before[j].x as int, before[j].y as int));
                    }
                }
                let mut m = String::from_str("💰 Merchant bribes ");
                m.append(battle.units[eidx].hanzi);
                m.append("! Enemy skips their turn!");
                messages.push(m);
                proof {
                    assert(message_texts(messages@).skip(m0.len() as int) =~= seq![m@]);
                }
            } else {
                messages.push(String::from_str("💰 Merchant's bribe attempt fails!"));
                proof {
                    assert(message_texts(messages@).skip(m0.len() as int) =~= seq!["💰 Merchant's bribe attempt fails!"@]);
                }
            }
            proof {
                assert(roll == bribe_roll(old(battle).turn_number, eidx as int));
                assert(message_texts(messages@).take(m0.len() as int) =~= message_texts(m0));
                assert forall|e: int| #[trigger] is_nearest(old(battle).units@, e, px as int, py as int, bribe_pred())
                    implies e == eidx as int by {
                    assert(is_nearest(old(battle).units@, eidx as int, px as int, py as int, bribe_pred()));
                }
            }
        } else {
            proof {
                assert(message_texts(messages@).skip(m0.len() as int) =~= Seq::<Seq<char>>::empty());
                assert(message_texts(messages@).take(m0.len() as int) =~= message_texts(m0));
            }
        }
    } else {
        proof {
            assert(message_texts(messages@).skip(m0.len() as int) =~= Seq::<Seq<char>>::empty());
            assert(message_texts(messages@).take(m0.len() as int) =~= message_texts(m0));
        }
    }
}

/// Companion abilities at the start of a round. The medic heals the player
/// 1 HP and, below half health, purifies the first negative status; the
/// security chief, with the player under 30% health, makes the enemy nearest
/// to it face it; the quartermaster, with the player under 40% health, may
/// bribe the nearest unstunned enemy into skipping its turn (a fixed roll of
/// `(37 * round + 13 * index) mod 100` under 50); the science officer only
/// announces its bonus in the first two rounds.
#[verifier::rlimit(80)]
#[verifier::spinoff_prover]
pub fn apply_companion_passives(battle: &mut TacticalBattle) -> (msgs: Vec<String>)
    requires
        old(battle).wf(),
    ensures
        final(battle).wf(),
        final(battle).units@.len() == old(battle).units@.len(),
        *final(battle) == (TacticalBattle {
            units: final(battle).units,
            audio_events: final(battle).audio_events,
            ..*old(battle)
        }),
        (old(battle).companion_kind is None || living_companion(old(battle).units@) is None) ==> final(battle).units@
            == old(battle).units@ && msgs@.len() == 0,
        ({
            let u0 = old(battle).units@[0];
            let h = if u0.alive && u0.hp < u0.max_hp { crate::combat::healed(u0, 1) } else { u0 };
            let purify = h.alive && (h.hp as int) * 2 < h.max_hp && first_negative(u0.statuses@) is Some;
            old(battle).companion_kind == Some(crate::player::Companion::Medic) && living_companion(old(battle).units@) is Some
                ==> {
                &&& final(battle).units@ == old(battle).units@.update(
                    0,
                    if purify {
                        BattleUnit { statuses: final(battle).units@[0].statuses, ..h }
                    } else {
                        h
                    },
                )
                &&& purify ==> final(battle).units@[0].statuses@ == u0.statuses@.remove(first_negative(u0.statuses@).unwrap())
                &&& message_texts(msgs@) == medic_messages(u0)
            }
        }),
        old(battle).companion_kind == Some(crate::player::Companion::ScienceOfficer) ==> final(battle).units@ == old(
            battle,
        ).units@,
        old(battle).companion_kind == Some(crate::player::Companion::SecurityChief) ==> (living_companion(
            old(battle).units@,
        ) matches Some(c) ==> taunt_outcome(old(battle).units@, c, final(battle).units@, message_texts(msgs@))),
        old(battle).companion_kind == Some(crate::player::Companion::Quartermaster) && living_companion(old(battle).units@)
            is Some ==> bribe_outcome(old(battle).units@, old(battle).turn_number, final(battle).units@, message_texts(msgs@)),
        forall|i: int| 0 <= i < old(battle).units@.len() ==> (#[trigger] final(battle).units@[i]).x == old(battle).units@[i].x
            && final(battle).units@[i].y == old(battle).units@[i].y,
{
    let ghost start = *battle;
    let mut messages: Vec<String> = Vec::new();
    let companion_kind = match battle.companion_kind {
        Some(c) => c,
        None => return messages,
    };
    let mut companion_idx: Option<usize> = None;
    let mut i: usize = 0;
    while i < battle.units.len() && companion_idx.is_none()
        invariant
            i <= battle.units@.len(),
            companion_idx is None ==> forall|j: int| 0 <= j < i ==> !((#[trigger] battle.units@[j]).kind is Companion && battle.units@[j].alive),
            companion_idx matches Some(c) ==> c < battle.units@.len() && battle.units@[c as int].kind is Companion && battle.units@[c as int].alive
                && forall|j: int| 0 <= j < c ==> !((#[trigger] battle.units@[j]).kind is Companion && battle.units@[j].alive),
        decreases battle.units@.len() - i,
    {
        if battle.units[i].is_companion() && battle.units[i].alive {
            companion_idx = Some(i);
        }
        i += 1;
    }
    let companion_idx = match companion_idx {
        Some(c) => c,
        None => return messages,
    };
    proof {
        assert(living_companion(start.units@) is Some);
        assert forall|k: int| 0 <= k < battle.units@.len() implies -ARENA_MAX <= (#[trigger] battle.units@[k]).x <= ARENA_MAX && -ARENA_MAX
            <= battle.units@[k].y <= ARENA_MAX by {
            assert(battle.arena.in_bounds_spec(battle.units@[k].x as int, battle.units@[k].y as int));
        }
    }
    match companion_kind {
        crate::player::Companion::Medic => {
            assert(message_texts(messages@) =~= Seq::<Seq<char>>::empty());
            medic_passive(battle, &mut messages);
            assert(message_texts(messages@) =~= medic_messages(start.units@[0]));
        },
        crate::player::Companion::SecurityChief => {
            security_taunt(battle, companion_idx, &mut messages);
            proof {
                assert(message_texts(messages@).skip(0) =~= message_texts(messages@));
                lemma_first_living_companion(start.units@, companion_idx as int);
            }
        },
        crate::player::Companion::ScienceOfficer => {
            if battle.turn_number <= 2 {
                messages.push(String::from_str("📚 Teacher's guidance boosts combo buildup!"));
            }
        },
        crate::player::Companion::Quartermaster => {
            quartermaster_bribe(battle, &mut messages);
            proof {
                assert(message_texts(messages@).skip(0) =~= message_texts(messages@));
            }
        },
    }
    messages
}

/// Everything but the units, the audio queue and the log is as in `old`,
/// and the battle stays well formed with the same number of units.
pub open spec fn unit_frame(new: &TacticalBattle, old: &TacticalBattle) -> bool {
    &&& new.wf()
    &&& new.units@.len() == old.units@.len()
    &&& *new == (TacticalBattle { units: new.units, audio_events: new.audio_events, log: new.log, ..*old })
}

/// The step that knocks a unit at `(ux, uy)` away from `(fx, fy)`: along the
/// longer axis (x on a tie), none when both points coincide.
pub open spec fn knock_step(ux: int, uy: int, fx: int, fy: int) -> (int, int) {
    let dx = ux - fx;
    let dy = uy - fy;
    let ax = if dx < 0 { -dx } else { dx };
    let ay = if dy < 0 { -dy } else { dy };
    if dx == 0 && dy == 0 {
        (0, 0)
    } else if ax >= ay {
        (if dx > 0 { 1 } else { -1 }, 0)
    } else {
        (0, if dy > 0 { 1 } else { -1 })
    }
}

/// A knock-back pushes a unit one tile straight away from the source of the
/// blow, along the axis on which it stands farther from the source (the x
/// axis on a tie): afterwards it stands one tile farther from the source. A
/// unit on the source itself is not moved.
pub proof fn lemma_knock_step_pushes_away(ux: int, uy: int, fx: int, fy: int)
    ensures
        ({
            let st = knock_step(ux, uy, fx, fy);
            &&& (ux == fx && uy == fy) ==> st == (0int, 0int)
            &&& !(ux == fx && uy == fy) ==> {
                &&& manhattan(ux + st.0, uy + st.1, ux, uy) == 1
                &&& manhattan(ux + st.0, uy + st.1, fx, fy) == manhattan(ux, uy, fx, fy) + 1
                &&& if manhattan(ux, fy, fx, fy) >= manhattan(fx, uy, fx, fy) { st.1 == 0 } else { st.0 == 0 }
            }
        }),
{
}

fn knock_step_exec(ux: i32, uy: i32, fx: i32, fy: i32) -> (r: (i32, i32))
    requires
        -ARENA_MAX <= fx <= ARENA_MAX,
        -ARENA_MAX <= fy <= ARENA_MAX,
        -ARENA_MAX <= ux <= ARENA_MAX,
        -ARENA_MAX <= uy <= ARENA_MAX,
    ensures
        r.0 == knock_step(ux as int, uy as int, fx as int, fy as int).0,
        r.1 == knock_step(ux as int, uy as int, fx as int, fy as int).1,
{
    let dx = ux - fx;
    let dy = uy - fy;
    let ax = abs_i32(dx);
    let ay = abs_i32(dy);
    if dx == 0 && dy == 0 {
        (0, 0)
    } else if ax >= ay {
        (sign(dx), 0)
    } else {
        (0, sign(dy))
    }
}

/// Knocks unit `idx` one tile away from `(fx, fy)` when that tile is inside
/// the arena, walkable and free; returns whether it moved.
#[verifier::rlimit(40)]
pub fn apply_knockback(battle: &mut TacticalBattle, idx: usize, fx: i32, fy: i32) -> (moved: bool)
    requires
        old(battle).wf(),
        idx < old(battle).units@.len(),
        -ARENA_MAX <= fx <= ARENA_MAX,
        -ARENA_MAX <= fy <= ARENA_MAX,
    ensures
        unit_frame(final(battle), old(battle)),
        final(battle).log@ == old(battle).log@,
        final(battle).audio_events@ == old(battle).audio_events@,
        ({
            let u = old(battle).units@[idx as int];
            let st = knock_step(u.x as int, u.y as int, fx as int, fy as int);
            let nx = u.x + st.0;
            let ny = u.y + st.1;
            &&& moved == (st != (0int, 0int) && walkable_at(&old(battle).arena, nx, ny) && unit_at_spec(old(battle).units@, nx, ny) is None)
            &&& moved ==> final(battle).units@ == old(battle).units@.update(idx as int, moved_to(u, nx, ny))
            &&& !moved ==> final(battle).units@ == old(battle).units@
        }),
{
    let ux = battle.units[idx].x;
    let uy = battle.units[idx].y;
    proof {
        assert(battle.arena.in_bounds_spec(battle.units@[idx as int].x as int, battle.units@[idx as int].y as int));
    }
    let (sx, sy) = knock_step_exec(ux, uy, fx, fy);
    if sx == 0 && sy == 0 {
        return false;
    }
    let nx = ux + sx;
    let ny = uy + sy;
    let walkable = match battle.arena.tile(nx, ny) {
        Some(t) => t.is_walkable(),
        None => false,
    };
    if !walkable || battle.unit_at(nx, ny).is_some() {
        return false;
    }
    let ghost before = battle.units@;
    battle.units[idx].x = nx;
    battle.units[idx].y = ny;
    proof {
        assert(battle.units@ == before.update(idx as int, moved_to(before[idx as int], nx as int, ny as int)));
        assert forall|j: int| 0 <= j < battle.units@.len() implies battle.arena.in_bounds_spec(
            #[trigger] battle.units@[j].x as int,
            battle.units@[j].y as int,
        ) by {
            if j != idx {
                assert(battle.units@[j] == before[j]);
            }
        }
    }
    true
}

/// Damage a spell deals after the stance bonus, at least 1.
pub open spec fn spell_damage(dmg: i32, sp: i32) -> int {
    let d = crate::status::clamp32(dmg + sp);
    if d < 1 { 1 } else { d }
}

/// The enemy standing at `(tx, ty)`, if a living unit there is an enemy.
pub open spec fn enemy_at(units: Seq<BattleUnit>, tx: int, ty: int) -> Option<usize> {
    match unit_at_spec(units, tx, ty) {
        Some(i) => if units[i as int].kind is Enemy { Some(i) } else { None },
        None => None,
    }
}

/// A spell landing on `(tx, ty)` acts on the enemy standing there, if any:
/// strong hits and pierces deal their damage plus the stance's spell power
/// (at least 1); a drain does the same and heals the player (unit 0) by the
/// damage dealt; a stun stuns; poison and slow add their status; a
/// knock-back deals damage and then pushes the enemy away from the player
/// up to two tiles. Other spells do nothing here.
#[verifier::rlimit(80)]
pub fn apply_projectile_spell(battle: &mut TacticalBattle, tx: i32, ty: i32, effect: &crate::combat::SpellEffect)
    requires
        old(battle).wf(),
    ensures
        unit_frame(final(battle), old(battle)),
        enemy_at(old(battle).units@, tx as int, ty as int) is None ==> *final(battle) == *old(battle),
        ({
            let units = old(battle).units@;
            let sp = old(battle).player_stance.spell_power_mod_spec();
            match enemy_at(units, tx as int, ty as int) {
                None => final(battle).units@ == units,
                Some(i) => {
                    let u = units[i as int];
                    match *effect {
                        crate::combat::SpellEffect::StrongHit(d) => final(battle).units@ == units.update(i as int, damaged(u, spell_damage(d, sp))),
                        crate::combat::SpellEffect::Pierce(d) => final(battle).units@ == units.update(i as int, damaged(u, spell_damage(d, sp))),
                        crate::combat::SpellEffect::Drain(d) => {
                            let after = units.update(i as int, damaged(u, spell_damage(d, sp)));
                            final(battle).units@ == after.update(0, crate::combat::healed(after[0], damage_taken(u, spell_damage(d, sp))))
                        },
                        crate::combat::SpellEffect::Stun => final(battle).units@ == units.update(i as int, BattleUnit { stunned: true, ..u }),
                        crate::combat::SpellEffect::Poison(d, t) => {
                            &&& final(battle).units@[i as int].statuses@ == u.statuses@.push(
                                crate::status::StatusInstance { kind: crate::status::StatusKind::Poison { damage: d }, turns_left: t, fresh: true },
                            )
                            &&& final(battle).units@ == units.update(i as int, BattleUnit { statuses: final(battle).units@[i as int].statuses, ..u })
                        },
                        crate::combat::SpellEffect::Slow(t) => {
                            &&& final(battle).units@[i as int].statuses@ == u.statuses@.push(
                                crate::status::StatusInstance { kind: crate::status::StatusKind::Slow, turns_left: t, fresh: true },
                            )
                            &&& final(battle).units@ == units.update(i as int, BattleUnit { statuses: final(battle).units@[i as int].statuses, ..u })
                        },
                        crate::combat::SpellEffect::KnockBack(d) => {
                            let v = final(battle).units@[i as int];
                            &&& v == (BattleUnit { x: v.x, y: v.y, ..damaged(u, spell_damage(d, sp)) })
                            &&& forall|j: int| 0 <= j < units.len() && j != i ==> #[trigger] final(battle).units@[j] == units[j]
                            &&& final(battle).units@ == knocked_back(&old(battle).arena, units, i as int, spell_damage(d, sp))
                        },
                        _ => final(battle).units@ == units,
                    }
                },
            }
        }),
{
    let sp = battle.player_stance.spell_power_mod();
    let target = battle.unit_at(tx, ty);
    let idx = match target {
        Some(i) => i,
        None => return,
    };
    if !battle.units[idx].is_enemy() {
        return;
    }
    let ghost start = *battle;
    proof {
        assert forall|k: int| 0 <= k < battle.units@.len() implies -ARENA_MAX <= (#[trigger] battle.units@[k]).x <= ARENA_MAX && -ARENA_MAX
            <= battle.units@[k].y <= ARENA_MAX by {
            assert(battle.arena.in_bounds_spec(battle.units@[k].x as int, battle.units@[k].y as int));
        }
    }
    let dmg = match *effect {
        crate::combat::SpellEffect::StrongHit(d) => d,
        crate::combat::SpellEffect::Pierce(d) => d,
        crate::combat::SpellEffect::Drain(d) => d,
        crate::combat::SpellEffect::KnockBack(d) => d,
        _ => 0,
    };
    let v = crate::util::sat_add(dmg, sp);
    let dealt: i32 = if v < 1 { 1 } else { v };
    match *effect {
        crate::combat::SpellEffect::StrongHit(_) | crate::combat::SpellEffect::Pierce(_) => {
            spell_hit(battle, idx, dealt);
        },
        crate::combat::SpellEffect::Drain(_) => {
            spell_drain(battle, idx, dealt);
        },
        crate::combat::SpellEffect::Stun => {
            spell_stun(battle, idx);
        },
        crate::combat::SpellEffect::Poison(d, turns) => {
            spell_status(battle, idx, crate::status::StatusInstance::new(crate::status::StatusKind::Poison { damage: d }, turns));
            battle.audio_events.push(AudioEvent::StatusPoison);
        },
        crate::combat::SpellEffect::Slow(turns) => {
            spell_status(battle, idx, crate::status::StatusInstance::new(crate::status::StatusKind::Slow, turns));
            battle.audio_events.push(AudioEvent::StatusSlow);
        },
        crate::combat::SpellEffect::KnockBack(_) => {
            spell_knockback(battle, idx, dealt);
        },
        _ => {},
    }
}

/// Unit `i` of `units` after one knock-back from `(fx, fy)` in arena `a`: a
/// living unit steps one tile away from the source when that tile is inside
/// the arena, walkable and free; otherwise nothing moves.
pub open spec fn knock_once(a: &TacticalArena, units: Seq<BattleUnit>, i: int, fx: int, fy: int) -> Seq<BattleUnit> {
    let u = units[i];
    let st = knock_step(u.x as int, u.y as int, fx, fy);
    let nx = u.x + st.0;
    let ny = u.y + st.1;
    if u.alive && st != (0int, 0int) && walkable_at(a, nx, ny) && unit_at_spec(units, nx, ny) is None {
        units.update(i, moved_to(u, nx, ny))
    } else {
        units
    }
}

/// The units after a knock-back spell of damage `dmg` on unit `i`: the unit
/// takes the damage, then is knocked back twice from the player's tile.
pub open spec fn knocked_back(a: &TacticalArena, units: Seq<BattleUnit>, i: int, dmg: int) -> Seq<BattleUnit> {
    let px = units[0].x as int;
    let py = units[0].y as int;
    let hit = units.update(i, damaged(units[i], dmg));
    knock_once(a, knock_once(a, hit, i, px, py), i, px, py)
}

/// Damages unit `idx`.
fn spell_hit(battle: &mut TacticalBattle, idx: usize, dmg: i32)
    requires
        old(battle).wf(),
        idx < old(battle).units@.len(),
    ensures
        unit_frame(final(battle), old(battle)),
        final(battle).log@ == old(battle).log@,
        final(battle).audio_events@ == old(battle).audio_events@,
        final(battle).units@ == old(battle).units@.update(idx as int, damaged(old(battle).units@[idx as int], dmg as int)),
{
    let ghost start = *battle;
    let _ = deal_damage(battle, idx, dmg);
    proof {
        keep_bounds(&start, battle, idx as int);
    }
}

/// Stuns unit `idx`.
fn spell_stun(battle: &mut TacticalBattle, idx: usize)
    requires
        old(battle).wf(),
        idx < old(battle).units@.len(),
    ensures
        unit_frame(final(battle), old(battle)),
        final(battle).log@ == old(battle).log@,
        final(battle).audio_events@ == old(battle).audio_events@,
        final(battle).units@ == old(battle).units@.update(idx as int, BattleUnit { stunned: true, ..old(battle).units@[idx as int] }),
{
    let ghost start = *battle;
    battle.units[idx].stunned = true;
    proof {
        keep_bounds(&start, battle, idx as int);
    }
}

/// Damages unit `idx` and heals the player (unit 0) by the damage dealt.
fn spell_drain(battle: &mut TacticalBattle, idx: usize, dmg: i32)
    requires
        old(battle).wf(),
        idx < old(battle).units@.len(),
    ensures
        unit_frame(final(battle), old(battle)),
        final(battle).log@ == old(battle).log@,
        final(battle).audio_events@ == old(battle).audio_events@,
        ({
            let units = old(battle).units@;
            let after = units.update(idx as int, damaged(units[idx as int], dmg as int));
            final(battle).units@ == after.update(0, crate::combat::healed(after[0], damage_taken(units[idx as int], dmg as int)))
        }),
{
    let ghost start = *battle;
    let actual = deal_damage(battle, idx, dmg);
    crate::combat::heal_unit(battle, 0, actual);
    proof {
        assert forall|j: int| 0 <= j < battle.units@.len() implies battle.arena.in_bounds_spec(
            #[trigger] battle.units@[j].x as int,
            battle.units@[j].y as int,
        ) by {
            assert(start.arena.in_bounds_spec(start.units@[j].x as int, start.units@[j].y as int));
        }
    }
}

/// Adds a status to unit `idx`.
pub(crate) fn spell_status(battle: &mut TacticalBattle, idx: usize, st: crate::status::StatusInstance)
    requires
        old(battle).wf(),
        idx < old(battle).units@.len(),
    ensures
        unit_frame(final(battle), old(battle)),
        final(battle).log == old(battle).log,
        final(battle).audio_events == old(battle).audio_events,
        final(battle).units@[idx as int].statuses@ == old(battle).units@[idx as int].statuses@.push(st),
        final(battle).units@ == old(battle).units@.update(
            idx as int,
            BattleUnit { statuses: final(battle).units@[idx as int].statuses, ..old(battle).units@[idx as int] },
        ),
{
    let ghost start = *battle;
    battle.units[idx].statuses.push(st);
    proof { keep_bounds(&start, battle, idx as int); }
}

/// Damages unit `idx`, then knocks it away from the player twice while it lives.
fn spell_knockback(battle: &mut TacticalBattle, idx: usize, dmg: i32)
    requires
        old(battle).wf(),
        idx < old(battle).units@.len(),
    ensures
        unit_frame(final(battle), old(battle)),
        final(battle).log@ == old(battle).log@,
        final(battle).audio_events@ == old(battle).audio_events@,
        ({
            let v = final(battle).units@[idx as int];
            &&& v == (BattleUnit { x: v.x, y: v.y, ..damaged(old(battle).units@[idx as int], dmg as int) })
            &&& forall|j: int| 0 <= j < old(battle).units@.len() && j != idx ==> #[trigger] final(battle).units@[j] == old(battle).units@[j]
        }),
        final(battle).units@ == knocked_back(&old(battle).arena, old(battle).units@, idx as int, dmg as int),
{
    let ghost start = *battle;
    let _ = deal_damage(battle, idx, dmg);
    proof {
        keep_bounds(&start, battle, idx as int);
        lemma_damaged_keeps_place(start.units@[idx as int], dmg as int);
        assert(battle.units@ == start.units@.update(idx as int, damaged(start.units@[idx as int], dmg as int)));
    }
    let px = battle.units[0].x;
    let py = battle.units[0].y;
    proof {
        assert(battle.arena.in_bounds_spec(battle.units@[0].x as int, battle.units@[0].y as int));
        assert(px == start.units@[0].x && py == start.units@[0].y);
    }
    let ghost hit = battle.units@;
    if battle.units[idx].alive {
        let _ = apply_knockback(battle, idx, px, py);
    }
    let ghost once = battle.units@;
    assert(once == knock_once(&start.arena, hit, idx as int, px as int, py as int));
    if battle.units[idx].alive {
        let _ = apply_knockback(battle, idx, px, py);
    }
    assert(battle.units@ == knock_once(&start.arena, once, idx as int, px as int, py as int));
}

/// Changing one unit without moving it keeps every unit inside the arena.
pub(crate) proof fn keep_bounds(old_b: &TacticalBattle, new_b: &TacticalBattle, i: int)
    requires
        old_b.wf(),
        new_b.arena == old_b.arena,
        new_b.units@.len() == old_b.units@.len(),
        0 <= i < old_b.units@.len(),
        new_b.units@[i].x == old_b.units@[i].x,
        new_b.units@[i].y == old_b.units@[i].y,
        forall|j: int| 0 <= j < old_b.units@.len() && j != i ==> #[trigger] new_b.units@[j] == old_b.units@[j],
    ensures
        forall|j: int|
            0 <= j < new_b.units@.len() ==> new_b.arena.in_bounds_spec(
                #[trigger] new_b.units@[j].x as int,
                new_b.units@[j].y as int,
            ),
{
    assert forall|j: int| 0 <= j < new_b.units@.len() implies new_b.arena.in_bounds_spec(
        #[trigger] new_b.units@[j].x as int,
        new_b.units@[j].y as int,
    ) by {
        assert(old_b.arena.in_bounds_spec(old_b.units@[j].x as int, old_b.units@[j].y as int));
    }
}

/// A lobbed projectile one round later: a fresh one only stops being fresh,
/// any other one comes a round closer to landing.
pub open spec fn arc_tick(p: crate::combat::ArcingProjectile) -> crate::combat::ArcingProjectile {
    if p.fresh {
        crate::combat::ArcingProjectile { fresh: false, ..p }
    } else {
        crate::combat::ArcingProjectile { turns_remaining: crate::status::clamp32(p.turns_remaining - 1) as i32, ..p }
    }
}

/// The projectiles still in the air after a round, in order.
pub open spec fn arcs_after(s: Seq<crate::combat::ArcingProjectile>) -> Seq<crate::combat::ArcingProjectile>
    decreases s.len(),
{
    if s.len() == 0 {
        Seq::empty()
    } else {
        let rest = arcs_after(s.drop_last());
        let t = arc_tick(s.last());
        if t.turns_remaining > 0 {
            rest.push(t)
        } else {
            rest
        }
    }
}

/// Resolves one landed projectile on `(tx, ty)`.
fn land_arc(battle: &mut TacticalBattle, tx: i32, ty: i32, effect: crate::combat::ProjectileEffect, is_player: bool)
    requires
        old(battle).wf(),
    ensures
        unit_frame(final(battle), old(battle)),
{
    match effect {
        crate::combat::ProjectileEffect::Damage(dmg) => {
            if let Some(idx) = battle.unit_at(tx, ty) {
                let ghost start = *battle;
                if is_player && battle.units[idx].is_enemy() {
                    let actual = deal_damage(battle, idx, dmg);
                    proof { keep_bounds(&start, battle, idx as int); }
                    battle.log_message(with_int("Arc strike lands for ", actual as i64, " damage!"));
                } else if !is_player && battle.units[idx].is_player() {
                    let actual = deal_damage(battle, idx, dmg);
                    proof { keep_bounds(&start, battle, idx as int); }
                    battle.log_message(with_int("Incoming arc hits you for ", actual as i64, " damage!"));
                }
            }
        },
        crate::combat::ProjectileEffect::PiercingDamage(dmg) => {
            if let Some(idx) = battle.unit_at(tx, ty) {
                let ghost start = *battle;
                if is_player && battle.units[idx].is_enemy() {
                    pierce_unit(battle, idx, dmg);
                    proof { keep_bounds(&start, battle, idx as int); }
                    battle.log_message(with_int("Arc strike pierces for ", dmg as i64, " damage!"));
                } else if !is_player && battle.units[idx].is_player() {
                    pierce_unit(battle, idx, dmg);
                    proof { keep_bounds(&start, battle, idx as int); }
                    battle.log_message(with_int("Incoming arc pierces you for ", dmg as i64, " damage!"));
                }
            }
        },
        crate::combat::ProjectileEffect::SpellHit(spell) => {
            if is_player {
                apply_projectile_spell(battle, tx, ty, &spell);
                battle.log_message(String::from_str("Your lobbed spell lands!"));
            } else if let Some(idx) = battle.unit_at(tx, ty) {
                if battle.units[idx].is_player() {
                    let ghost start = *battle;
                    let _ = deal_damage(battle, idx, 3);
                    proof { keep_bounds(&start, battle, idx as int); }
                    battle.log_message(String::from_str("Enemy arc attack hits you!"));
                }
            }
        },
    }
}

/// Damage that ignores armor.
pub fn pierce_unit(battle: &mut TacticalBattle, idx: usize, dmg: i32)
    requires
        idx < old(battle).units@.len(),
    ensures
        final(battle).units@ == old(battle).units@.update(idx as int, crate::combat::pierced(old(battle).units@[idx as int], dmg as int)),
        *final(battle) == old(battle).with_units(final(battle).units),
{
    let hp = crate::util::sat_add(battle.units[idx].hp, if dmg == i32::MIN { i32::MAX } else { -dmg });
    let hp = if dmg == i32::MIN { crate::util::sat_add(hp, 1) } else { hp };
    if hp <= 0 {
        battle.units[idx].hp = 0;
        battle.units[idx].alive = false;
    } else {
        battle.units[idx].hp = hp;
    }
}

/// Lobbed projectiles count down a round (fresh ones wait one more round)
/// and those that reach zero land: damage (through armor) or piercing damage
/// to an enemy for the player's shots or to the player for enemy shots; the
/// player's lobbed spells act as spells, an enemy's hit the player for 3.
pub fn tick_arcing_projectiles(battle: &mut TacticalBattle)
    requires
        old(battle).wf(),
    ensures
        final(battle).wf(),
        final(battle).units@.len() == old(battle).units@.len(),
        final(battle).arcing_projectiles@ == arcs_after(old(battle).arcing_projectiles@),
        *final(battle) == (TacticalBattle {
            units: final(battle).units,
            audio_events: final(battle).audio_events,
            log: final(battle).log,
            arcing_projectiles: final(battle).arcing_projectiles,
            ..*old(battle)
        }),
{
    let ghost start = *battle;
    let mut landed: Vec<(i32, i32, crate::combat::ProjectileEffect, bool)> = Vec::new();
    let mut kept: Vec<crate::combat::ArcingProjectile> = Vec::new();
    let mut i: usize = 0;
    while i < battle.arcing_projectiles.len()
        invariant
            *battle == start,
            i <= start.arcing_projectiles@.len(),
            kept@ == arcs_after(start.arcing_projectiles@.subrange(0, i as int)),
        decreases start.arcing_projectiles@.len() - i,
    {
        let p = battle.arcing_projectiles[i];
        proof {
            let s = start.arcing_projectiles@;
            assert(s.subrange(0, i + 1).drop_last() =~= s.subrange(0, i as int));
            assert(s.subrange(0, i + 1).last() == p);
        }
        let mut t = p;
        if p.fresh {
            t.fresh = false;
        } else {
            t.turns_remaining = crate::util::sat_add(p.turns_remaining, -1);
            if t.turns_remaining <= 0 {
                landed.push((p.target_x, p.target_y, p.effect, p.owner_is_player));
            }
        }
        if t.turns_remaining > 0 {
            kept.push(t);
        }
        i += 1;
    }
    proof {
        assert(start.arcing_projectiles@.subrange(0, start.arcing_projectiles@.len() as int) =~= start.arcing_projectiles@);
    }
    battle.arcing_projectiles = kept;
    let ghost mid = *battle;
    let mut k: usize = 0;
    while k < landed.len()
        invariant
            mid.wf(),
            unit_frame(battle, &mid),
            k <= landed@.len(),
            mid.arcing_projectiles@ == arcs_after(start.arcing_projectiles@),
            *battle == (TacticalBattle { units: battle.units, audio_events: battle.audio_events, log: battle.log, ..mid }),
        decreases landed@.len() - k,
    {
        let (tx, ty, effect, is_player) = landed[k];
        land_arc(battle, tx, ty, effect, is_player);
        k += 1;
    }
}

/// A pending impact one round later.
pub open spec fn impact_tick(p: crate::combat::PendingImpact) -> crate::combat::PendingImpact {
    crate::combat::PendingImpact { turns_until_hit: if p.turns_until_hit > 0 { (p.turns_until_hit - 1) as u32 } else { 0 }, ..p }
}

/// The impacts still waiting after a round, in order.
pub open spec fn impacts_after(s: Seq<crate::combat::PendingImpact>) -> Seq<crate::combat::PendingImpact>
    decreases s.len(),
{
    if s.len() == 0 {
        Seq::empty()
    } else {
        let rest = impacts_after(s.drop_last());
        let t = impact_tick(s.last());
        if t.turns_until_hit > 0 {
            rest.push(t)
        } else {
            rest
        }
    }
}

/// Whether some impact goes off this round.
pub open spec fn any_detonation(s: Seq<crate::combat::PendingImpact>) -> bool {
    exists|k: int| 0 <= k < s.len() && (#[trigger] s[k]).turns_until_hit <= 1
}

/// Resolves one detonation centred on `(cx, cy)`: every unit of the opposing
/// side in the square of the radius takes the damage; fire then burns and
/// water wets them.
fn detonate(battle: &mut TacticalBattle, imp: crate::combat::PendingImpact)
    requires
        old(battle).wf(),
    ensures
        unit_frame(final(battle), old(battle)),
        final(battle).audio_events@ == old(battle).audio_events@,
{
    let w = battle.arena.width as i64;
    let h = battle.arena.height as i64;
    let cx = imp.x as i64;
    let cy = imp.y as i64;
    let r = imp.radius as i64;
    let x_lo = if cx - r > 0 { cx - r } else { 0 };
    let x_hi = if cx + r < w - 1 { cx + r } else { w - 1 };
    let y_lo = if cy - r > 0 { cy - r } else { 0 };
    let y_hi = if cy + r < h - 1 { cy + r } else { h - 1 };
    let is_player = imp.source_is_player;
    let mut total_hits: u64 = 0;
    let ghost start = *battle;
    let mut tx = x_lo;
    while tx <= x_hi
        invariant
            start.wf(),
            unit_frame(battle, &start),
            0 <= x_lo,
            x_hi < w,
            w == start.arena.width,
            h == start.arena.height,
            0 <= y_lo,
            y_hi < h,
            w <= ARENA_MAX,
            h <= ARENA_MAX,
            x_hi - x_lo <= ARENA_MAX,
            y_hi - y_lo <= ARENA_MAX,
            x_lo <= tx,
            tx <= x_hi + 1 || tx == x_lo,
            total_hits <= (tx - x_lo) * ARENA_MAX,
            battle.audio_events@ == start.audio_events@,
        decreases x_hi + 1 - tx,
    {
        let mut ty = y_lo;
        while ty <= y_hi
            invariant
                start.wf(),
                unit_frame(battle, &start),
                0 <= y_lo,
                y_hi < h,
                h == start.arena.height,
                h <= ARENA_MAX,
                0 <= tx < w,
                w <= ARENA_MAX,
                x_hi - x_lo <= ARENA_MAX,
                y_hi - y_lo <= ARENA_MAX,
                x_lo <= tx <= x_hi,
                y_lo <= ty,
                ty <= y_hi + 1 || ty == y_lo,
                total_hits <= (tx - x_lo) * ARENA_MAX + (ty - y_lo),
                battle.audio_events@ == start.audio_events@,
            decreases y_hi + 1 - ty,
        {
            if let Some(idx) = battle.unit_at(tx as i32, ty as i32) {
                let ghost before = *battle;
                if is_player && battle.units[idx].is_enemy() {
                    let actual = deal_damage(battle, idx, imp.damage);
                    proof { keep_bounds(&before, battle, idx as int); }
                    total_hits += 1;
                    if tx == cx && ty == cy {
                        battle.log_message(with_int("Impact detonates for ", actual as i64, " damage!"));
                    }
                } else if !is_player && battle.units[idx].is_player() {
                    let actual = deal_damage(battle, idx, imp.damage);
                    proof { keep_bounds(&before, battle, idx as int); }
                    total_hits += 1;
                    battle.log_message(with_int("Incoming strike hits you for ", actual as i64, " damage!"));
                }
            }
            ty += 1;
        }
        tx += 1;
    }
    if let Some(elem) = imp.element {
        let mut tx = x_lo;
        while tx <= x_hi
            invariant
                start.wf(),
                unit_frame(battle, &start),
                0 <= x_lo,
                x_hi < w,
                w == start.arena.width,
                h == start.arena.height,
                0 <= y_lo,
                y_hi < h,
                w <= ARENA_MAX,
                h <= ARENA_MAX,
                x_lo <= tx,
                tx <= x_hi + 1 || tx == x_lo,
                battle.audio_events@ == start.audio_events@,
            decreases x_hi + 1 - tx,
        {
            let mut ty = y_lo;
            while ty <= y_hi
                invariant
                    start.wf(),
                    unit_frame(battle, &start),
                    0 <= y_lo,
                    y_hi < h,
                    h <= ARENA_MAX,
                    0 <= tx < w,
                    w <= ARENA_MAX,
                    x_lo <= tx <= x_hi,
                    y_lo <= ty,
                    ty <= y_hi + 1 || ty == y_lo,
                    battle.audio_events@ == start.audio_events@,
                decreases y_hi + 1 - ty,
            {
                if let Some(idx) = battle.unit_at(tx as i32, ty as i32) {
                    let hit = if is_player { battle.units[idx].is_enemy() } else { battle.units[idx].is_player() };
                    if hit {
                        match elem {
                            crate::combat::WuxingElement::Fire => {
                                spell_status(battle, idx, crate::status::StatusInstance::new(crate::status::StatusKind::Burn { damage: 1 }, 2));
                            },
                            crate::combat::WuxingElement::Water => {
                                if !crate::status::has_wet(&battle.units[idx].statuses) {
                                    spell_status(battle, idx, crate::status::StatusInstance::new(crate::status::StatusKind::Wet, 2));
                                }
                            },
                            _ => {},
                        }
                    }
                }
                ty += 1;
            }
            tx += 1;
        }
    }
    if total_hits > 1 {
        battle.log_message(with_int("Impact zone hits ", total_hits as i64, " targets!"));
    }
}

/// Pending impacts count down a round; those reaching zero detonate (see
/// `detonate`) and leave the list; any detonation plays the impact sound.
pub fn tick_pending_impacts(battle: &mut TacticalBattle)
    requires
        old(battle).wf(),
    ensures
        final(battle).wf(),
        final(battle).units@.len() == old(battle).units@.len(),
        final(battle).pending_impacts@ == impacts_after(old(battle).pending_impacts@),
        any_detonation(old(battle).pending_impacts@) ==> final(battle).audio_events@ == old(battle).audio_events@.push(
            AudioEvent::ProjectileImpact,
        ),
        !any_detonation(old(battle).pending_impacts@) ==> final(battle).audio_events@ == old(battle).audio_events@ && final(battle).units@ == old(battle).units@
            && final(battle).log@ == old(battle).log@,
        *final(battle) == (TacticalBattle {
            units: final(battle).units,
            audio_events: final(battle).audio_events,
            log: final(battle).log,
            pending_impacts: final(battle).pending_impacts,
            ..*old(battle)
        }),
{
    let ghost start = *battle;
    let mut detonated: Vec<crate::combat::PendingImpact> = Vec::new();
    let mut kept: Vec<crate::combat::PendingImpact> = Vec::new();
    let mut i: usize = 0;
    while i < battle.pending_impacts.len()
        invariant
            *battle == start,
            i <= start.pending_impacts@.len(),
            kept@ == impacts_after(start.pending_impacts@.subrange(0, i as int)),
            (detonated@.len() > 0) == exists|k: int| 0 <= k < i && (#[trigger] start.pending_impacts@[k]).turns_until_hit <= 1,
        decreases start.pending_impacts@.len() - i,
    {
        let p = battle.pending_impacts[i];
        proof {
            let s = start.pending_impacts@;
            assert(s.subrange(0, i + 1).drop_last() =~= s.subrange(0, i as int));
            assert(s.subrange(0, i + 1).last() == p);
        }
        let mut t = p;
        t.turns_until_hit = p.turns_until_hit.saturating_sub(1);
        if t.turns_until_hit == 0 {
            detonated.push(t);
        } else {
            kept.push(t);
        }
        i += 1;
    }
    proof {
        assert(start.pending_impacts@.subrange(0, start.pending_impacts@.len() as int) =~= start.pending_impacts@);
    }
    battle.pending_impacts = kept;
    let ghost mid = *battle;
    let mut k: usize = 0;
    while k < detonated.len()
        invariant
            mid.wf(),
            unit_frame(battle, &mid),
            k <= detonated@.len(),
            mid.pending_impacts@ == impacts_after(start.pending_impacts@),
            *battle == (TacticalBattle { units: battle.units, audio_events: battle.audio_events, log: battle.log, ..mid }),
            battle.audio_events@ == mid.audio_events@,
            k == 0 ==> battle.units@ == mid.units@ && battle.log@ == mid.log@,
        decreases detonated@.len() - k,
    {
        let imp = detonated[k];
        detonate(battle, imp);
        k += 1;
    }
    if detonated.len() > 0 {
        battle.audio_events.push(AudioEvent::ProjectileImpact);
    }
}

} // verus!
