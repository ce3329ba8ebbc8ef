//! Arena events: a random hazard announced one round ahead and then fired.

use vstd::prelude::*;
use crate::rng::{Rng, range_value, seed_state, xorshift};
use crate::combat::{
    ARENA_MAX, ArenaBiome, ArenaEvent, AudioEvent, BattleTile, BattleUnit, TacticalArena, TacticalBattle, deal_damage,
    healed,
};
use crate::combat::tick::{unit_frame, keep_bounds, spell_status, walkable_at};
use crate::text::{cat, with_int, decimal};
use vstd::string::StringExecFns;

verus! {

/// Weight of event number `i` (in `event_at` order) for a biome: 10 each,
/// and 30 for the two events the biome favours.
pub open spec fn event_weight(biome: ArenaBiome, i: int) -> int {
    let favoured = match biome {
        ArenaBiome::StationInterior | ArenaBiome::DerelictShip | ArenaBiome::IrradiatedZone => i == 1 || i == 4,
        ArenaBiome::CryoBay => i == 7 || i == 3,
        ArenaBiome::ReactorRoom => i == 5 || i == 11,
        ArenaBiome::Hydroponics => i == 10 || i == 6,
        ArenaBiome::AlienRuins => i == 2 || i == 9,
    };
    if favoured { 30 } else { 10 }
}

/// Sum of the weights of events `0 .. n`.
pub open spec fn weight_prefix(biome: ArenaBiome, n: int) -> int
    decreases n,
{
    if n <= 0 {
        0
    } else {
        weight_prefix(biome, n - 1) + event_weight(biome, n - 1)
    }
}

/// Sum of the weights of events `0 ..= i`.
pub open spec fn weight_through(biome: ArenaBiome, i: int) -> int {
    weight_prefix(biome, i + 1)
}

pub open spec fn event_at_spec(i: int) -> ArenaEvent {
    if i == 0 {
        ArenaEvent::CoolantFlood
    } else if i == 1 {
        ArenaEvent::HullBreach
    } else if i == 2 {
        ArenaEvent::PowerSurge
    } else if i == 3 {
        ArenaEvent::VentBlast
    } else if i == 4 {
        ArenaEvent::ArcDischarge
    } else if i == 5 {
        ArenaEvent::PlasmaLeak
    } else if i == 6 {
        ArenaEvent::MediGas
    } else if i == 7 {
        ArenaEvent::CryoVent
    } else if i == 8 {
        ArenaEvent::DebrisBurst
    } else if i == 9 {
        ArenaEvent::SystemGlitch
    } else if i == 10 {
        ArenaEvent::NaniteSpread
    } else {
        ArenaEvent::ReactorBlowout
    }
}

/// The event a roll selects: the first whose running weight total exceeds it.
pub open spec fn event_for_roll(biome: ArenaBiome, roll: int) -> ArenaEvent {
    if exists|i: int| 0 <= i < 12 && roll < #[trigger] weight_through(biome, i) {
        event_at_spec(choose|i: int| 0 <= i < 12 && roll < weight_through(biome, i) && forall|j: int| 0 <= j < i ==> roll >= #[trigger] weight_through(biome, j))
    } else {
        ArenaEvent::CoolantFlood
    }
}

fn event_at(i: usize) -> (e: ArenaEvent)
    ensures
        e == event_at_spec(i as int),
{
    match i {
        0 => ArenaEvent::CoolantFlood,
        1 => ArenaEvent::HullBreach,
        2 => ArenaEvent::PowerSurge,
        3 => ArenaEvent::VentBlast,
        4 => ArenaEvent::ArcDischarge,
        5 => ArenaEvent::PlasmaLeak,
        6 => ArenaEvent::MediGas,
        7 => ArenaEvent::CryoVent,
        8 => ArenaEvent::DebrisBurst,
        9 => ArenaEvent::SystemGlitch,
        10 => ArenaEvent::NaniteSpread,
        _ => ArenaEvent::ReactorBlowout,
    }
}

fn weight_of(biome: ArenaBiome, i: usize) -> (w: u32)
    ensures
        w == event_weight(biome, i as int),
{
    let favoured = match biome {
        ArenaBiome::StationInterior | ArenaBiome::DerelictShip | ArenaBiome::IrradiatedZone => i == 1 || i == 4,
        ArenaBiome::CryoBay => i == 7 || i == 3,
        ArenaBiome::ReactorRoom => i == 5 || i == 11,
        ArenaBiome::Hydroponics => i == 10 || i == 6,
        ArenaBiome::AlienRuins => i == 2 || i == 9,
    };
    if favoured {
        30
    } else {
        10
    }
}

proof fn lemma_total_weight(biome: ArenaBiome)
    ensures
        weight_prefix(biome, 12) == 160,
        forall|n: int| 0 <= n <= 12 ==> 0 <= #[trigger] weight_prefix(biome, n) <= 160,
{
    reveal_with_fuel(weight_prefix, 13);
    assert forall|n: int| 0 <= n <= 12 implies 0 <= #[trigger] weight_prefix(biome, n) <= 160 by {
        reveal_with_fuel(weight_prefix, 13);
    }
}

/// The two events a biome favours: hull breaches and arc discharges aboard
/// the station, derelicts and irradiated zones; cryo vents and vent blasts in
/// cryo bays; plasma leaks and reactor blowouts in reactor rooms; nanite
/// spread and medical gas in hydroponics; power surges and system glitches in
/// alien ruins.
pub open spec fn favoured_event(biome: ArenaBiome, e: ArenaEvent) -> bool {
    match biome {
        ArenaBiome::StationInterior | ArenaBiome::DerelictShip | ArenaBiome::IrradiatedZone => e == ArenaEvent::HullBreach
            || e == ArenaEvent::ArcDischarge,
        ArenaBiome::CryoBay => e == ArenaEvent::CryoVent || e == ArenaEvent::VentBlast,
        ArenaBiome::ReactorRoom => e == ArenaEvent::PlasmaLeak || e == ArenaEvent::ReactorBlowout,
        ArenaBiome::Hydroponics => e == ArenaEvent::NaniteSpread || e == ArenaEvent::MediGas,
        ArenaBiome::AlienRuins => e == ArenaEvent::PowerSurge || e == ArenaEvent::SystemGlitch,
    }
}

/// Each event owns one band of consecutive rolls out of 160, in the fixed
/// order of events: 30 rolls for an event the biome favours, 10 for any
/// other; every roll in the band picks that event.
pub proof fn lemma_event_bands(biome: ArenaBiome, i: int, roll: int)
    requires
        0 <= i < 12,
    ensures
        weight_prefix(biome, 12) == 160,
        weight_prefix(biome, i + 1) - weight_prefix(biome, i) == if favoured_event(biome, event_at_spec(i)) {
            30int
        } else {
            10int
        },
        weight_prefix(biome, i) <= roll < weight_prefix(biome, i + 1) ==> event_for_roll(biome, roll) == event_at_spec(i),
{
    reveal_with_fuel(weight_prefix, 13);
    lemma_total_weight(biome);
    lemma_prefix_increasing(biome);
    if weight_prefix(biome, i) <= roll < weight_prefix(biome, i + 1) {
        assert(roll < weight_through(biome, i));
        assert forall|j: int| 0 <= j < i implies roll >= #[trigger] weight_through(biome, j) by {
            assert(weight_prefix(biome, j + 1) <= weight_prefix(biome, i));
        }
        let c = choose|c: int|
            0 <= c < 12 && roll < weight_through(biome, c) && forall|j: int| 0 <= j < c ==> roll >= #[trigger] weight_through(biome, j);
        if c < i {
            assert(weight_prefix(biome, c + 1) <= weight_prefix(biome, i));
        } else if c > i {
            assert(roll >= weight_through(biome, i));
        }
    }
}

/// Running weight totals never fall as more events are counted.
proof fn lemma_prefix_increasing(biome: ArenaBiome)
    ensures
        forall|a: int, b: int| 0 <= a <= b <= 12 ==> #[trigger] weight_prefix(biome, a) <= #[trigger] weight_prefix(biome, b),
{
    assert forall|a: int, b: int| 0 <= a <= b <= 12 implies #[trigger] weight_prefix(biome, a) <= #[trigger] weight_prefix(biome, b) by {
        lemma_prefix_step(biome, a, b);
    }
}

proof fn lemma_prefix_step(biome: ArenaBiome, a: int, b: int)
    requires
        0 <= a <= b,
    ensures
        weight_prefix(biome, a) <= weight_prefix(biome, b),
    decreases b - a,
{
    if a < b {
        lemma_prefix_step(biome, a, b - 1);
    }
}

/// In a reactor room the last 30 rolls bring a reactor blowout and rolls 50
/// to 79 a plasma leak.
pub proof fn lemma_reactor_room_rolls(roll: int)
    ensures
        130 <= roll < 160 ==> event_for_roll(ArenaBiome::ReactorRoom, roll) == ArenaEvent::ReactorBlowout,
        50 <= roll < 80 ==> event_for_roll(ArenaBiome::ReactorRoom, roll) == ArenaEvent::PlasmaLeak,
{
    reveal_with_fuel(weight_prefix, 13);
    lemma_event_bands(ArenaBiome::ReactorRoom, 11, roll);
    lemma_event_bands(ArenaBiome::ReactorRoom, 5, roll);
}

/// Picks a random arena event, weighted by biome affinity (see `event_weight`).
pub fn pick_arena_event(rng: &mut Rng, biome: ArenaBiome) -> (e: ArenaEvent)
    ensures
        final(rng)@ == xorshift(old(rng)@),
        e == event_for_roll(biome, range_value(final(rng)@, 0, 160)),
{
    proof {
        lemma_total_weight(biome);
    }
    let roll = rng.range(0, 160) as u32;
    let mut acc: u32 = 0;
    let mut i: usize = 0;
    while i < 12
        invariant
            i <= 12,
            acc == weight_prefix(biome, i as int),
            roll == range_value(rng@, 0, 160),
            rng@ == xorshift(old(rng)@),
            0 <= roll < 160,
            forall|j: int| 0 <= j < i ==> roll >= #[trigger] weight_through(biome, j),
            weight_prefix(biome, 12) == 160,
            forall|n: int| 0 <= n <= 12 ==> 0 <= #[trigger] weight_prefix(biome, n) <= 160,
        decreases 12 - i,
    {
        acc = acc + weight_of(biome, i);
        if roll < acc {
            proof {
                assert(roll < weight_through(biome, i as int));
                let c = choose|k: int| 0 <= k < 12 && roll < weight_through(biome, k) && forall|j: int| 0 <= j < k ==> roll >= #[trigger] weight_through(biome, j);
                if c < i {
                    assert(roll >= weight_through(biome, c));
                } else if c > i {
                    assert(roll >= weight_through(biome, i as int));
                }
            }
            return event_at(i);
        }
        i += 1;
    }
    proof {
        assert(roll >= weight_through(biome, 11));
    }
    ArenaEvent::CoolantFlood
}

/// Tiles that differ went from a tile in `from` to a tile in `to`; the grid
/// keeps its shape and steam.
pub open spec fn tiles_changed_only(a: &TacticalArena, b: &TacticalArena, from: Set<BattleTile>, to: Set<BattleTile>) -> bool {
    &&& b.same_shape(a)
    &&& b.steam_timers@ == a.steam_timers@
    &&& forall|i: int|
        0 <= i < a.tiles@.len() && #[trigger] b.tiles@[i] != a.tiles@[i] ==> from.contains(a.tiles@[i]) && to.contains(
            b.tiles@[i],
        )
}

/// Writing an allowed tile over a tile that was in `from` at the start keeps
/// the allowance.
proof fn lemma_write_allowed(
    start: Seq<BattleTile>,
    cur: Seq<BattleTile>,
    i: int,
    t: BattleTile,
    from: Set<BattleTile>,
    to: Set<BattleTile>,
)
    requires
        cur.len() == start.len(),
        0 <= i < cur.len(),
        forall|j: int| 0 <= j < start.len() && #[trigger] cur[j] != start[j] ==> from.contains(start[j]) && to.contains(cur[j]),
        to.contains(t),
        cur[i] == start[i] ==> from.contains(cur[i]),
    ensures
        forall|j: int|
            0 <= j < start.len() && #[trigger] cur.update(i, t)[j] != start[j] ==> from.contains(start[j]) && to.contains(
                cur.update(i, t)[j],
            ),
{
}

/// The battle after an event: well formed, same number of units, and only
/// the units, the arena, the audio queue and the log may differ.
pub open spec fn event_frame(new: &TacticalBattle, old: &TacticalBattle) -> bool {
    &&& new.wf()
    &&& new.units@.len() == old.units@.len()
    &&& *new == (TacticalBattle {
        units: new.units,
        arena: new.arena,
        audio_events: new.audio_events,
        log: new.log,
        ..*old
    })
}

/// Each unit changed at most in the named respects.
pub open spec fn only_hp_changes(a: Seq<BattleUnit>, b: Seq<BattleUnit>) -> bool {
    &&& a.len() == b.len()
    &&& forall|i: int| 0 <= i < a.len() ==> #[trigger] b[i] == (BattleUnit { hp: b[i].hp, alive: b[i].alive, ..a[i] })
}

pub open spec fn only_statuses_change(a: Seq<BattleUnit>, b: Seq<BattleUnit>) -> bool {
    &&& a.len() == b.len()
    &&& forall|i: int| 0 <= i < a.len() ==> #[trigger] b[i] == (BattleUnit { statuses: b[i].statuses, ..a[i] })
}

/// Sets the in-bounds tile `(x, y)` to `t` when it currently is `expect`.
fn replace_tile(battle: &mut TacticalBattle, x: i32, y: i32, expect: BattleTile, t: BattleTile, Ghost(start): Ghost<TacticalArena>, Ghost(from): Ghost<Set<BattleTile>>, Ghost(to): Ghost<Set<BattleTile>>) -> (done: bool)
    requires
        old(battle).wf(),
        tiles_changed_only(&start, &old(battle).arena, from, to),
        from.contains(expect),
        to.contains(t),
    ensures
        final(battle).wf(),
        tiles_changed_only(&start, &final(battle).arena, from, to),
        final(battle).arena.same_shape(&old(battle).arena),
        *final(battle) == (TacticalBattle { arena: final(battle).arena, ..*old(battle) }),
        done == (old(battle).arena.tile_spec(x as int, y as int) == Some(expect)),
        done ==> final(battle).arena.tile_spec(x as int, y as int) == Some(t),
        forall|px: int, py: int|
            #[trigger] final(battle).arena.tile_spec(px, py) == if done && px == x && py == y {
                Some(t)
            } else {
                old(battle).arena.tile_spec(px, py)
            },
{
    let ghost before = battle.arena;
    if let Some(i) = battle.arena.idx(x, y) {
        proof {
            crate::combat::lemma_index_in_grid(&battle.arena, x as int, y as int);
        }
        if battle.arena.tiles[i] == expect {
            proof {
                lemma_write_allowed(start.tiles@, battle.arena.tiles@, i as int, t, from, to);
            }
            battle.arena.tiles.set(i, t);
            proof {
                assert forall|px: int, py: int|
                    #[trigger] battle.arena.tile_spec(px, py) == if px == x && py == y {
                        Some(t)
                    } else {
                        before.tile_spec(px, py)
                    } by {
                    if battle.arena.in_bounds_spec(px, py) {
                        crate::combat::lemma_index_in_grid(&battle.arena, px, py);
                        if px != x || py != y {
                            crate::combat::lemma_index_injective(&before, px, py, x as int, y as int);
                        }
                    }
                }
            }
            return true;
        }
    }
    false
}

/// Hull breach: 3 to 5 random tiles; each free metal floor hit fractures
/// into weakened plating or damaged floor at random.
fn hull_breach(battle: &mut TacticalBattle, rng: &mut Rng) -> (msgs: Vec<String>)
    requires
        old(battle).wf(),
    ensures
        msgs@.len() >= 1,
        event_frame(final(battle), old(battle)),
        final(battle).units@ == old(battle).units@,
        tiles_changed_only(&old(battle).arena, &final(battle).arena, set![BattleTile::MetalFloor], set![BattleTile::WeakenedPlating, BattleTile::DamagedFloor]),
        final(battle).audio_events@ == old(battle).audio_events@,
        final(battle).log@ == old(battle).log@,
        ({
            let s1 = xorshift(old(rng)@);
            let fx = range_value(xorshift(s1), 0, old(battle).arena.width as i32);
            let fy = range_value(xorshift(xorshift(s1)), 0, old(battle).arena.height as i32);
            old(battle).arena.tile_spec(fx, fy) == Some(BattleTile::MetalFloor) && crate::combat::unit_at_spec(old(battle).units@, fx, fy) is None
                ==> final(battle).arena.tile_spec(fx, fy) == Some(BattleTile::WeakenedPlating) || final(battle).arena.tile_spec(fx, fy)
                == Some(BattleTile::DamagedFloor)
        }),
{
    let ghost start = *battle;
    let ghost from = set![BattleTile::MetalFloor];
    let ghost to = set![BattleTile::WeakenedPlating, BattleTile::DamagedFloor];
    let w = battle.arena.width as i32;
    let h = battle.arena.height as i32;
    let count = rng.range(3, 6);
    let ghost s1 = rng@;
    let ghost fx = range_value(xorshift(s1), 0, w);
    let ghost fy = range_value(xorshift(xorshift(s1)), 0, h);
    let ghost first_ok = start.arena.tile_spec(fx, fy) == Some(BattleTile::MetalFloor) && crate::combat::unit_at_spec(start.units@, fx, fy) is None;
    let mut affected: i64 = 0;
    let mut k: i32 = 0;
    while k < count
        invariant
            battle.wf(),
            *battle == (TacticalBattle { arena: battle.arena, ..start }),
            tiles_changed_only(&start.arena, &battle.arena, from, to),
            from == set![BattleTile::MetalFloor],
            to == set![BattleTile::WeakenedPlating, BattleTile::DamagedFloor],
            w == battle.arena.width,
            h == battle.arena.height,
            0 <= k,
            count <= 5,
            0 <= affected <= k,
            fx == range_value(xorshift(s1), 0, w),
            fy == range_value(xorshift(xorshift(s1)), 0, h),
            first_ok == (start.arena.tile_spec(fx, fy) == Some(BattleTile::MetalFloor) && crate::combat::unit_at_spec(start.units@, fx, fy) is None),
            k == 0 ==> rng@ == s1 && battle.arena == start.arena,
            k > 0 && first_ok ==> battle.arena.tile_spec(fx, fy) == Some(BattleTile::WeakenedPlating) || battle.arena.tile_spec(fx, fy)
                == Some(BattleTile::DamagedFloor),
        decreases count - k,
    {
        let ghost before = battle.arena;
        let x = rng.range(0, w);
        let y = rng.range(0, h);
        if battle.arena.tile(x, y) == Some(BattleTile::MetalFloor) && battle.unit_at(x, y).is_none() {
            let tile = if rng.range(0, 2) == 0 {
                BattleTile::WeakenedPlating
            } else {
                BattleTile::DamagedFloor
            };
            let _ = replace_tile(battle, x, y, BattleTile::MetalFloor, tile, Ghost(start.arena), Ghost(from), Ghost(to));
            affected += 1;
        }
        proof {
            assert(battle.arena.tile_spec(fx, fy) == before.tile_spec(fx, fy) || battle.arena.tile_spec(fx, fy) == Some(BattleTile::WeakenedPlating)
                || battle.arena.tile_spec(fx, fy) == Some(BattleTile::DamagedFloor));
        }
        k += 1;
    }
    let mut msgs: Vec<String> = Vec::new();
    msgs.push(with_int("🪨 Hull Breach! ", affected, " tiles fracture!"));
    msgs
}

/// The generator state `s` after `n` more draws.
pub open spec fn advance(s: u64, n: nat) -> u64
    decreases n,
{
    if n == 0 {
        s
    } else {
        xorshift(advance(s, (n - 1) as nat))
    }
}

/// Whether one of `n` tile draws from state `s`, each a column in `0..w`
/// then a row in `0..h`, lands on `(x, y)`.
pub open spec fn tile_drawn(s: u64, n: nat, w: i32, h: i32, x: int, y: int) -> bool
    decreases n,
{
    n > 0 && (tile_drawn(s, (n - 1) as nat, w, h, x, y) || {
        let t = advance(s, (2 * (n - 1)) as nat);
        x == range_value(xorshift(t), 0, w) && y == range_value(xorshift(xorshift(t)), 0, h)
    })
}

/// The tile at `(x, y)` after a power surge drawn from state `s`: metal floor
/// that one of the surge's 2 or 3 draws lands on turns to an oil slick.
pub open spec fn surged_tile(a: &TacticalArena, s: u64, x: int, y: int) -> Option<BattleTile> {
    let s1 = xorshift(s);
    if a.tile_spec(x, y) == Some(BattleTile::MetalFloor) && tile_drawn(
        s1,
        range_value(s1, 2, 4) as nat,
        a.width as i32,
        a.height as i32,
        x,
        y,
    ) {
        Some(BattleTile::OilSlick)
    } else {
        a.tile_spec(x, y)
    }
}

/// Power surge: 2 or 3 random tiles; each metal floor hit becomes an oil slick.
fn power_surge(battle: &mut TacticalBattle, rng: &mut Rng) -> (msgs: Vec<String>)
    requires
        old(battle).wf(),
    ensures
        msgs@.len() >= 1,
        event_frame(final(battle), old(battle)),
        final(battle).units@ == old(battle).units@,
        tiles_changed_only(&old(battle).arena, &final(battle).arena, set![BattleTile::MetalFloor], set![BattleTile::OilSlick]),
        final(battle).audio_events@ == old(battle).audio_events@,
        final(battle).log@ == old(battle).log@,
        forall|x: int, y: int| #[trigger] final(battle).arena.tile_spec(x, y) == surged_tile(&old(battle).arena, old(rng)@, x, y),
{
    let ghost start = *battle;
    let ghost from = set![BattleTile::MetalFloor];
    let ghost to = set![BattleTile::OilSlick];
    let w = battle.arena.width as i32;
    let h = battle.arena.height as i32;
    let count = rng.range(2, 4);
    let ghost s1 = rng@;
    let mut placed: i64 = 0;
    let mut k: i32 = 0;
    while k < count
        invariant
            battle.wf(),
            *battle == (TacticalBattle { arena: battle.arena, ..start }),
            tiles_changed_only(&start.arena, &battle.arena, from, to),
            from == set![BattleTile::MetalFloor],
            to == set![BattleTile::OilSlick],
            w == battle.arena.width,
            h == battle.arena.height,
            0 <= k,
            count <= 3,
            0 <= placed <= k,
            k <= count,
            w == start.arena.width,
            h == start.arena.height,
            rng@ == advance(s1, (2 * k) as nat),
            forall|x: int, y: int|
                #[trigger] battle.arena.tile_spec(x, y) == if start.arena.tile_spec(x, y) == Some(BattleTile::MetalFloor)
                    && tile_drawn(s1, k as nat, w, h, x, y) {
                    Some(BattleTile::OilSlick)
                } else {
                    start.arena.tile_spec(x, y)
                },
        decreases count - k,
    {
        let ghost t = rng@;
        let ghost before = battle.arena;
        let x = rng.range(0, w);
        let y = rng.range(0, h);
        if replace_tile(battle, x, y, BattleTile::MetalFloor, BattleTile::OilSlick, Ghost(start.arena), Ghost(from), Ghost(to)) {
            placed += 1;
        }
        proof {
            reveal_with_fuel(advance, 3);
            assert(advance(s1, (2 * (k + 1)) as nat) == xorshift(xorshift(advance(s1, (2 * k) as nat))));
            assert forall|px: int, py: int|
                #[trigger] battle.arena.tile_spec(px, py) == if start.arena.tile_spec(px, py) == Some(BattleTile::MetalFloor)
                    && tile_drawn(s1, (k + 1) as nat, w, h, px, py) {
                    Some(BattleTile::OilSlick)
                } else {
                    start.arena.tile_spec(px, py)
                } by {
                assert(before.tile_spec(px, py) == if start.arena.tile_spec(px, py) == Some(BattleTile::MetalFloor)
                    && tile_drawn(s1, k as nat, w, h, px, py) {
                    Some(BattleTile::OilSlick)
                } else {
                    start.arena.tile_spec(px, py)
                });
                assert(before.tile_spec(x as int, y as int) == if start.arena.tile_spec(x as int, y as int) == Some(BattleTile::MetalFloor)
                    && tile_drawn(s1, k as nat, w, h, x as int, y as int) {
                    Some(BattleTile::OilSlick)
                } else {
                    start.arena.tile_spec(x as int, y as int)
                });
                assert(tile_drawn(s1, (k + 1) as nat, w, h, px, py) == (tile_drawn(s1, k as nat, w, h, px, py) || (px == x && py == y)));
            }
        }
        k += 1;
    }
    let mut msgs: Vec<String> = Vec::new();
    msgs.push(with_int("🔮 Power Surge! ", placed, " OilSlick tiles appear!"));
    msgs
}

/// Debris burst: 4 to 6 random tiles; each metal floor hit becomes debris;
/// every living unit with stored movement loses one point of it.
fn debris_burst(battle: &mut TacticalBattle, rng: &mut Rng) -> (msgs: Vec<String>)
    requires
        old(battle).wf(),
    ensures
        msgs@.len() >= 1,
        event_frame(final(battle), old(battle)),
        tiles_changed_only(&old(battle).arena, &final(battle).arena, set![BattleTile::MetalFloor], set![BattleTile::Debris]),
        forall|i: int|
            0 <= i < old(battle).units@.len() ==> #[trigger] final(battle).units@[i] == {
                let u = old(battle).units@[i];
                if u.alive && u.stored_movement > 0 {
                    BattleUnit { stored_movement: (u.stored_movement - 1) as i32, ..u }
                } else {
                    u
                }
            },
        final(battle).audio_events@ == old(battle).audio_events@,
        final(battle).log@ == old(battle).log@,
{
    let ghost start = *battle;
    let ghost from = set![BattleTile::MetalFloor];
    let ghost to = set![BattleTile::Debris];
    let w = battle.arena.width as i32;
    let h = battle.arena.height as i32;
    let count = rng.range(4, 7);
    let mut placed: i64 = 0;
    let mut k: i32 = 0;
    while k < count
        invariant
            battle.wf(),
            *battle == (TacticalBattle { arena: battle.arena, ..start }),
            tiles_changed_only(&start.arena, &battle.arena, from, to),
            from == set![BattleTile::MetalFloor],
            to == set![BattleTile::Debris],
            w == battle.arena.width,
            h == battle.arena.height,
            0 <= k,
            count <= 6,
            0 <= placed <= k,
        decreases count - k,
    {
        let x = rng.range(0, w);
        let y = rng.range(0, h);
        if replace_tile(battle, x, y, BattleTile::MetalFloor, BattleTile::Debris, Ghost(start.arena), Ghost(from), Ghost(to)) {
            placed += 1;
        }
        k += 1;
    }
    let ghost mid = *battle;
    let mut i: usize = 0;
    while i < battle.units.len()
        invariant
            battle.wf(),
            mid.wf(),
            i <= battle.units@.len(),
            battle.units@.len() == mid.units@.len(),
            mid.units@ == start.units@,
            *battle == (TacticalBattle { units: battle.units, ..mid }),
            forall|j: int|
                0 <= j < battle.units@.len() ==> #[trigger] battle.units@[j] == if j < i {
                    let u = start.units@[j];
                    if u.alive && u.stored_movement > 0 {
                        BattleUnit { stored_movement: (u.stored_movement - 1) as i32, ..u }
                    } else {
                        u
                    }
                } else {
                    start.units@[j]
                },
        decreases battle.units@.len() - i,
    {
        if battle.units[i].alive && battle.units[i].stored_movement > 0 {
            battle.units[i].stored_movement -= 1;
        }
        proof {
            assert forall|j: int| 0 <= j < battle.units@.len() implies battle.arena.in_bounds_spec(
                #[trigger] battle.units@[j].x as int,
                battle.units@[j].y as int,
            ) by {
                assert(mid.arena.in_bounds_spec(mid.units@[j].x as int, mid.units@[j].y as int));
            }
        }
        i += 1;
    }
    let mut msgs: Vec<String> = Vec::new();
    msgs.push(with_int("🏜 Debris Burst! ", placed, " debris tiles appear! Movement hampered!"));
    msgs
}

/// Medi-gas: every living unit heals 2, up to its maximum.
fn medi_gas(battle: &mut TacticalBattle) -> (msgs: Vec<String>)
    requires
        old(battle).wf(),
    ensures
        msgs@.len() >= 1,
        event_frame(final(battle), old(battle)),
        final(battle).arena == old(battle).arena,
        forall|i: int|
            0 <= i < old(battle).units@.len() ==> #[trigger] final(battle).units@[i] == if old(battle).units@[i].alive {
                healed(old(battle).units@[i], 2)
            } else {
                old(battle).units@[i]
            },
        final(battle).audio_events@ == old(battle).audio_events@.push(AudioEvent::Heal),
        final(battle).log@ == old(battle).log@,
{
    let ghost start = *battle;
    let mut i: usize = 0;
    while i < battle.units.len()
        invariant
            battle.wf(),
            start.wf(),
            i <= battle.units@.len(),
            battle.units@.len() == start.units@.len(),
            *battle == (TacticalBattle { units: battle.units, ..start }),
            forall|j: int|
                0 <= j < battle.units@.len() ==> #[trigger] battle.units@[j] == if j < i && start.units@[j].alive {
                    healed(start.units@[j], 2)
                } else {
                    start.units@[j]
                },
        decreases battle.units@.len() - i,
    {
        if battle.units[i].alive {
            crate::combat::heal_unit(battle, i, 2);
        }
        proof {
            assert forall|j: int| 0 <= j < battle.units@.len() implies battle.arena.in_bounds_spec(
                #[trigger] battle.units@[j].x as int,
                battle.units@[j].y as int,
            ) by {
                assert(start.arena.in_bounds_spec(start.units@[j].x as int, start.units@[j].y as int));
            }
        }
        i += 1;
    }
    battle.audio_events.push(AudioEvent::Heal);
    let mut msgs: Vec<String> = Vec::new();
    msgs.push(String::from_str("💚 Medi-Gas! All units heal 2 HP!"));
    msgs
}

/// A status one turn longer.
pub open spec fn extended(st: crate::status::StatusInstance) -> crate::status::StatusInstance {
    crate::status::StatusInstance { turns_left: crate::status::clamp32(st.turns_left + 1) as i32, ..st }
}

/// System glitch: every status of every living unit lasts one turn longer.
fn system_glitch(battle: &mut TacticalBattle) -> (msgs: Vec<String>)
    requires
        old(battle).wf(),
    ensures
        msgs@.len() >= 1,
        event_frame(final(battle), old(battle)),
        final(battle).arena == old(battle).arena,
        only_statuses_change(old(battle).units@, final(battle).units@),
        forall|i: int|
            0 <= i < old(battle).units@.len() ==> (#[trigger] final(battle).units@[i]).statuses@ == if old(battle).units@[i].alive {
                old(battle).units@[i].statuses@.map_values(|st: crate::status::StatusInstance| extended(st))
            } else {
                old(battle).units@[i].statuses@
            },
        final(battle).audio_events@ == old(battle).audio_events@,
        final(battle).log@ == old(battle).log@,
{
    let ghost start = *battle;
    let mut i: usize = 0;
    while i < battle.units.len()
        invariant
            battle.wf(),
            start.wf(),
            i <= battle.units@.len(),
            battle.units@.len() == start.units@.len(),
            *battle == (TacticalBattle { units: battle.units, ..start }),
            only_statuses_change(start.units@, battle.units@),
            forall|j: int|
                0 <= j < battle.units@.len() ==> (#[trigger] battle.units@[j]).statuses@ == if j < i && start.units@[j].alive {
                    start.units@[j].statuses@.map_values(|st: crate::status::StatusInstance| extended(st))
                } else {
                    start.units@[j].statuses@
                },
        decreases battle.units@.len() - i,
    {
        if battle.units[i].alive {
            let mut k: usize = 0;
            let ghost before = battle.units@;
            while k < battle.units[i].statuses.len()
                invariant
                    *battle == (TacticalBattle { units: battle.units, ..start }),
                    i < battle.units@.len(),
                    battle.units@.len() == before.len(),
                    k <= battle.units@[i as int].statuses@.len(),
                    battle.units@[i as int].statuses@.len() == before[i as int].statuses@.len(),
                    battle.units@ == before.update(i as int, BattleUnit { statuses: battle.units@[i as int].statuses, ..before[i as int] }),
                    forall|q: int|
                        0 <= q < before[i as int].statuses@.len() ==> #[trigger] battle.units@[i as int].statuses@[q] == if q < k {
                            extended(before[i as int].statuses@[q])
                        } else {
                            before[i as int].statuses@[q]
                        },
                decreases battle.units@[i as int].statuses@.len() - k,
            {
                let t = battle.units[i].statuses[k].turns_left;
                battle.units[i].statuses[k].turns_left = crate::util::sat_add(t, 1);
                k += 1;
            }
            proof {
                assert(battle.units@[i as int].statuses@ =~= before[i as int].statuses@.map_values(
                    |st: crate::status::StatusInstance| extended(st),
                ));
            }
        }
        proof {
            assert forall|j: int| 0 <= j < battle.units@.len() implies #[trigger] battle.units@[j] == (BattleUnit {
                statuses: battle.units@[j].statuses,
                ..start.units@[j]
            }) by {}
            assert forall|j: int| 0 <= j < battle.units@.len() implies battle.arena.in_bounds_spec(
                #[trigger] battle.units@[j].x as int,
                battle.units@[j].y as int,
            ) by {
                assert(battle.units@[j].x == start.units@[j].x && battle.units@[j].y == start.units@[j].y);
                assert(start.arena.in_bounds_spec(start.units@[j].x as int, start.units@[j].y as int));
            }
        }
        i += 1;
    }
    let mut msgs: Vec<String> = Vec::new();
    msgs.push(String::from_str("👻 System Glitch! All status effects extended by 1 turn!"));
    msgs
}

/// The orthogonal neighbour `k` (0..4: west, east, north, south) of `(x, y)`.
fn neighbour(x: i32, y: i32, k: usize) -> (n: (i32, i32))
    requires
        -ARENA_MAX <= x <= ARENA_MAX,
        -ARENA_MAX <= y <= ARENA_MAX,
    ensures
        k == 0 ==> n.0 == x - 1 && n.1 == y,
        k == 1 ==> n.0 == x + 1 && n.1 == y,
        k == 2 ==> n.0 == x && n.1 == y - 1,
        k >= 3 ==> n.0 == x && n.1 == y + 1,
{
    if k == 0 {
        (x - 1, y)
    } else if k == 1 {
        (x + 1, y)
    } else if k == 2 {
        (x, y - 1)
    } else {
        (x, y + 1)
    }
}

/// Adds a status of kind `Wet` (3 turns) to unit `idx` unless it is wet already.
fn wet_unit(battle: &mut TacticalBattle, idx: usize, turns: i32)
    requires
        old(battle).wf(),
        idx < old(battle).units@.len(),
    ensures
        unit_frame(final(battle), old(battle)),
        final(battle).arena == old(battle).arena,
        final(battle).audio_events == old(battle).audio_events,
        final(battle).log == old(battle).log,
        only_statuses_change(old(battle).units@, final(battle).units@),
{
    if !crate::status::has_wet(&battle.units[idx].statuses) {
        spell_status(battle, idx, crate::status::StatusInstance::new(crate::status::StatusKind::Wet, turns));
    }
}

/// Coolant flood: every metal floor next to a coolant pool floods; units
/// standing on flooded tiles get wet.
fn coolant_flood(battle: &mut TacticalBattle) -> (msgs: Vec<String>)
    requires
        old(battle).wf(),
    ensures
        msgs@.len() >= 1,
        event_frame(final(battle), old(battle)),
        tiles_changed_only(&old(battle).arena, &final(battle).arena, set![BattleTile::MetalFloor], set![BattleTile::CoolantPool]),
        only_statuses_change(old(battle).units@, final(battle).units@),
        final(battle).log@ == old(battle).log@,
        forall|x: int, y: int| #[trigger] final(battle).arena.tile_spec(x, y) == flooded_tile(&old(battle).arena, x, y),
{
    let ghost start = *battle;
    let ghost from = set![BattleTile::MetalFloor];
    let ghost to = set![BattleTile::CoolantPool];
    let len = battle.arena.tiles.len();
    let w = battle.arena.width;
    proof {
        crate::combat::lemma_grid_cells(&battle.arena);
    }
    let mut new_water: Vec<(i32, i32)> = Vec::new();
    let mut i: usize = 0;
    while i < len
        invariant
            *battle == start,
            battle.wf(),
            len == battle.arena.tiles@.len(),
            w == battle.arena.width,
            len <= ARENA_MAX * ARENA_MAX,
            i <= len,
            new_water@.len() <= 4 * i,
            forall|j: int|
                0 <= j < new_water@.len() ==> start.arena.tile_spec((#[trigger] new_water@[j]).0 as int, new_water@[j].1 as int)
                    == Some(BattleTile::MetalFloor) && next_to_pool(&start.arena, new_water@[j].0 as int, new_water@[j].1 as int),
            forall|x: int, y: int|
                #[trigger] start.arena.tile_spec(x, y) == Some(BattleTile::MetalFloor) && pool_below(&start.arena, x, y, i as int)
                    ==> listed(new_water@, new_water@.len() as int, x, y),
        decreases len - i,
    {
        if battle.arena.tiles[i] == BattleTile::CoolantPool {
            proof {
                crate::combat::lemma_index_position(&battle.arena, i as int);
            }
            let x = (i % w) as i32;
            let y = (i / w) as i32;
            let ghost nw0 = new_water@;
            let mut k: usize = 0;
            while k < 4
                invariant
                    *battle == start,
                    battle.wf(),
                    0 <= x < ARENA_MAX,
                    0 <= y < ARENA_MAX,
                    k <= 4,
                    new_water@.len() <= 4 * i + k,
                    start.arena.tile_spec(x as int, y as int) == Some(BattleTile::CoolantPool),
                    nw0.len() <= new_water@.len(),
                    forall|j: int| 0 <= j < nw0.len() ==> new_water@[j] == #[trigger] nw0[j],
                    forall|j: int|
                        0 <= j < new_water@.len() ==> start.arena.tile_spec((#[trigger] new_water@[j]).0 as int, new_water@[j].1 as int)
                            == Some(BattleTile::MetalFloor) && next_to_pool(&start.arena, new_water@[j].0 as int, new_water@[j].1 as int),
                    forall|kk: int|
                        0 <= kk < k && start.arena.tile_spec(neighbour_spec(x as int, y as int, kk).0, neighbour_spec(x as int, y as int, kk).1)
                            == Some(BattleTile::MetalFloor) ==> #[trigger] listed(
                            new_water@,
                            new_water@.len() as int,
                            neighbour_spec(x as int, y as int, kk).0,
                            neighbour_spec(x as int, y as int, kk).1,
                        ),
                decreases 4 - k,
            {
                let (nx, ny) = neighbour(x, y, k);
                let ghost nwb = new_water@;
                if battle.arena.tile(nx, ny) == Some(BattleTile::MetalFloor) {
                    new_water.push((nx, ny));
                    proof {
                        assert(new_water@[nwb.len() as int] == (nx, ny));
                    }
                }
                proof {
                    assert forall|kk: int|
                        0 <= kk < k + 1 && start.arena.tile_spec(neighbour_spec(x as int, y as int, kk).0, neighbour_spec(x as int, y as int, kk).1)
                            == Some(BattleTile::MetalFloor) implies #[trigger] listed(
                            new_water@,
                            new_water@.len() as int,
                            neighbour_spec(x as int, y as int, kk).0,
                            neighbour_spec(x as int, y as int, kk).1,
                        ) by {
                        if kk < k {
                            let n = neighbour_spec(x as int, y as int, kk);
                            assert(listed(nwb, nwb.len() as int, n.0, n.1));
                            let jj = choose|jj: int| 0 <= jj < nwb.len() && (#[trigger] nwb[jj]).0 == n.0 && nwb[jj].1 == n.1;
                            assert(new_water@[jj] == nwb[jj]);
                        } else {
                            assert(new_water@[nwb.len() as int] == (nx, ny));
                        }
                    }
                }
                k += 1;
            }
            proof {
                let px = x as int;
                let py = y as int;
                assert forall|xx: int, yy: int|
                    #[trigger] start.arena.tile_spec(xx, yy) == Some(BattleTile::MetalFloor) && pool_below(&start.arena, xx, yy, i + 1)
                        implies listed(new_water@, new_water@.len() as int, xx, yy) by {
                    if pool_below(&start.arena, xx, yy, i as int) {
                        assert(listed(nw0, nw0.len() as int, xx, yy));
                        let jj = choose|jj: int| 0 <= jj < nw0.len() && (#[trigger] nw0[jj]).0 == xx && nw0[jj].1 == yy;
                        assert(new_water@[jj] == nw0[jj]);
                    } else {
                        lemma_pool_at_index(&start.arena, xx, yy, i as int, px, py);
                        if xx == px + 1 && yy == py {
                            assert(neighbour_spec(px, py, 1) == (xx, yy));
                            assert(listed(new_water@, new_water@.len() as int, neighbour_spec(px, py, 1).0, neighbour_spec(px, py, 1).1));
                        } else if xx == px - 1 && yy == py {
                            assert(neighbour_spec(px, py, 0) == (xx, yy));
                            assert(listed(new_water@, new_water@.len() as int, neighbour_spec(px, py, 0).0, neighbour_spec(px, py, 0).1));
                        } else if xx == px && yy == py + 1 {
                            assert(neighbour_spec(px, py, 3) == (xx, yy));
                            assert(listed(new_water@, new_water@.len() as int, neighbour_spec(px, py, 3).0, neighbour_spec(px, py, 3).1));
                        } else {
                            assert(neighbour_spec(px, py, 2) == (xx, yy));
                            assert(listed(new_water@, new_water@.len() as int, neighbour_spec(px, py, 2).0, neighbour_spec(px, py, 2).1));
                        }
                    }
                }
            }
        } else {
            proof {
                assert forall|xx: int, yy: int|
                    #[trigger] start.arena.tile_spec(xx, yy) == Some(BattleTile::MetalFloor) && pool_below(&start.arena, xx, yy, i + 1)
                        implies listed(new_water@, new_water@.len() as int, xx, yy) by {
                    assert(pool_below(&start.arena, xx, yy, i as int));
                }
            }
        }
        i += 1;
    }
    proof {
        assert forall|xx: int, yy: int|
            #[trigger] start.arena.tile_spec(xx, yy) == Some(BattleTile::MetalFloor) && next_to_pool(&start.arena, xx, yy)
                implies listed(new_water@, new_water@.len() as int, xx, yy) by {
            lemma_pool_below_all(&start.arena, xx, yy);
        }
    }
    let mut k: usize = 0;
    while k < new_water.len()
        invariant
            battle.wf(),
            *battle == (TacticalBattle { arena: battle.arena, ..start }),
            tiles_changed_only(&start.arena, &battle.arena, from, to),
            from == set![BattleTile::MetalFloor],
            to == set![BattleTile::CoolantPool],
            k <= new_water@.len(),
            forall|j: int|
                0 <= j < new_water@.len() ==> start.arena.tile_spec((#[trigger] new_water@[j]).0 as int, new_water@[j].1 as int)
                    == Some(BattleTile::MetalFloor) && next_to_pool(&start.arena, new_water@[j].0 as int, new_water@[j].1 as int),
            forall|x: int, y: int|
                #[trigger] battle.arena.tile_spec(x, y) == if start.arena.tile_spec(x, y) == Some(BattleTile::MetalFloor) && listed(
                    new_water@,
                    k as int,
                    x,
                    y,
                ) {
                    Some(BattleTile::CoolantPool)
                } else {
                    start.arena.tile_spec(x, y)
                },
        decreases new_water@.len() - k,
    {
        let (wx, wy) = new_water[k];
        let ghost before = battle.arena;
        let _ = replace_tile(battle, wx, wy, BattleTile::MetalFloor, BattleTile::CoolantPool, Ghost(start.arena), Ghost(from), Ghost(to));
        proof {
            assert forall|x: int, y: int|
                #[trigger] battle.arena.tile_spec(x, y) == if start.arena.tile_spec(x, y) == Some(BattleTile::MetalFloor) && listed(
                    new_water@,
                    k + 1,
                    x,
                    y,
                ) {
                    Some(BattleTile::CoolantPool)
                } else {
                    start.arena.tile_spec(x, y)
                } by {
                assert(before.tile_spec(x, y) == if start.arena.tile_spec(x, y) == Some(BattleTile::MetalFloor) && listed(
                    new_water@,
                    k as int,
                    x,
                    y,
                ) {
                    Some(BattleTile::CoolantPool)
                } else {
                    start.arena.tile_spec(x, y)
                });
                assert(before.tile_spec(wx as int, wy as int) == if start.arena.tile_spec(wx as int, wy as int) == Some(BattleTile::MetalFloor) && listed(
                    new_water@,
                    k as int,
                    wx as int,
                    wy as int,
                ) {
                    Some(BattleTile::CoolantPool)
                } else {
                    start.arena.tile_spec(wx as int, wy as int)
                });
                if x == wx && y == wy {
                    assert(new_water@[k as int] == (wx, wy));
                    assert(listed(new_water@, k + 1, x, y));
                } else if listed(new_water@, k + 1, x, y) {
                    let jj = choose|jj: int| 0 <= jj < k + 1 && (#[trigger] new_water@[jj]).0 == x && new_water@[jj].1 == y;
                    assert(jj != k);
                    assert(listed(new_water@, k as int, x, y));
                } else {
                    if listed(new_water@, k as int, x, y) {
                        let jj = choose|jj: int| 0 <= jj < k && (#[trigger] new_water@[jj]).0 == x && new_water@[jj].1 == y;
                        assert(listed(new_water@, k + 1, x, y));
                    }
                }
            }
        }
        k += 1;
    }
    proof {
        assert forall|x: int, y: int| #[trigger] battle.arena.tile_spec(x, y) == flooded_tile(&start.arena, x, y) by {
            if start.arena.tile_spec(x, y) == Some(BattleTile::MetalFloor) && listed(new_water@, new_water@.len() as int, x, y) {
                let jj = choose|jj: int| 0 <= jj < new_water@.len() && (#[trigger] new_water@[jj]).0 == x && new_water@[jj].1 == y;
                assert(next_to_pool(&start.arena, new_water@[jj].0 as int, new_water@[jj].1 as int));
            }
        }
    }
    let ghost mid = *battle;
    let mut k: usize = 0;
    while k < new_water.len()
        invariant
            battle.wf(),
            mid.wf(),
            battle.arena == mid.arena,
            battle.units@.len() == mid.units@.len(),
            *battle == (TacticalBattle { units: battle.units, ..mid }),
            only_statuses_change(mid.units@, battle.units@),
            mid.units@ == start.units@,
            k <= new_water@.len(),
        decreases new_water@.len() - k,
    {
        let (wx, wy) = new_water[k];
        if let Some(idx) = battle.unit_at(wx, wy) {
            if battle.units[idx].alive {
                let ghost before = battle.units@;
                wet_unit(battle, idx, 3);
                proof {
                    assert forall|j: int| 0 <= j < mid.units@.len() implies #[trigger] battle.units@[j] == (BattleUnit {
                        statuses: battle.units@[j].statuses,
                        ..mid.units@[j]
                    }) by {
                        assert(before[j] == (BattleUnit { statuses: before[j].statuses, ..mid.units@[j] }));
                    }
                }
            }
        }
        k += 1;
    }
    let mut msgs: Vec<String> = Vec::new();
    if new_water.len() > 0 {
        msgs.push(with_int("🌊 Coolant Flood! ", new_water.len() as i64, " tiles flooded!"));
        battle.audio_events.push(AudioEvent::WaterSplash);
    } else {
        msgs.push(String::from_str("🌊 Coolant Flood! But no tiles to flood."));
    }
    msgs
}

/// The tile `(x, y)` would reach from the cell at `k` in 0..4: left, right,
/// above, below.
pub open spec fn neighbour_spec(x: int, y: int, k: int) -> (int, int) {
    if k == 0 {
        (x - 1, y)
    } else if k == 1 {
        (x + 1, y)
    } else if k == 2 {
        (x, y - 1)
    } else {
        (x, y + 1)
    }
}

/// Whether a tile beside `(x, y)` (left, right, above or below) is a coolant pool.
pub open spec fn next_to_pool(a: &TacticalArena, x: int, y: int) -> bool {
    ||| a.tile_spec(x - 1, y) == Some(BattleTile::CoolantPool)
    ||| a.tile_spec(x + 1, y) == Some(BattleTile::CoolantPool)
    ||| a.tile_spec(x, y - 1) == Some(BattleTile::CoolantPool)
    ||| a.tile_spec(x, y + 1) == Some(BattleTile::CoolantPool)
}

/// The tile at `(x, y)` after a coolant flood of `a`: metal floor beside a
/// pool floods, everything else stays.
pub open spec fn flooded_tile(a: &TacticalArena, x: int, y: int) -> Option<BattleTile> {
    if a.tile_spec(x, y) == Some(BattleTile::MetalFloor) && next_to_pool(a, x, y) {
        Some(BattleTile::CoolantPool)
    } else {
        a.tile_spec(x, y)
    }
}

/// `next_to_pool`, counting only pools stored before index `i`.
pub open spec fn pool_below(a: &TacticalArena, x: int, y: int, i: int) -> bool {
    ||| a.tile_spec(x - 1, y) == Some(BattleTile::CoolantPool) && a.index_of(x - 1, y) < i
    ||| a.tile_spec(x + 1, y) == Some(BattleTile::CoolantPool) && a.index_of(x + 1, y) < i
    ||| a.tile_spec(x, y - 1) == Some(BattleTile::CoolantPool) && a.index_of(x, y - 1) < i
    ||| a.tile_spec(x, y + 1) == Some(BattleTile::CoolantPool) && a.index_of(x, y + 1) < i
}

/// Whether `(x, y)` is among the first `k` of `spots`.
pub open spec fn listed(spots: Seq<(i32, i32)>, k: int, x: int, y: int) -> bool {
    exists|j: int| 0 <= j < k && (#[trigger] spots[j]).0 == x && spots[j].1 == y
}

/// A pool beside `(x, y)` stored at index `i` is the cell `(px, py)` there.
proof fn lemma_pool_at_index(a: &TacticalArena, x: int, y: int, i: int, px: int, py: int)
    requires
        a.wf(),
        pool_below(a, x, y, i + 1),
        !pool_below(a, x, y, i),
        0 <= i < a.tiles@.len(),
        px == i % (a.width as int),
        py == i / (a.width as int),
        a.in_bounds_spec(px, py),
        a.index_of(px, py) == i,
    ensures
        (x == px + 1 && y == py) || (x == px - 1 && y == py) || (x == px && y == py + 1) || (x == px && y == py - 1),
{
    if a.tile_spec(x - 1, y) == Some(BattleTile::CoolantPool) && a.index_of(x - 1, y) == i {
        if x - 1 != px || y != py {
            crate::combat::lemma_index_injective(a, x - 1, y, px, py);
        }
    } else if a.tile_spec(x + 1, y) == Some(BattleTile::CoolantPool) && a.index_of(x + 1, y) == i {
        if x + 1 != px || y != py {
            crate::combat::lemma_index_injective(a, x + 1, y, px, py);
        }
    } else if a.tile_spec(x, y - 1) == Some(BattleTile::CoolantPool) && a.index_of(x, y - 1) == i {
        if x != px || y - 1 != py {
            crate::combat::lemma_index_injective(a, x, y - 1, px, py);
        }
    } else {
        if x != px || y + 1 != py {
            crate::combat::lemma_index_injective(a, x, y + 1, px, py);
        }
    }
}

/// Every pool of the grid is stored before the end of the grid.
proof fn lemma_pool_below_all(a: &TacticalArena, x: int, y: int)
    requires
        a.wf(),
        next_to_pool(a, x, y),
    ensures
        pool_below(a, x, y, a.tiles@.len() as int),
{
    if a.in_bounds_spec(x - 1, y) {
        crate::combat::lemma_index_in_grid(a, x - 1, y);
    }
    if a.in_bounds_spec(x + 1, y) {
        crate::combat::lemma_index_in_grid(a, x + 1, y);
    }
    if a.in_bounds_spec(x, y - 1) {
        crate::combat::lemma_index_in_grid(a, x, y - 1);
    }
    if a.in_bounds_spec(x, y + 1) {
        crate::combat::lemma_index_in_grid(a, x, y + 1);
    }
}

/// How many of `tiles` are `t`.
pub open spec fn count_tiles(tiles: Seq<BattleTile>, t: BattleTile) -> int
    decreases tiles.len(),
{
    if tiles.len() == 0 {
        0
    } else {
        count_tiles(tiles.drop_last(), t) + if tiles.last() == t { 1int } else { 0int }
    }
}

/// The statuses of `u` after a cryo vent: a living unit that is wet and not
/// yet slowed gains Slow for 2 turns.
pub open spec fn frozen_statuses(u: BattleUnit) -> Seq<crate::status::StatusInstance> {
    let wet = exists|k: int| 0 <= k < u.statuses@.len() && crate::status::is_wet(#[trigger] u.statuses@[k]);
    let slow = exists|k: int| 0 <= k < u.statuses@.len() && crate::status::is_slow(#[trigger] u.statuses@[k]);
    if u.alive && wet && !slow {
        u.statuses@.push(crate::status::StatusInstance { kind: crate::status::StatusKind::Slow, turns_left: 2, fresh: true })
    } else {
        u.statuses@
    }
}

/// Cryo vent: every coolant pool freezes; wet living units that are not
/// slowed yet are slowed for 2 turns.
fn cryo_vent(battle: &mut TacticalBattle) -> (msgs: Vec<String>)
    requires
        old(battle).wf(),
    ensures
        msgs@.len() >= 1,
        event_frame(final(battle), old(battle)),
        final(battle).arena.same_shape(&old(battle).arena),
        final(battle).arena.steam_timers@ == old(battle).arena.steam_timers@,
        forall|i: int|
            0 <= i < old(battle).arena.tiles@.len() ==> #[trigger] final(battle).arena.tiles@[i] == if old(battle).arena.tiles@[i]
                == BattleTile::CoolantPool {
                BattleTile::FrozenCoolant
            } else {
                old(battle).arena.tiles@[i]
            },
        only_statuses_change(old(battle).units@, final(battle).units@),
        forall|i: int|
            0 <= i < old(battle).units@.len() ==> (#[trigger] final(battle).units@[i]).statuses@ == frozen_statuses(old(battle).units@[i]),
        final(battle).log@ == old(battle).log@,
        msgs@.last()@ == "❄ Cryo Vent! "@ + decimal(count_tiles(old(battle).arena.tiles@, BattleTile::CoolantPool))
            + " coolant tiles freeze!"@,
{
    let ghost start = *battle;
    let len = battle.arena.tiles.len();
    proof {
        crate::combat::lemma_grid_cells(&battle.arena);
    }
    let mut frozen_count: i64 = 0;
    let mut i: usize = 0;
    while i < len
        invariant
            battle.wf(),
            len == start.arena.tiles@.len(),
            battle.arena.same_shape(&start.arena),
            battle.arena.steam_timers@ == start.arena.steam_timers@,
            *battle == (TacticalBattle { arena: battle.arena, ..start }),
            i <= len,
            len <= ARENA_MAX * ARENA_MAX,
            0 <= frozen_count <= i,
            frozen_count == count_tiles(start.arena.tiles@.take(i as int), BattleTile::CoolantPool),
            forall|j: int| 0 <= j < len ==> #[trigger] battle.arena.tiles@[j] == if j < i && start.arena.tiles@[j] == BattleTile::CoolantPool {
                BattleTile::FrozenCoolant
            } else {
                start.arena.tiles@[j]
            },
        decreases len - i,
    {
        proof {
            assert(start.arena.tiles@.take(i + 1).drop_last() =~= start.arena.tiles@.take(i as int));
            assert(start.arena.tiles@.take(i + 1).last() == start.arena.tiles@[i as int]);
        }
        if battle.arena.tiles[i] == BattleTile::CoolantPool {
            battle.arena.tiles.set(i, BattleTile::FrozenCoolant);
            frozen_count += 1;
        }
        i += 1;
    }
    assert(start.arena.tiles@.take(len as int) =~= start.arena.tiles@);
    let ghost mid = *battle;
    let mut msgs: Vec<String> = Vec::new();
    let mut i: usize = 0;
    while i < battle.units.len()
        invariant
            battle.wf(),
            mid.wf(),
            i <= battle.units@.len(),
            battle.units@.len() == mid.units@.len(),
            mid.units@ == start.units@,
            *battle == (TacticalBattle { units: battle.units, audio_events: battle.audio_events, ..mid }),
            only_statuses_change(mid.units@, battle.units@),
            frozen_count == count_tiles(start.arena.tiles@, BattleTile::CoolantPool),
            forall|j: int|
                0 <= j < battle.units@.len() ==> (#[trigger] battle.units@[j]).statuses@ == {
                    let u = start.units@[j];
                    let wet = exists|k: int| 0 <= k < u.statuses@.len() && crate::status::is_wet(#[trigger] u.statuses@[k]);
                    let slow = exists|k: int| 0 <= k < u.statuses@.len() && crate::status::is_slow(#[trigger] u.statuses@[k]);
                    if j < i && u.alive && wet && !slow {
                        u.statuses@.push(crate::status::StatusInstance { kind: crate::status::StatusKind::Slow, turns_left: 2, fresh: true })
                    } else {
                        u.statuses@
                    }
                },
        decreases battle.units@.len() - i,
    {
        if battle.units[i].alive && crate::status::has_wet(&battle.units[i].statuses) && !crate::status::has_slow(&battle.units[i].statuses) {
            let ghost before = battle.units@;
            spell_status(battle, i, crate::status::StatusInstance::new(crate::status::StatusKind::Slow, 2));
            let mut m = String::from_str("❄ ");
            if battle.units[i].is_player() {
                m.append("You");
            } else {
                m.append(battle.units[i].hanzi);
            }
            m.append(" is frozen stiff! Slowed!");
            msgs.push(m);
            battle.audio_events.push(AudioEvent::StatusSlow);
            proof {
                assert forall|j: int| 0 <= j < mid.units@.len() implies #[trigger] battle.units@[j] == (BattleUnit {
                    statuses: battle.units@[j].statuses,
                    ..mid.units@[j]
                }) by {
                    assert(before[j] == (BattleUnit { statuses: before[j].statuses, ..mid.units@[j] }));
                }
            }
        }
        i += 1;
    }
    msgs.push(with_int("❄ Cryo Vent! ", frozen_count, " coolant tiles freeze!"));
    msgs
}

/// One step in vent-blast direction `d` (0 north, 1 south, 2 west, 3 east).
pub open spec fn blast_dir(d: int) -> (int, int) {
    if d == 0 {
        (0, -1)
    } else if d == 1 {
        (0, 1)
    } else if d == 2 {
        (-1, 0)
    } else {
        (1, 0)
    }
}

/// Vent blast: a random direction; every living unit whose next tile that
/// way is inside the arena, walkable and free is blown onto it (when two
/// units would land on one tile, the first one moves).
fn vent_blast(battle: &mut TacticalBattle, rng: &mut Rng) -> (msgs: Vec<String>)
    requires
        old(battle).wf(),
    ensures
        msgs@.len() >= 1,
        event_frame(final(battle), old(battle)),
        final(battle).arena == old(battle).arena,
        ({
            let d = blast_dir(range_value(final(rng)@, 0, 4));
            forall|i: int|
                0 <= i < old(battle).units@.len() ==> {
                    let u = old(battle).units@[i];
                    let v = #[trigger] final(battle).units@[i];
                    v == u || (u.alive && v == crate::combat::tick::moved_to(u, u.x + d.0, u.y + d.1) && walkable_at(
                        &old(battle).arena,
                        u.x + d.0,
                        u.y + d.1,
                    ))
                }
        }),
        final(battle).audio_events@ == old(battle).audio_events@,
        final(battle).log@ == old(battle).log@,
        final(rng)@ == xorshift(old(rng)@),
{
    let ghost start = *battle;
    let dir_idx = rng.range(0, 4);
    let (dx, dy): (i32, i32) = if dir_idx == 0 {
        (0, -1)
    } else if dir_idx == 1 {
        (0, 1)
    } else if dir_idx == 2 {
        (-1, 0)
    } else {
        (1, 0)
    };
    let dir_name = if dir_idx == 0 {
        "north"
    } else if dir_idx == 1 {
        "south"
    } else if dir_idx == 2 {
        "west"
    } else {
        "east"
    };
    let mut pushes: Vec<(usize, i32, i32)> = Vec::new();
    let mut idx: usize = 0;
    while idx < battle.units.len()
        invariant
            *battle == start,
            battle.wf(),
            idx <= battle.units@.len(),
            dx == blast_dir(range_value(rng@, 0, 4)).0,
            dy == blast_dir(range_value(rng@, 0, 4)).1,
            forall|k: int|
                0 <= k < pushes@.len() ==> {
                    let p = #[trigger] pushes@[k];
                    let u = start.units@[p.0 as int];
                    &&& p.0 < start.units@.len()
                    &&& u.alive
                    &&& p.1 == u.x + dx && p.2 == u.y + dy
                    &&& walkable_at(&start.arena, p.1 as int, p.2 as int)
                },
            forall|k1: int, k2: int| 0 <= k1 < k2 < pushes@.len() ==> (#[trigger] pushes@[k1]).0 < (#[trigger] pushes@[k2]).0,
            forall|k: int| 0 <= k < pushes@.len() ==> (#[trigger] pushes@[k]).0 < idx,
        decreases battle.units@.len() - idx,
    {
        if battle.units[idx].alive {
            proof {
                assert(battle.arena.in_bounds_spec(battle.units@[idx as int].x as int, battle.units@[idx as int].y as int));
            }
            let nx = battle.units[idx].x + dx;
            let ny = battle.units[idx].y + dy;
            let ok = match battle.arena.tile(nx, ny) {
                Some(t) => t.is_walkable(),
                None => false,
            };
            if ok && battle.unit_at(nx, ny).is_none() {
                pushes.push((idx, nx, ny));
            }
        }
        idx += 1;
    }
    let mut valid: Vec<(usize, i32, i32)> = Vec::new();
    let mut k: usize = 0;
    while k < pushes.len()
        invariant
            k <= pushes@.len(),
            forall|q: int|
                0 <= q < valid@.len() ==> exists|r: int| 0 <= r < k && #[trigger] valid@[q] == #[trigger] pushes@[r],
            forall|q1: int, q2: int| 0 <= q1 < q2 < valid@.len() ==> (#[trigger] valid@[q1]).0 < (#[trigger] valid@[q2]).0,
            forall|q: int| 0 <= q < valid@.len() ==> exists|r: int| 0 <= r < k && (#[trigger] valid@[q]).0 == pushes@[r].0,
            forall|k1: int, k2: int| 0 <= k1 < k2 < pushes@.len() ==> (#[trigger] pushes@[k1]).0 < (#[trigger] pushes@[k2]).0,
            forall|q: int, r: int| 0 <= q < valid@.len() && k <= r < pushes@.len() ==> (#[trigger] valid@[q]).0 < (#[trigger] pushes@[r]).0,
        decreases pushes@.len() - k,
    {
        let (pi, nx, ny) = pushes[k];
        let mut conflict = false;
        let mut q: usize = 0;
        while q < valid.len()
            invariant
                q <= valid@.len(),
            decreases valid@.len() - q,
        {
            let (_, ox, oy) = valid[q];
            if ox == nx && oy == ny {
                conflict = true;
            }
            q += 1;
        }
        if !conflict {
            let ghost before = valid@;
            valid.push((pi, nx, ny));
            proof {
                assert forall|q: int| 0 <= q < valid@.len() implies exists|r: int| 0 <= r < k + 1 && #[trigger] valid@[q] == #[trigger] pushes@[r] by {
                    if q < before.len() {
                        let r = choose|r: int| 0 <= r < k && before[q] == pushes@[r];
                        assert(valid@[q] == pushes@[r]);
                    } else {
                        assert(valid@[q] == pushes@[k as int]);
                    }
                }
                assert forall|q: int| 0 <= q < valid@.len() implies exists|r: int| 0 <= r < k + 1 && (#[trigger] valid@[q]).0 == pushes@[r].0 by {
                    if q < before.len() {
                        let r = choose|r: int| 0 <= r < k && before[q] == pushes@[r];
                        assert(valid@[q].0 == pushes@[r].0);
                    } else {
                        assert(valid@[q].0 == pushes@[k as int].0);
                    }
                }
            }
        }
        k += 1;
    }
    let ghost mid = *battle;
    let mut k: usize = 0;
    while k < valid.len()
        invariant
            battle.wf(),
            start.wf(),
            k <= valid@.len(),
            battle.units@.len() == start.units@.len(),
            *battle == (TacticalBattle { units: battle.units, ..start }),
            dx == blast_dir(range_value(rng@, 0, 4)).0,
            dy == blast_dir(range_value(rng@, 0, 4)).1,
            forall|q: int|
                0 <= q < valid@.len() ==> {
                    let p = #[trigger] valid@[q];
                    let u = start.units@[p.0 as int];
                    &&& p.0 < start.units@.len()
                    &&& u.alive
                    &&& p.1 == u.x + dx && p.2 == u.y + dy
                    &&& walkable_at(&start.arena, p.1 as int, p.2 as int)
                },
            forall|q1: int, q2: int| 0 <= q1 < q2 < valid@.len() ==> (#[trigger] valid@[q1]).0 < (#[trigger] valid@[q2]).0,
            forall|j: int|
                0 <= j < start.units@.len() ==> {
                    let u = start.units@[j];
                    let v = #[trigger] battle.units@[j];
                    v == u || (u.alive && v == crate::combat::tick::moved_to(u, u.x + dx, u.y + dy) && walkable_at(
                        &start.arena,
                        u.x + dx,
                        u.y + dy,
                    ))
                },
            forall|j: int| 0 <= j < start.units@.len() ==> (forall|q: int| k <= q < valid@.len() ==> (#[trigger] valid@[q]).0 != j) || #[trigger] battle.units@[j] == start.units@[j],
        decreases valid@.len() - k,
    {
        proof {
            assert forall|q: int|
                0 <= q < valid@.len() implies {
                    let p = #[trigger] valid@[q];
                    let u = start.units@[p.0 as int];
                    &&& p.0 < start.units@.len()
                    &&& u.alive
                    &&& p.1 == u.x + dx && p.2 == u.y + dy
                    &&& walkable_at(&start.arena, p.1 as int, p.2 as int)
                } by {
            }
        }
        let (pi, nx, ny) = valid[k];
        let ghost before = battle.units@;
        battle.units[pi].x = nx;
        battle.units[pi].y = ny;
        proof {
            assert(before[pi as int] == start.units@[pi as int]);
            assert forall|j: int| 0 <= j < battle.units@.len() implies battle.arena.in_bounds_spec(
                #[trigger] battle.units@[j].x as int,
                battle.units@[j].y as int,
            ) by {
                if j != pi {
                    assert(battle.units@[j] == before[j]);
                }
            }
        }
        k += 1;
    }
    let mut msgs: Vec<String> = Vec::new();
    let mut m = String::from_str("💨 Vent Blast blows everyone ");
    m.append(dir_name);
    m.append("!");
    msgs.push(m);
    msgs
}

/// Deals `dmg` to unit `idx`; hit points and life are all that change.
fn hurt(battle: &mut TacticalBattle, idx: usize, dmg: i32) -> (actual: i32)
    requires
        old(battle).wf(),
        idx < old(battle).units@.len(),
    ensures
        final(battle).wf(),
        final(battle).units@.len() == old(battle).units@.len(),
        only_hp_changes(old(battle).units@, final(battle).units@),
        *final(battle) == (TacticalBattle { units: final(battle).units, ..*old(battle) }),
{
    let ghost start = *battle;
    let actual = deal_damage(battle, idx, dmg);
    proof {
        keep_bounds(&start, battle, idx as int);
    }
    actual
}

/// "You" for the player, the unit's glyph otherwise.
fn unit_name(u: &BattleUnit) -> String {
    if u.is_player() {
        String::from_str("You")
    } else {
        String::from_str(u.hanzi)
    }
}

/// Arc discharge: strikes a random tile (re-rolled up to 20 times until it
/// is walkable) for 3 damage to a unit there, and chains for 2 to units on
/// coolant pools next to it.
fn arc_discharge(battle: &mut TacticalBattle, rng: &mut Rng) -> (msgs: Vec<String>)
    requires
        old(battle).wf(),
    ensures
        msgs@.len() >= 1,
        event_frame(final(battle), old(battle)),
        final(battle).arena == old(battle).arena,
        only_hp_changes(old(battle).units@, final(battle).units@),
        final(battle).audio_events@ == old(battle).audio_events@,
        final(battle).log@ == old(battle).log@,
{
    let ghost start = *battle;
    let w = battle.arena.width as i32;
    let h = battle.arena.height as i32;
    let mut target_x = rng.range(0, w);
    let mut target_y = rng.range(0, h);
    let mut tries: u32 = 0;
    while tries < 20
        invariant
            0 <= target_x < w,
            0 <= target_y < h,
            w == start.arena.width,
            h == start.arena.height,
            1 <= w <= ARENA_MAX,
            1 <= h <= ARENA_MAX,
            *battle == start,
            battle.wf(),
        decreases 20 - tries,
    {
        let ok = match battle.arena.tile(target_x, target_y) {
            Some(t) => t.is_walkable(),
            None => false,
        };
        if ok {
            break;
        }
        target_x = rng.range(0, w);
        target_y = rng.range(0, h);
        tries += 1;
    }
    let mut msgs: Vec<String> = Vec::new();
    let mut m = String::from_str("⚡ Arc discharge at (");
    crate::text::push_int(&mut m, target_x as i64);
    m.append(",");
    crate::text::push_int(&mut m, target_y as i64);
    m.append(")!");
    if let Some(idx) = battle.unit_at(target_x, target_y) {
        let actual = hurt(battle, idx, 3);
        m.append(" ");
        let name = unit_name(&battle.units[idx]);
        m.append(name.as_str());
        m.append(" takes ");
        crate::text::push_int(&mut m, actual as i64);
        m.append(" damage!");
    }
    msgs.push(m);
    let mut k: usize = 0;
    while k < 4
        invariant
            battle.wf(),
            start.wf(),
            battle.units@.len() == start.units@.len(),
            only_hp_changes(start.units@, battle.units@),
            *battle == (TacticalBattle { units: battle.units, ..start }),
            msgs@.len() >= 1,
            0 <= target_x < ARENA_MAX,
            0 <= target_y < ARENA_MAX,
            k <= 4,
        decreases 4 - k,
    {
        let (cx, cy) = neighbour(target_x, target_y, k);
        if battle.arena.tile(cx, cy) == Some(BattleTile::CoolantPool) {
            if let Some(idx) = battle.unit_at(cx, cy) {
                let ghost before = battle.units@;
                let actual = hurt(battle, idx, 2);
                proof {
                    assert forall|j: int| 0 <= j < start.units@.len() implies #[trigger] battle.units@[j] == (BattleUnit {
                        hp: battle.units@[j].hp,
                        alive: battle.units@[j].alive,
                        ..start.units@[j]
                    }) by {
                        assert(before[j] == (BattleUnit { hp: before[j].hp, alive: before[j].alive, ..start.units@[j] }));
                    }
                }
                let mut c = String::from_str("⚡ Arc chains through coolant! ");
                let name = unit_name(&battle.units[idx]);
                c.append(name.as_str());
                c.append(" takes ");
                crate::text::push_int(&mut c, actual as i64);
                c.append(" damage!");
                msgs.push(c);
            }
        }
        k += 1;
    }
    msgs
}

/// Plasma leak: 2 or 3 random edge tiles; metal floor or wiring there turns
/// to plasma, burning a unit standing on it for 2.
fn plasma_leak(battle: &mut TacticalBattle, rng: &mut Rng) -> (msgs: Vec<String>)
    requires
        old(battle).wf(),
    ensures
        msgs@.len() >= 1,
        event_frame(final(battle), old(battle)),
        tiles_changed_only(
            &old(battle).arena,
            &final(battle).arena,
            set![BattleTile::MetalFloor, BattleTile::WiringPanel],
            set![BattleTile::PlasmaPool],
        ),
        only_hp_changes(old(battle).units@, final(battle).units@),
        final(battle).audio_events@ == old(battle).audio_events@.push(AudioEvent::LavaRumble),
        final(battle).log@ == old(battle).log@,
{
    let ghost start = *battle;
    let ghost from = set![BattleTile::MetalFloor, BattleTile::WiringPanel];
    let ghost to = set![BattleTile::PlasmaPool];
    let w = battle.arena.width as i32;
    let h = battle.arena.height as i32;
    let count = rng.range(2, 4);
    let mut placed: i64 = 0;
    let mut msgs: Vec<String> = Vec::new();
    let mut k: i32 = 0;
    while k < count
        invariant
            battle.wf(),
            start.wf(),
            battle.units@.len() == start.units@.len(),
            only_hp_changes(start.units@, battle.units@),
            *battle == (TacticalBattle { units: battle.units, arena: battle.arena, ..start }),
            tiles_changed_only(&start.arena, &battle.arena, from, to),
            from == set![BattleTile::MetalFloor, BattleTile::WiringPanel],
            to == set![BattleTile::PlasmaPool],
            w == battle.arena.width,
            h == battle.arena.height,
            0 <= k,
            count <= 3,
            0 <= placed <= k,
        decreases count - k,
    {
        let edge = rng.range(0, 4);
        let (x, y) = if edge == 0 {
            (rng.range(0, w), 0)
        } else if edge == 1 {
            (rng.range(0, w), h - 1)
        } else if edge == 2 {
            (0, rng.range(0, h))
        } else {
            (w - 1, rng.range(0, h))
        };
        let t = battle.arena.tile(x, y);
        if t == Some(BattleTile::MetalFloor) || t == Some(BattleTile::WiringPanel) {
            let expect = if t == Some(BattleTile::MetalFloor) { BattleTile::MetalFloor } else { BattleTile::WiringPanel };
            let _ = replace_tile(battle, x, y, expect, BattleTile::PlasmaPool, Ghost(start.arena), Ghost(from), Ghost(to));
            placed += 1;
            if let Some(idx) = battle.unit_at(x, y) {
                let ghost before = battle.units@;
                let actual = hurt(battle, idx, 2);
                proof {
                    assert forall|j: int| 0 <= j < start.units@.len() implies #[trigger] battle.units@[j] == (BattleUnit {
                        hp: battle.units@[j].hp,
                        alive: battle.units@[j].alive,
                        ..start.units@[j]
                    }) by {
                        assert(before[j] == (BattleUnit { hp: before[j].hp, alive: before[j].alive, ..start.units@[j] }));
                    }
                }
                let mut m = String::from_str("🌋 ");
                let name = unit_name(&battle.units[idx]);
                m.append(name.as_str());
                m.append(" is caught in plasma! ");
                crate::text::push_int(&mut m, actual as i64);
                m.append(" damage!");
                msgs.push(m);
            }
        }
        k += 1;
    }
    msgs.push(with_int("🌋 Plasma Leak! ", placed, " tiles erupt at the edges!"));
    battle.audio_events.push(AudioEvent::LavaRumble);
    msgs
}

/// Nanite spread: wiring panels spread onto neighbouring metal floor (40%
/// per neighbour) and free wiring panels tangle into pipes (15%).
fn nanite_spread(battle: &mut TacticalBattle, rng: &mut Rng) -> (msgs: Vec<String>)
    requires
        old(battle).wf(),
    ensures
        msgs@.len() >= 1,
        event_frame(final(battle), old(battle)),
        final(battle).units@ == old(battle).units@,
        tiles_changed_only(
            &old(battle).arena,
            &final(battle).arena,
            set![BattleTile::MetalFloor, BattleTile::WiringPanel],
            set![BattleTile::WiringPanel, BattleTile::PipeTangle],
        ),
        final(battle).audio_events@ == old(battle).audio_events@,
        final(battle).log@ == old(battle).log@,
{
    let ghost start = *battle;
    let ghost from = set![BattleTile::MetalFloor, BattleTile::WiringPanel];
    let ghost to = set![BattleTile::WiringPanel, BattleTile::PipeTangle];
    let len = battle.arena.tiles.len();
    let w = battle.arena.width;
    proof {
        crate::combat::lemma_grid_cells(&battle.arena);
    }
    let mut new_grass: Vec<(i32, i32)> = Vec::new();
    let mut i: usize = 0;
    while i < len
        invariant
            *battle == start,
            battle.wf(),
            len == battle.arena.tiles@.len(),
            w == battle.arena.width,
            len <= ARENA_MAX * ARENA_MAX,
            i <= len,
            new_grass@.len() <= 4 * i,
        decreases len - i,
    {
        if battle.arena.tiles[i] == BattleTile::WiringPanel {
            proof {
                crate::combat::lemma_index_position(&battle.arena, i as int);
            }
            let x = (i % w) as i32;
            let y = (i / w) as i32;
            let mut k: usize = 0;
            while k < 4
                invariant
                    *battle == start,
                    battle.wf(),
                    0 <= x < ARENA_MAX,
                    0 <= y < ARENA_MAX,
                    k <= 4,
                    new_grass@.len() <= 4 * i + k,
                decreases 4 - k,
            {
                let (nx, ny) = neighbour(x, y, k);
                if battle.arena.tile(nx, ny) == Some(BattleTile::MetalFloor) && rng.range(0, 100) < 40 {
                    new_grass.push((nx, ny));
                }
                k += 1;
            }
        }
        i += 1;
    }
    let mut upgrades: Vec<(i32, i32)> = Vec::new();
    let mut i: usize = 0;
    while i < len
        invariant
            *battle == start,
            battle.wf(),
            len == battle.arena.tiles@.len(),
            w == battle.arena.width,
            len <= ARENA_MAX * ARENA_MAX,
            i <= len,
            upgrades@.len() <= i,
        decreases len - i,
    {
        if battle.arena.tiles[i] == BattleTile::WiringPanel {
            proof {
                crate::combat::lemma_index_position(&battle.arena, i as int);
            }
            let x = (i % w) as i32;
            let y = (i / w) as i32;
            if battle.unit_at(x, y).is_none() && rng.range(0, 100) < 15 {
                upgrades.push((x, y));
            }
        }
        i += 1;
    }
    let mut k: usize = 0;
    while k < new_grass.len()
        invariant
            battle.wf(),
            *battle == (TacticalBattle { arena: battle.arena, ..start }),
            tiles_changed_only(&start.arena, &battle.arena, from, to),
            from == set![BattleTile::MetalFloor, BattleTile::WiringPanel],
            to == set![BattleTile::WiringPanel, BattleTile::PipeTangle],
            k <= new_grass@.len(),
        decreases new_grass@.len() - k,
    {
        let (gx, gy) = new_grass[k];
        let _ = replace_tile(battle, gx, gy, BattleTile::MetalFloor, BattleTile::WiringPanel, Ghost(start.arena), Ghost(from), Ghost(to));
        k += 1;
    }
    let mut k: usize = 0;
    while k < upgrades.len()
        invariant
            battle.wf(),
            *battle == (TacticalBattle { arena: battle.arena, ..start }),
            tiles_changed_only(&start.arena, &battle.arena, from, to),
            from == set![BattleTile::MetalFloor, BattleTile::WiringPanel],
            to == set![BattleTile::WiringPanel, BattleTile::PipeTangle],
            k <= upgrades@.len(),
        decreases upgrades@.len() - k,
    {
        let (ux, uy) = upgrades[k];
        let _ = replace_tile(battle, ux, uy, BattleTile::WiringPanel, BattleTile::PipeTangle, Ghost(start.arena), Ghost(from), Ghost(to));
        k += 1;
    }
    let mut m = String::from_str("🌿 Nanite Spread! ");
    crate::text::push_int(&mut m, new_grass.len() as i64);
    m.append(" new wiring panels, ");
    crate::text::push_int(&mut m, upgrades.len() as i64);
    m.append(" pipe tangles!");
    let mut msgs: Vec<String> = Vec::new();
    msgs.push(m);
    msgs
}

/// Where a reactor blowout in `b` may erupt: the middle of the arena, or a
/// metal floor tile that no unit stands on.
pub open spec fn blowout_site(b: &TacticalBattle, x: int, y: int) -> bool {
    ||| x == (b.arena.width as int) / 2 && y == (b.arena.height as int) / 2
    ||| b.arena.tile_spec(x, y) == Some(BattleTile::MetalFloor) && crate::combat::unit_at_spec(b.units@, x, y) is None
}

/// Reactor blowout: plasma erupts at the free metal floor farthest from the
/// player among 20 random inner tiles (the centre when none qualifies), and
/// a fuel canister appears on the first free metal floor next to it.
fn reactor_blowout(battle: &mut TacticalBattle, rng: &mut Rng) -> (msgs: Vec<String>)
    requires
        old(battle).wf(),
    ensures
        msgs@.len() >= 1,
        event_frame(final(battle), old(battle)),
        final(battle).units@ == old(battle).units@,
        tiles_changed_only(
            &old(battle).arena,
            &final(battle).arena,
            Set::new(|t: BattleTile| true),
            set![BattleTile::PlasmaPool, BattleTile::FuelCanister],
        ),
        final(battle).audio_events@ == old(battle).audio_events@.push(AudioEvent::LavaRumble),
        final(battle).log@ == old(battle).log@,
        exists|x: int, y: int|
            #[trigger] final(battle).arena.tile_spec(x, y) == Some(BattleTile::PlasmaPool) && blowout_site(old(battle), x, y),
{
    let ghost start = *battle;
    let ghost from = Set::new(|t: BattleTile| true);
    let ghost to = set![BattleTile::PlasmaPool, BattleTile::FuelCanister];
    let w = battle.arena.width as i32;
    let h = battle.arena.height as i32;
    let px = battle.units[0].x;
    let py = battle.units[0].y;
    proof {
        assert(battle.arena.in_bounds_spec(battle.units@[0].x as int, battle.units@[0].y as int));
    }
    let mut best_x = w / 2;
    let mut best_y = h / 2;
    let mut best_dist: i32 = 0;
    let mut t: u32 = 0;
    while t < 20
        invariant
            *battle == start,
            battle.wf(),
            w == battle.arena.width,
            h == battle.arena.height,
            1 <= w <= ARENA_MAX,
            1 <= h <= ARENA_MAX,
            0 <= px < w,
            0 <= py < h,
            0 <= best_x < w,
            0 <= best_y < h,
            blowout_site(&start, best_x as int, best_y as int),
        decreases 20 - t,
    {
        let x = rng.range(1, w - 1);
        let y = rng.range(1, h - 1);
        if battle.arena.tile(x, y) == Some(BattleTile::MetalFloor) && battle.unit_at(x, y).is_none() {
            let dx = if x >= px { x - px } else { px - x };
            let dy = if y >= py { y - py } else { py - y };
            let dist = dx + dy;
            if dist > best_dist {
                best_dist = dist;
                best_x = x;
                best_y = y;
            }
        }
        t += 1;
    }
    let ghost before = battle.arena;
    if let Some(i) = battle.arena.idx(best_x, best_y) {
        proof {
            crate::combat::lemma_index_in_grid(&battle.arena, best_x as int, best_y as int);
            lemma_write_allowed(start.arena.tiles@, battle.arena.tiles@, i as int, BattleTile::PlasmaPool, from, to);
        }
        battle.arena.tiles.set(i, BattleTile::PlasmaPool);
    }
    let mut k: usize = 0;
    let mut done = false;
    while k < 4 && !done
        invariant
            battle.wf(),
            *battle == (TacticalBattle { arena: battle.arena, ..start }),
            tiles_changed_only(&start.arena, &battle.arena, from, to),
            from == Set::new(|t: BattleTile| true),
            to == set![BattleTile::PlasmaPool, BattleTile::FuelCanister],
            0 <= best_x < ARENA_MAX,
            0 <= best_y < ARENA_MAX,
            k <= 4,
            blowout_site(&start, best_x as int, best_y as int),
            battle.arena.tile_spec(best_x as int, best_y as int) == Some(BattleTile::PlasmaPool),
        decreases 4 - k,
    {
        let (bx, by) = neighbour(best_x, best_y, k);
        if battle.arena.tile(bx, by) == Some(BattleTile::MetalFloor) && battle.unit_at(bx, by).is_none() {
            let _ = replace_tile(battle, bx, by, BattleTile::MetalFloor, BattleTile::FuelCanister, Ghost(start.arena), Ghost(from), Ghost(to));
            done = true;
        }
        k += 1;
    }
    let mut m = String::from_str("🌋 Reactor Blowout erupts at (");
    crate::text::push_int(&mut m, best_x as i64);
    m.append(",");
    crate::text::push_int(&mut m, best_y as i64);
    m.append(")! Fuel canisters nearby!");
    battle.audio_events.push(AudioEvent::LavaRumble);
    let mut msgs: Vec<String> = Vec::new();
    msgs.push(m);
    msgs
}

/// Fires an arena event (see each event's own rule). Every event keeps the
/// battle well formed and changes only units, tiles, sounds and the log, as
/// its rule allows.
pub fn execute_arena_event(battle: &mut TacticalBattle, event: ArenaEvent, rng: &mut Rng) -> (msgs: Vec<String>)
    requires
        old(battle).wf(),
    ensures
        event_frame(final(battle), old(battle)),
        final(battle).log@ == old(battle).log@,
        msgs@.len() >= 1,
        event is CoolantFlood ==> tiles_changed_only(&old(battle).arena, &final(battle).arena, set![BattleTile::MetalFloor], set![BattleTile::CoolantPool])
            && only_statuses_change(old(battle).units@, final(battle).units@)
            && forall|x: int, y: int| #[trigger] final(battle).arena.tile_spec(x, y) == flooded_tile(&old(battle).arena, x, y),
        event is HullBreach ==> final(battle).units@ == old(battle).units@ && tiles_changed_only(
            &old(battle).arena,
            &final(battle).arena,
            set![BattleTile::MetalFloor],
            set![BattleTile::WeakenedPlating, BattleTile::DamagedFloor],
        ) && ({
            let s1 = xorshift(old(rng)@);
            let fx = range_value(xorshift(s1), 0, old(battle).arena.width as i32);
            let fy = range_value(xorshift(xorshift(s1)), 0, old(battle).arena.height as i32);
            old(battle).arena.tile_spec(fx, fy) == Some(BattleTile::MetalFloor) && crate::combat::unit_at_spec(old(battle).units@, fx, fy) is None
                ==> final(battle).arena.tile_spec(fx, fy) == Some(BattleTile::WeakenedPlating) || final(battle).arena.tile_spec(fx, fy)
                == Some(BattleTile::DamagedFloor)
        }),
        event is PowerSurge ==> final(battle).units@ == old(battle).units@ && tiles_changed_only(
            &old(battle).arena,
            &final(battle).arena,
            set![BattleTile::MetalFloor],
            set![BattleTile::OilSlick],
        ) && forall|x: int, y: int| #[trigger] final(battle).arena.tile_spec(x, y) == surged_tile(&old(battle).arena, old(rng)@, x, y),
        event is VentBlast ==> ({
            let d = blast_dir(range_value(xorshift(old(rng)@), 0, 4));
            forall|i: int|
                0 <= i < old(battle).units@.len() ==> {
                    let u = old(battle).units@[i];
                    let v = #[trigger] final(battle).units@[i];
                    v == u || (u.alive && v == crate::combat::tick::moved_to(u, u.x + d.0, u.y + d.1) && walkable_at(
                        &old(battle).arena,
                        u.x + d.0,
                        u.y + d.1,
                    ))
                }
        }),
        event is VentBlast ==> final(battle).arena == old(battle).arena,
        event is ArcDischarge ==> final(battle).arena == old(battle).arena && only_hp_changes(old(battle).units@, final(battle).units@),
        event is PlasmaLeak ==> only_hp_changes(old(battle).units@, final(battle).units@) && tiles_changed_only(
            &old(battle).arena,
            &final(battle).arena,
            set![BattleTile::MetalFloor, BattleTile::WiringPanel],
            set![BattleTile::PlasmaPool],
        ),
        event is MediGas ==> final(battle).arena == old(battle).arena && forall|i: int|
            0 <= i < old(battle).units@.len() ==> #[trigger] final(battle).units@[i] == if old(battle).units@[i].alive {
                healed(old(battle).units@[i], 2)
            } else {
                old(battle).units@[i]
            },
        event is CryoVent ==> *final(rng) == *old(rng) && final(battle).arena.same_shape(&old(battle).arena)
            && only_statuses_change(old(battle).units@, final(battle).units@)
            && (forall|i: int| 0 <= i < old(battle).units@.len() ==> (#[trigger] final(battle).units@[i]).statuses@
                == frozen_statuses(old(battle).units@[i]))
            && msgs@.last()@ == "❄ Cryo Vent! "@ + decimal(count_tiles(old(battle).arena.tiles@, BattleTile::CoolantPool))
                + " coolant tiles freeze!"@
            && forall|i: int|
            0 <= i < old(battle).arena.tiles@.len() ==> #[trigger] final(battle).arena.tiles@[i] == if old(battle).arena.tiles@[i]
                == BattleTile::CoolantPool {
                BattleTile::FrozenCoolant
            } else {
                old(battle).arena.tiles@[i]
            },
        event is DebrisBurst ==> tiles_changed_only(&old(battle).arena, &final(battle).arena, set![BattleTile::MetalFloor], set![BattleTile::Debris])
            && forall|i: int|
            0 <= i < old(battle).units@.len() ==> #[trigger] final(battle).units@[i] == {
                let u = old(battle).units@[i];
                if u.alive && u.stored_movement > 0 {
                    BattleUnit { stored_movement: (u.stored_movement - 1) as i32, ..u }
                } else {
                    u
                }
            },
        event is SystemGlitch ==> final(battle).arena == old(battle).arena && only_statuses_change(old(battle).units@, final(battle).units@)
            && forall|i: int|
            0 <= i < old(battle).units@.len() ==> (#[trigger] final(battle).units@[i]).statuses@ == if old(battle).units@[i].alive {
                old(battle).units@[i].statuses@.map_values(|st: crate::status::StatusInstance| extended(st))
            } else {
                old(battle).units@[i].statuses@
            },
        event is NaniteSpread ==> final(battle).units@ == old(battle).units@ && tiles_changed_only(
            &old(battle).arena,
            &final(battle).arena,
            set![BattleTile::MetalFloor, BattleTile::WiringPanel],
            set![BattleTile::WiringPanel, BattleTile::PipeTangle],
        ),
        event is ReactorBlowout ==> final(battle).units@ == old(battle).units@ && tiles_changed_only(
            &old(battle).arena,
            &final(battle).arena,
            Set::new(|t: BattleTile| true),
            set![BattleTile::PlasmaPool, BattleTile::FuelCanister],
        ) && exists|x: int, y: int|
            #[trigger] final(battle).arena.tile_spec(x, y) == Some(BattleTile::PlasmaPool) && blowout_site(old(battle), x, y),
{
    match event {
        ArenaEvent::CoolantFlood => coolant_flood(battle),
        ArenaEvent::HullBreach => hull_breach(battle, rng),
        ArenaEvent::PowerSurge => power_surge(battle, rng),
        ArenaEvent::VentBlast => vent_blast(battle, rng),
        ArenaEvent::ArcDischarge => arc_discharge(battle, rng),
        ArenaEvent::PlasmaLeak => plasma_leak(battle, rng),
        ArenaEvent::MediGas => medi_gas(battle),
        ArenaEvent::CryoVent => cryo_vent(battle),
        ArenaEvent::DebrisBurst => debris_burst(battle, rng),
        ArenaEvent::SystemGlitch => system_glitch(battle),
        ArenaEvent::NaniteSpread => nanite_spread(battle, rng),
        ArenaEvent::ReactorBlowout => reactor_blowout(battle, rng),
    }
}

/// The event announced when the countdown reaches 1 on round `turn`.
pub open spec fn announced_event(biome: ArenaBiome, turn: u32) -> ArenaEvent {
    event_for_roll(biome, range_value(xorshift(seed_state((turn * 7919 + 42) as u64)), 0, 160))
}

/// Arena event countdown at the end of a round. Above 1 it counts down, and
/// on reaching 1 the next event (drawn from the round number, see
/// `announced_event`) is announced. At 1 or below, a pending event fires,
/// is shown for 90 frames, and the countdown restarts at 2 in boss fights
/// and at 2 to 4 otherwise; with nothing pending nothing happens.
pub fn tick_arena_events(battle: &mut TacticalBattle) -> (msgs: Vec<String>)
    requires
        old(battle).wf(),
    ensures
        final(battle).wf(),
        old(battle).arena_event_timer > 1 ==> {
            &&& final(battle).arena_event_timer == old(battle).arena_event_timer - 1
            &&& final(battle).arena_event_timer == 1 ==> final(battle).pending_event == Some(
                announced_event(old(battle).arena.biome, old(battle).turn_number),
            )
            &&& final(battle).arena_event_timer != 1 ==> final(battle).pending_event == old(battle).pending_event
            &&& *final(battle) == (TacticalBattle {
                arena_event_timer: final(battle).arena_event_timer,
                pending_event: final(battle).pending_event,
                ..*old(battle)
            })
            &&& msgs@.len() == (if final(battle).arena_event_timer == 1 { 1int } else { 0int })
            &&& final(battle).arena_event_timer == 1 ==> msgs@[0]@ == "⚠ "@ + announced_event(
                old(battle).arena.biome,
                old(battle).turn_number,
            ).name_spec()@ + " incoming!"@
        },
        old(battle).arena_event_timer <= 1 && old(battle).pending_event is None ==> *final(battle) == *old(battle)
            && msgs@.len() == 0,
        old(battle).arena_event_timer <= 1 && old(battle).pending_event is Some ==> {
            &&& final(battle).pending_event is None
            &&& final(battle).event_message is Some
            &&& final(battle).event_message->0@ == "🌀 "@ + old(battle).pending_event->0.name_spec()@
            &&& final(battle).event_message_timer == 90
            &&& old(battle).is_boss_battle ==> final(battle).arena_event_timer == 2
            &&& !old(battle).is_boss_battle ==> 2 <= final(battle).arena_event_timer <= 4
            &&& final(battle).units@.len() == old(battle).units@.len()
            &&& msgs@.len() >= 1
        },
{
    let mut messages: Vec<String> = Vec::new();
    if battle.arena_event_timer > 1 {
        battle.arena_event_timer -= 1;
        if battle.arena_event_timer == 1 {
            let seed = battle.turn_number as u64 * 7919 + 42;
            let mut rng = Rng::new(seed);
            let event = pick_arena_event(&mut rng, battle.arena.biome);
            battle.pending_event = Some(event);
            let mut m = String::from_str("⚠ ");
            m.append(event.name());
            m.append(" incoming!");
            messages.push(m);
        }
        return messages;
    }
    let event = match battle.pending_event {
        Some(e) => e,
        None => return messages,
    };
    battle.pending_event = None;
    battle.event_message = Some(cat("🌀 ", event.name()));
    battle.event_message_timer = 90;
    let seed = battle.turn_number as u64 * 6271 + 137;
    let mut rng = Rng::new(seed);
    let mut event_msgs = execute_arena_event(battle, event, &mut rng);
    messages.append(&mut event_msgs);
    let next_timer: u32 = if battle.is_boss_battle {
        2
    } else {
        rng.range(2, 5) as u32
    };
    battle.arena_event_timer = next_timer;
    messages
}

} // verus!
