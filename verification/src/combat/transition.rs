//! Setting up a tactical battle: arena layout, weather and deployment.

use vstd::prelude::*;
use vstd::string::StrSliceExecFns;
use vstd::string::StringExecFns;
use crate::combat::{arena_size_for_encounter, arena_size_spec, biome_spec, Direction, MAX_UNITS, PlayerStance, TacticalPhase, TacticalBattle, ARENA_MAX, ArenaBiome, BattleTile, BattleUnit, TacticalArena, UnitKind, Weather, WuxingElement, element_of};
use crate::enemy::{AiBehavior, Enemy, SentenceEntry, div_trunc, is_syllable_split, pinyin_syllables};
use crate::player::{Companion, Player};
use crate::world::RoomModifier;
use crate::srs::{SrsTracker, tier_in};
use crate::status::copy_statuses;
use crate::combat::turn::{build_turn_queue, enemy_base_movement, enemy_base_speed, form_speed_mod, hasted, is_turn_queue, player_base_speed_spec, player_movement, player_movement_spec, player_speed};

verus! {

/// Every tile of `a` satisfies `ok`.
pub open spec fn all_tiles(a: TacticalArena, ok: spec_fn(BattleTile) -> bool) -> bool {
    forall|x: int, y: int| #[trigger] a.tile_spec(x, y) matches Some(t) ==> ok(t)
}

/// Terrain that a biome scatters on deeper floors.
pub open spec fn biome_terrain(t: BattleTile, biome: ArenaBiome) -> bool {
    match biome {
        ArenaBiome::StationInterior => t is WiringPanel || t is CoolantPool || t is DamagedPlating || t is EnergyNode
            || t is OilSlick,
        ArenaBiome::DerelictShip => t is OilSlick || t is DamagedPlating || t is PowerDrain || t is GravityTrap || t is Debris
            || t is ElectrifiedWire,
        ArenaBiome::AlienRuins => t is HoloTrap || t is OilSlick || t is VentSteam || t is EnergyNode || t is ChargingPad
            || t is FrozenCoolant,
        ArenaBiome::IrradiatedZone => t is BlastMark || t is PlasmaPool || t is DamagedPlating || t is PowerDrain
            || t is ElectrifiedWire,
        ArenaBiome::Hydroponics => t is WiringPanel || t is CoolantPool || t is PipeTangle || t is ElectrifiedWire,
        ArenaBiome::CryoBay => t is FrozenCoolant || t is CryoZone || t is CoolantPool || t is DamagedPlating,
        ArenaBiome::ReactorRoom => t is PlasmaPool || t is BlastMark || t is Debris || t is DamagedPlating,
    }
}

/// The tiles a generated arena may hold on `floor` in `biome`: cover and
/// high ground everywhere, crates from floor 2, hazards and biome terrain
/// from floor 3, conveyors and steam vents from floor 4, gravity wells from
/// floor 5.
pub open spec fn arena_feature(t: BattleTile, floor: int, biome: ArenaBiome) -> bool {
    ||| t is MetalFloor || t is CoverBarrier || t is ElevatedPlatform
    ||| floor >= 2 && t is CargoCrate
    ||| floor >= 3 && (t is FuelCanister || t is WeakenedPlating || t is MineTile || t is OilSlick || biome_terrain(t, biome))
    ||| floor >= 3 && t is EnergyVent && (biome is StationInterior || biome is IrradiatedZone || biome is ReactorRoom
        || biome is DerelictShip)
    ||| floor >= 4 && (t is ConveyorN || t is ConveyorS || t is ConveyorE || t is ConveyorW)
    ||| floor >= 4 && t is SteamVentInactive && (biome is Hydroponics || biome is CryoBay)
    ||| floor >= 5 && t is GravityWell && (biome is AlienRuins || biome is ReactorRoom)
}

/// Grid shape of a square arena of side `size` in `biome`.
pub open spec fn arena_frame(a: TacticalArena, size: int, biome: ArenaBiome) -> bool {
    &&& a.wf()
    &&& a.width == size
    &&& a.height == size
    &&& a.biome == biome
}

/// Puts `t` at `(x, y)` keeping every tile within `ok`.
fn put(arena: &mut TacticalArena, x: i32, y: i32, t: BattleTile, Ghost(ok): Ghost<spec_fn(BattleTile) -> bool>)
    requires
        old(arena).wf(),
        all_tiles(*old(arena), ok),
        ok(t),
    ensures
        final(arena).wf(),
        final(arena).same_shape(old(arena)),
        all_tiles(*final(arena), ok),
        final(arena).tile_spec(x as int, y as int) == (if old(arena).in_bounds_spec(x as int, y as int) {
            Some(t)
        } else {
            None
        }),
        forall|px: int, py: int| (px != x || py != y) ==> #[trigger] final(arena).tile_spec(px, py) == old(arena).tile_spec(px, py),
{
    arena.set_tile(x, y, t);
    assert forall|px: int, py: int| #[trigger] arena.tile_spec(px, py) is Some implies ok(arena.tile_spec(px, py)->0) by {
        assert(old(arena).tile_spec(px, py) matches Some(v) ==> ok(v));
    }
}

/// The hash behind draw `k` of a scatter.
pub open spec fn scatter_hash(base: u64, mul_a: u64, k: int, mul_b: u64) -> u64 {
    base.wrapping_mul(mul_a).wrapping_add(k as u64).wrapping_mul(mul_b)
}

/// Column of a draw with hash `h` on a grid of side `size`.
pub open spec fn scatter_x(h: u64, size: int) -> int {
    ((h >> 16u64) % (size as u64)) as int
}

/// Row of a draw with hash `h`: from `low_y` up to two rows short of the bottom.
pub open spec fn scatter_y(h: u64, size: int, low_y: u64) -> int {
    (low_y + (h >> 8u64) % ((size - 2 - low_y) as u64)) as int
}

/// The bottom two rows' middle three columns, kept clear for the player.
pub open spec fn start_zone(size: int, x: int, y: int) -> bool {
    let mid = size / 2;
    y >= size - 2 && (if x >= mid { x - mid } else { mid - x }) <= 1
}

/// Whether one of the first `k` draws of a scatter lands on `(x, y)`.
pub open spec fn scatter_hit(base: u64, mul_a: u64, offset: int, mul_b: u64, k: int, low_y: u64, size: int, x: int, y: int) -> bool
    decreases k,
{
    if k <= 0 {
        false
    } else {
        let h = scatter_hash(base, mul_a, k - 1 + offset, mul_b);
        scatter_hit(base, mul_a, offset, mul_b, k - 1, low_y, size, x, y) || (x == scatter_x(h, size) && y
            == scatter_y(h, size, low_y) && !start_zone(size, x, y))
    }
}

/// Writes `t` at `count` hashed spots (all of them, or only those that are
/// plain floor when `on_floor`), staying off the top `low_y` rows, the
/// bottom two rows and the player's start.
fn scatter(
    arena: &mut TacticalArena,
    base: u64,
    mul_a: u64,
    offset: usize,
    mul_b: u64,
    count: usize,
    low_y: u64,
    t: BattleTile,
    on_floor: bool,
    Ghost(ok): Ghost<spec_fn(BattleTile) -> bool>,
)
    requires
        old(arena).wf(),
        5 <= old(arena).width <= ARENA_MAX,
        old(arena).height == old(arena).width,
        low_y == 1 || low_y == 2,
        all_tiles(*old(arena), ok),
        ok(t),
        offset + count <= usize::MAX,
        on_floor ==> t != BattleTile::MetalFloor,
    ensures
        final(arena).wf(),
        final(arena).same_shape(old(arena)),
        all_tiles(*final(arena), ok),
        forall|px: int, py: int|
            (py < low_y || py >= old(arena).height - 2) ==> #[trigger] final(arena).tile_spec(px, py) == old(arena).tile_spec(px, py),
        forall|px: int, py: int|
            #[trigger] final(arena).tile_spec(px, py) == if scatter_hit(
                base,
                mul_a,
                offset as int,
                mul_b,
                count as int,
                low_y,
                old(arena).width as int,
                px,
                py,
            ) && (!on_floor || old(arena).tile_spec(px, py) == Some(BattleTile::MetalFloor)) {
                Some(t)
            } else {
                old(arena).tile_spec(px, py)
            },
{
    let size = arena.width;
    let mut i: usize = 0;
    while i < count
        invariant
            arena.wf(),
            arena.same_shape(old(arena)),
            size == arena.width,
            arena.height == size,
            5 <= size <= ARENA_MAX,
            low_y == 1 || low_y == 2,
            all_tiles(*arena, ok),
            ok(t),
            i <= count,
            offset + count <= usize::MAX,
            on_floor ==> t != BattleTile::MetalFloor,
            forall|px: int, py: int|
                (py < low_y || py >= size - 2) ==> #[trigger] arena.tile_spec(px, py) == old(arena).tile_spec(px, py),
            forall|px: int, py: int|
                #[trigger] arena.tile_spec(px, py) == if scatter_hit(
                    base,
                    mul_a,
                    offset as int,
                    mul_b,
                    i as int,
                    low_y,
                    size as int,
                    px,
                    py,
                ) && (!on_floor || old(arena).tile_spec(px, py) == Some(BattleTile::MetalFloor)) {
                    Some(t)
                } else {
                    old(arena).tile_spec(px, py)
                },
        decreases count - i,
    {
        let hash = base.wrapping_mul(mul_a).wrapping_add((i + offset) as u64).wrapping_mul(mul_b);
        let x = ((hash >> 16) % size as u64) as i32;
        let span = size as u64 - 2 - low_y;
        let y = (low_y + (hash >> 8) % (span)) as i32;
        let mid = size as i32 / 2;
        let dx = if x >= mid { x - mid } else { mid - x };
        let ghost before = *arena;
        proof {
            assert(hash == scatter_hash(base, mul_a, i + offset, mul_b));
            assert(x == scatter_x(hash, size as int));
            assert(y == scatter_y(hash, size as int, low_y));
            assert(start_zone(size as int, x as int, y as int) == (y >= size as i32 - 2 && dx <= 1));
        }
        if !(y >= size as i32 - 2 && dx <= 1) {
            if !on_floor || arena.tile(x, y) == Some(BattleTile::MetalFloor) {
                put(arena, x, y, t, Ghost(ok));
            }
        }
        proof {
            assert forall|px: int, py: int|
                #[trigger] arena.tile_spec(px, py) == if scatter_hit(
                    base,
                    mul_a,
                    offset as int,
                    mul_b,
                    i + 1,
                    low_y,
                    size as int,
                    px,
                    py,
                ) && (!on_floor || old(arena).tile_spec(px, py) == Some(BattleTile::MetalFloor)) {
                    Some(t)
                } else {
                    old(arena).tile_spec(px, py)
                } by {
                assert(before.tile_spec(px, py) == if scatter_hit(
                    base,
                    mul_a,
                    offset as int,
                    mul_b,
                    i as int,
                    low_y,
                    size as int,
                    px,
                    py,
                ) && (!on_floor || old(arena).tile_spec(px, py) == Some(BattleTile::MetalFloor)) {
                    Some(t)
                } else {
                    old(arena).tile_spec(px, py)
                });
            }
        }
        i += 1;
    }
}

/// The terrain tile a hash picks in `biome`.
fn terrain_tile(biome: ArenaBiome, hash: u64) -> (t: BattleTile)
    ensures
        biome_terrain(t, biome),
{
    match biome {
        ArenaBiome::StationInterior => match hash % 5 {
            0 => BattleTile::WiringPanel,
            1 => BattleTile::CoolantPool,
            2 => BattleTile::DamagedPlating,
            3 => BattleTile::EnergyNode,
            _ => BattleTile::OilSlick,
        },
        ArenaBiome::DerelictShip => match hash % 6 {
            0 => BattleTile::OilSlick,
            1 => BattleTile::DamagedPlating,
            2 => BattleTile::PowerDrain,
            3 => BattleTile::GravityTrap,
            4 => BattleTile::Debris,
            _ => BattleTile::ElectrifiedWire,
        },
        ArenaBiome::AlienRuins => match hash % 6 {
            0 => BattleTile::HoloTrap,
            1 => BattleTile::OilSlick,
            2 => BattleTile::VentSteam,
            3 => BattleTile::EnergyNode,
            4 => BattleTile::ChargingPad,
            _ => BattleTile::FrozenCoolant,
        },
        ArenaBiome::IrradiatedZone => match hash % 5 {
            0 => BattleTile::BlastMark,
            1 => BattleTile::PlasmaPool,
            2 => BattleTile::DamagedPlating,
            3 => BattleTile::PowerDrain,
            _ => BattleTile::ElectrifiedWire,
        },
        ArenaBiome::Hydroponics => match hash % 4 {
            0 => BattleTile::WiringPanel,
            1 => BattleTile::CoolantPool,
            2 => BattleTile::PipeTangle,
            _ => BattleTile::ElectrifiedWire,
        },
        ArenaBiome::CryoBay => match hash % 4 {
            0 => BattleTile::FrozenCoolant,
            1 => BattleTile::CryoZone,
            2 => BattleTile::CoolantPool,
            _ => BattleTile::DamagedPlating,
        },
        ArenaBiome::ReactorRoom => match hash % 4 {
            0 => BattleTile::PlasmaPool,
            1 => BattleTile::BlastMark,
            2 => BattleTile::Debris,
            _ => BattleTile::DamagedPlating,
        },
    }
}

/// The tiles allowed on `floor` in `biome`, as a predicate.
pub open spec fn feature_ok(floor: int, biome: ArenaBiome) -> spec_fn(BattleTile) -> bool {
    |t: BattleTile| arena_feature(t, floor, biome)
}

/// Spills oil at `(ox, oy)` and onto one hashed neighbour that is plain floor.
fn spill_oil(arena: &mut TacticalArena, ox: i32, oy: i32, hash: u64, Ghost(ok): Ghost<spec_fn(BattleTile) -> bool>)
    requires
        old(arena).wf(),
        old(arena).width <= ARENA_MAX,
        0 <= ox < ARENA_MAX,
        0 <= oy < ARENA_MAX,
        all_tiles(*old(arena), ok),
        ok(BattleTile::OilSlick),
    ensures
        final(arena).wf(),
        final(arena).same_shape(old(arena)),
        all_tiles(*final(arena), ok),
{
    put(arena, ox, oy, BattleTile::OilSlick, Ghost(ok));
    let adj = (hash.wrapping_add(700) % 4) as usize;
    let (adx, ady): (i32, i32) = if adj == 0 {
        (-1, 0)
    } else if adj == 1 {
        (1, 0)
    } else if adj == 2 {
        (0, -1)
    } else {
        (0, 1)
    };
    if arena.tile(ox + adx, oy + ady) == Some(BattleTile::MetalFloor) {
        put(arena, ox + adx, oy + ady, BattleTile::OilSlick, Ghost(ok));
    }
}

/// Oil slicks in small clusters: each hit on plain floor also spills onto
/// one hashed neighbour, until `count` slicks are placed.
fn place_oil(arena: &mut TacticalArena, oil_seed: u64, count: usize, Ghost(ok): Ghost<spec_fn(BattleTile) -> bool>)
    requires
        old(arena).wf(),
        5 <= old(arena).width <= ARENA_MAX,
        old(arena).height == old(arena).width,
        all_tiles(*old(arena), ok),
        ok(BattleTile::OilSlick),
        count <= 6,
    ensures
        final(arena).wf(),
        final(arena).same_shape(old(arena)),
        all_tiles(*final(arena), ok),
{
    let size = arena.width;
    let mut placed: usize = 0;
    let mut attempt: usize = 0;
    while attempt < count * 5 && placed < count
        invariant
            arena.wf(),
            arena.same_shape(old(arena)),
            size == arena.width,
            arena.height == size,
            5 <= size <= ARENA_MAX,
            all_tiles(*arena, ok),
            ok(BattleTile::OilSlick),
            count <= 6,
            placed <= attempt,
        decreases count * 5 - attempt,
    {
        let hash = oil_seed.wrapping_mul(7307).wrapping_add(attempt as u64).wrapping_mul(25171);
        let ox = ((hash >> 16) % size as u64) as i32;
        let oy = (1 + (hash >> 8) % (size as u64 - 3)) as i32;
        if arena.tile(ox, oy) == Some(BattleTile::MetalFloor) {
            spill_oil(arena, ox, oy, hash, Ghost(ok));
            placed += 1;
        }
        attempt += 1;
    }
}

/// A fuel canister two tiles from each cargo crate, in a hashed direction,
/// where that tile is plain floor.
fn place_crate_fuel(arena: &mut TacticalArena, fuel_seed: u64, Ghost(ok): Ghost<spec_fn(BattleTile) -> bool>)
    requires
        old(arena).wf(),
        5 <= old(arena).width <= ARENA_MAX,
        old(arena).height == old(arena).width,
        all_tiles(*old(arena), ok),
        ok(BattleTile::FuelCanister),
    ensures
        final(arena).wf(),
        final(arena).same_shape(old(arena)),
        all_tiles(*final(arena), ok),
{
    let size = arena.width as i32;
    let mut y: i32 = 0;
    while y < size
        invariant
            arena.wf(),
            arena.same_shape(old(arena)),
            size == arena.width,
            arena.height == arena.width,
            5 <= size <= ARENA_MAX,
            all_tiles(*arena, ok),
            ok(BattleTile::FuelCanister),
            0 <= y <= size,
        decreases size - y,
    {
        let mut x: i32 = 0;
        while x < size
            invariant
                arena.wf(),
                arena.same_shape(old(arena)),
                size == arena.width,
                arena.height == arena.width,
                5 <= size <= ARENA_MAX,
                all_tiles(*arena, ok),
                ok(BattleTile::FuelCanister),
                0 <= y < size,
                0 <= x <= size,
            decreases size - x,
        {
            if arena.tile(x, y) == Some(BattleTile::CargoCrate) {
                let dir_hash = fuel_seed.wrapping_mul(x as u64 + 1).wrapping_add(y as u64);
                let d = (dir_hash % 4) as usize;
                let (dx, dy): (i32, i32) = if d == 0 {
                    (2, 0)
                } else if d == 1 {
                    (-2, 0)
                } else if d == 2 {
                    (0, 2)
                } else {
                    (0, -2)
                };
                if arena.tile(x + dx, y + dy) == Some(BattleTile::MetalFloor) {
                    put(arena, x + dx, y + dy, BattleTile::FuelCanister, Ghost(ok));
                }
            }
            x += 1;
        }
        y += 1;
    }
}

/// A straight conveyor channel, present two times in three.
#[verifier::rlimit(40)]
fn place_conveyor(arena: &mut TacticalArena, seed: u64, floor: i32, Ghost(ok): Ghost<spec_fn(BattleTile) -> bool>)
    requires
        old(arena).wf(),
        5 <= old(arena).width <= ARENA_MAX,
        old(arena).height == old(arena).width,
        all_tiles(*old(arena), ok),
        ok(BattleTile::ConveyorN) && ok(BattleTile::ConveyorS) && ok(BattleTile::ConveyorE) && ok(BattleTile::ConveyorW),
        floor >= 0,
    ensures
        final(arena).wf(),
        final(arena).same_shape(old(arena)),
        all_tiles(*final(arena), ok),
{
    let size = arena.width;
    let flow_seed = seed.wrapping_mul(6271).wrapping_add(99);
    let flow_hash = flow_seed.wrapping_mul(31337);
    if flow_hash % 3 != 0 {
        let dir = flow_hash % 4;
        let (flow_tile, horizontal) = if dir == 0 {
            (BattleTile::ConveyorN, false)
        } else if dir == 1 {
            (BattleTile::ConveyorS, false)
        } else if dir == 2 {
            (BattleTile::ConveyorE, true)
        } else {
            (BattleTile::ConveyorW, true)
        };
        let channel_len: i32 = 3 + if floor / 6 < 3 { floor / 6 } else { 3 };
        if horizontal {
            let y = (2 + (flow_hash >> 8) % (size as u64 - 4)) as i32;
            let start_x = ((flow_hash >> 16) % (size as u64 / 2)) as i32;
            let mut dx: i32 = 0;
            while dx < channel_len
                invariant
                    arena.wf(),
                    arena.same_shape(old(arena)),
                    size == arena.width,
                    arena.height == size,
                    5 <= size <= ARENA_MAX,
                    all_tiles(*arena, ok),
                    ok(flow_tile),
                    0 <= start_x < 23170,
                    0 <= dx <= channel_len <= 6,
                decreases channel_len - dx,
            {
                let x = start_x + dx;
                if x >= size as i32 {
                    break;
                }
                if arena.tile(x, y) == Some(BattleTile::MetalFloor) {
                    put(arena, x, y, flow_tile, Ghost(ok));
                }
                dx += 1;
            }
        } else {
            let x = (2 + (flow_hash >> 8) % (size as u64 - 4)) as i32;
            let start_y = (1 + (flow_hash >> 16) % (size as u64 / 2)) as i32;
            let mut dy: i32 = 0;
            while dy < channel_len
                invariant
                    arena.wf(),
                    arena.same_shape(old(arena)),
                    size == arena.width,
                    arena.height == size,
                    5 <= size <= ARENA_MAX,
                    all_tiles(*arena, ok),
                    ok(flow_tile),
                    1 <= start_y <= 23171,
                    0 <= dy <= channel_len <= 6,
                decreases channel_len - dy,
            {
                let y = start_y + dy;
                if y >= size as i32 - 1 {
                    break;
                }
                if arena.tile(x, y) == Some(BattleTile::MetalFloor) {
                    put(arena, x, y, flow_tile, Ghost(ok));
                }
                dy += 1;
            }
        }
    }
}

/// Energy vents with staggered starting timers.
fn place_energy_vents(arena: &mut TacticalArena, ev_seed: u64, count: usize, Ghost(ok): Ghost<spec_fn(BattleTile) -> bool>)
    requires
        old(arena).wf(),
        5 <= old(arena).width <= ARENA_MAX,
        old(arena).height == old(arena).width,
        all_tiles(*old(arena), ok),
        ok(BattleTile::EnergyVent),
    ensures
        final(arena).wf(),
        final(arena).same_shape(old(arena)),
        all_tiles(*final(arena), ok),
{
    let size = arena.width;
    let mut i: usize = 0;
    while i < count
        invariant
            arena.wf(),
            arena.same_shape(old(arena)),
            size == arena.width,
            arena.height == size,
            5 <= size <= ARENA_MAX,
            all_tiles(*arena, ok),
            ok(BattleTile::EnergyVent),
            i <= count,
        decreases count - i,
    {
        let hash = ev_seed.wrapping_mul(10607).wrapping_add(i as u64).wrapping_mul(27449);
        let x = ((hash >> 16) % size as u64) as i32;
        let y = (2 + (hash >> 8) % (size as u64 - 4)) as i32;
        let mid = size as i32 / 2;
        let dx = if x >= mid { x - mid } else { mid - x };
        if !(y >= size as i32 - 2 && dx <= 1) && arena.tile(x, y) == Some(BattleTile::MetalFloor) {
            let timer: u8 = 1 + (hash % 3) as u8;
            let ghost before = *arena;
            arena.set_energy_vent(x, y, timer);
            assert forall|px: int, py: int| #[trigger] arena.tile_spec(px, py) is Some implies ok(
                arena.tile_spec(px, py)->0,
            ) by {
                assert(before.tile_spec(px, py) matches Some(v) ==> ok(v));
            }
        }
        i += 1;
    }
}

/// Extra cover diagonal to crates, canisters and oil, up to `limit` pieces,
/// scanning rows top to bottom.
fn place_hazard_cover(arena: &mut TacticalArena, barrier_seed: u64, limit: usize, Ghost(ok): Ghost<spec_fn(BattleTile) -> bool>)
    requires
        old(arena).wf(),
        5 <= old(arena).width <= ARENA_MAX,
        old(arena).height == old(arena).width,
        all_tiles(*old(arena), ok),
        ok(BattleTile::CoverBarrier),
    ensures
        final(arena).wf(),
        final(arena).same_shape(old(arena)),
        all_tiles(*final(arena), ok),
{
    let size = arena.width as i32;
    let mid = size / 2;
    let mut placed: usize = 0;
    let mut done = false;
    let mut y: i32 = 1;
    while y < size - 1 && !done
        invariant
            arena.wf(),
            arena.same_shape(old(arena)),
            size == arena.width,
            arena.height == arena.width,
            5 <= size <= ARENA_MAX,
            mid == size / 2,
            all_tiles(*arena, ok),
            ok(BattleTile::CoverBarrier),
            1 <= y <= size - 1,
        decreases size - y,
    {
        let mut x: i32 = 0;
        while x < size
            invariant
                arena.wf(),
                arena.same_shape(old(arena)),
                size == arena.width,
                arena.height == arena.width,
                5 <= size <= ARENA_MAX,
                mid == size / 2,
                all_tiles(*arena, ok),
                ok(BattleTile::CoverBarrier),
                1 <= y < size - 1,
                0 <= x <= size,
            decreases size - x,
        {
            if placed >= limit {
                done = true;
                break;
            }
            let here = arena.tile(x, y);
            let hazard = here == Some(BattleTile::FuelCanister) || here == Some(BattleTile::OilSlick) || here == Some(
                BattleTile::CargoCrate,
            );
            if hazard {
                let hash = barrier_seed.wrapping_mul(x as u64 + 1).wrapping_add(y as u64).wrapping_mul(31991);
                let d = (hash % 4) as usize;
                let (dx, dy): (i32, i32) = if d == 0 {
                    (1, 1)
                } else if d == 1 {
                    (-1, 1)
                } else if d == 2 {
                    (1, -1)
                } else {
                    (-1, -1)
                };
                let bx = x + dx;
                let by = y + dy;
                let off = if bx >= mid { bx - mid } else { mid - bx };
                if !(by >= size - 2 && off <= 1) && !(by <= 0 || by >= size - 1) && arena.tile(bx, by) == Some(
                    BattleTile::MetalFloor,
                ) {
                    put(arena, bx, by, BattleTile::CoverBarrier, Ghost(ok));
                    placed += 1;
                }
            }
            x += 1;
        }
        y += 1;
    }
}

/// Biome terrain on plain floor at hashed positions.
fn place_terrain(
    arena: &mut TacticalArena,
    seed: u64,
    offset: usize,
    count: usize,
    biome: ArenaBiome,
    Ghost(ok): Ghost<spec_fn(BattleTile) -> bool>,
)
    requires
        old(arena).wf(),
        5 <= old(arena).width <= ARENA_MAX,
        old(arena).height == old(arena).width,
        all_tiles(*old(arena), ok),
        forall|t: BattleTile| biome_terrain(t, biome) ==> ok(t),
        offset + count <= usize::MAX,
    ensures
        final(arena).wf(),
        final(arena).same_shape(old(arena)),
        all_tiles(*final(arena), ok),
{
    let size = arena.width;
    let mut i: usize = 0;
    while i < count
        invariant
            arena.wf(),
            arena.same_shape(old(arena)),
            size == arena.width,
            arena.height == size,
            5 <= size <= ARENA_MAX,
            all_tiles(*arena, ok),
            forall|t: BattleTile| biome_terrain(t, biome) ==> ok(t),
            i <= count,
            offset + count <= usize::MAX,
        decreases count - i,
    {
        let hash = seed.wrapping_mul(1103515245).wrapping_add((i + offset) as u64).wrapping_mul(12345);
        let x = ((hash >> 16) % size as u64) as i32;
        let y = (1 + (hash >> 8) % (size as u64 - 3)) as i32;
        if arena.tile(x, y) == Some(BattleTile::MetalFloor) {
            let t = terrain_tile(biome, hash);
            put(arena, x, y, t, Ghost(ok));
        }
        i += 1;
    }
}

/// The tile at `(x, y)` of the arena of floor 0 or 1, seeded by `seed`: a
/// square of plain floor of side `size` with three cover barriers, then
/// elevated platforms over the floor that is left.
pub open spec fn shallow_arena_tile(seed: u64, size: int, x: int, y: int) -> Option<BattleTile> {
    if !(0 <= x < size && 0 <= y < size) {
        None
    } else if scatter_hit(seed, 2654435761, 0, 2246822519, 3, 1, size, x, y) {
        Some(BattleTile::CoverBarrier)
    } else if scatter_hit(seed.wrapping_mul(12347).wrapping_add(55), 7727, 0, 19991, 1 + size / 5, 2, size, x, y) {
        Some(BattleTile::ElevatedPlatform)
    } else {
        Some(BattleTile::MetalFloor)
    }
}

/// Lays out the battle grid for `floor`: a square of plain floor of side
/// `size`, with cover, crates, hazards, terrain and vents scattered by
/// hashes of the floor number. What appears depends on the floor and biome
/// as `arena_feature` says.
pub fn generate_arena(floor: i32, size: usize, biome: ArenaBiome) -> (arena: TacticalArena)
    requires
        5 <= size <= ARENA_MAX,
        floor >= -2,
    ensures
        arena_frame(arena, size as int, biome),
        all_tiles(arena, feature_ok(floor as int, biome)),
        floor <= 1 ==> forall|x: int, y: int|
            0 <= x < size && (y == 0 || y == size - 2 || y == size - 1) ==> #[trigger] arena.tile_spec(x, y)
                == Some(BattleTile::MetalFloor),
        0 <= floor <= 1 ==> forall|x: int, y: int|
            #[trigger] arena.tile_spec(x, y) == shallow_arena_tile(floor as u64, size as int, x, y),
{
    let ghost ok = feature_ok(floor as int, biome);
    let mut arena = TacticalArena::new(size, size, biome);
    assert forall|x: int, y: int| #[trigger] arena.tile_spec(x, y) is Some implies ok(arena.tile_spec(x, y)->0) by {
        crate::combat::lemma_index_in_grid(&arena, x, y);
    }
    let ghost plain = arena;
    proof {
        assert forall|x: int, y: int| 0 <= x < size && 0 <= y < size implies #[trigger] plain.tile_spec(x, y) == Some(BattleTile::MetalFloor) by {
            crate::combat::lemma_index_in_grid(&plain, x, y);
        }
    }
    let seed = floor as u64;
    let third: i32 = floor / 3;
    let obstacle_count: usize = 3 + (if third < 6 { third } else { 6 }) as usize;
    scatter(&mut arena, seed, 2654435761, 0, 2246822519, obstacle_count, 1, BattleTile::CoverBarrier, false, Ghost(ok));
    let ghost covered = arena;

    if floor >= 3 {
        let fifth: i32 = floor / 5;
        let extra: usize = if biome == ArenaBiome::StationInterior { 0 } else { 2 };
        let terrain_count: usize = (if fifth < 4 { fifth } else { 4 }) as usize + extra;
        place_terrain(&mut arena, seed, obstacle_count, terrain_count, biome, Ghost(ok));
    }

    if floor >= 2 {
        let boulder_count: usize = 2 + (if third < 3 { third } else { 3 }) as usize;
        let boulder_seed = seed.wrapping_mul(7919).wrapping_add(42);
        scatter(&mut arena, boulder_seed, 48271, 0, 16807, boulder_count, 2, BattleTile::CargoCrate, true, Ghost(ok));
    }

    if floor >= 3 {
        let interactive_seed = seed.wrapping_mul(9901).wrapping_add(77);
        let barrel_count: usize = 2 + ((interactive_seed >> 4) % 2) as usize;
        scatter(&mut arena, interactive_seed, 6469, 0, 22123, barrel_count, 2, BattleTile::FuelCanister, true, Ghost(ok));
        let crumble_count: usize = 1 + ((interactive_seed >> 12) % 2) as usize;
        scatter(
            &mut arena,
            interactive_seed,
            8461,
            barrel_count,
            30011,
            crumble_count,
            1,
            BattleTile::WeakenedPlating,
            true,
            Ghost(ok),
        );
        let trap_count: usize = 1 + ((interactive_seed >> 20) % 3) as usize;
        scatter(
            &mut arena,
            interactive_seed,
            11003,
            barrel_count + crumble_count,
            40037,
            trap_count,
            1,
            BattleTile::MineTile,
            true,
            Ghost(ok),
        );
    }

    if floor >= 3 {
        let oil_seed = seed.wrapping_mul(13397).wrapping_add(123);
        let by_floor: usize = floor as usize / 3;
        let oil_count: usize = 2 + if by_floor < 4 { by_floor } else { 4 };
        place_oil(&mut arena, oil_seed, oil_count, Ghost(ok));
    }

    if floor >= 4 {
        let fuel_seed = seed.wrapping_mul(14879).wrapping_add(200);
        place_crate_fuel(&mut arena, fuel_seed, Ghost(ok));
        place_conveyor(&mut arena, seed, floor, Ghost(ok));
    }

    let hg_seed = seed.wrapping_mul(12347).wrapping_add(55);
    let ghost before_platforms = arena;
    scatter(&mut arena, hg_seed, 7727, 0, 19991, 1 + size / 5, 2, BattleTile::ElevatedPlatform, true, Ghost(ok));
    proof {
        if 0 <= floor <= 1 {
            assert(obstacle_count == 3);
            assert(before_platforms == covered);
            assert forall|x: int, y: int| #[trigger] arena.tile_spec(x, y) == shallow_arena_tile(floor as u64, size as int, x, y) by {
                assert(covered.tile_spec(x, y) == if scatter_hit(seed, 2654435761, 0, 2246822519, 3, 1, size as int, x, y) {
                    Some(BattleTile::CoverBarrier)
                } else {
                    plain.tile_spec(x, y)
                });
                if !(0 <= x < size && 0 <= y < size) {
                    assert(plain.tile_spec(x, y) is None);
                }
            }
        }
    }

    if floor >= 5 && (biome == ArenaBiome::AlienRuins || biome == ArenaBiome::ReactorRoom) {
        let gw_seed = seed.wrapping_mul(17389).wrapping_add(77);
        let gw_count: usize = 1 + ((gw_seed >> 4) % 2) as usize;
        scatter(&mut arena, gw_seed, 8831, 0, 21013, gw_count, 2, BattleTile::GravityWell, true, Ghost(ok));
    }

    if floor >= 4 && (biome == ArenaBiome::Hydroponics || biome == ArenaBiome::CryoBay) {
        let sv_seed = seed.wrapping_mul(19403).wrapping_add(99);
        let sv_count: usize = 2 + ((sv_seed >> 4) % 2) as usize;
        scatter(&mut arena, sv_seed, 9173, 0, 23017, sv_count, 2, BattleTile::SteamVentInactive, true, Ghost(ok));
    }

    if floor >= 3 {
        let ev_seed = seed.wrapping_mul(21773).wrapping_add(137);
        let biome_ok = biome == ArenaBiome::StationInterior || biome == ArenaBiome::IrradiatedZone || biome
            == ArenaBiome::ReactorRoom || biome == ArenaBiome::DerelictShip;
        if biome_ok && ev_seed % 100 < 35 {
            let ev_count: usize = 2 + ((ev_seed >> 8) % 2) as usize;
            place_energy_vents(&mut arena, ev_seed, ev_count, Ghost(ok));
        }
        let barrier_seed = seed.wrapping_mul(16411).wrapping_add(300);
        place_hazard_cover(&mut arena, barrier_seed, 2 + size / 4, Ghost(ok));
    }
    arena
}

/// Position of a biome in the list of biomes, which seeds the weather.
pub open spec fn biome_index(b: ArenaBiome) -> u64 {
    match b {
        ArenaBiome::StationInterior => 0,
        ArenaBiome::DerelictShip => 1,
        ArenaBiome::IrradiatedZone => 2,
        ArenaBiome::CryoBay => 3,
        ArenaBiome::ReactorRoom => 4,
        ArenaBiome::Hydroponics => 5,
        ArenaBiome::AlienRuins => 6,
    }
}

/// Weather of a battle: always normal above floor 5; deeper, a hash of the
/// floor and biome picks it, half the time normal.
pub open spec fn weather_spec(floor: i32, biome: ArenaBiome) -> Weather {
    if floor < 5 {
        Weather::Normal
    } else {
        let hash = (floor as u64).wrapping_mul(2654435761).wrapping_add(biome_index(biome));
        let r = hash % 10;
        if r <= 4 {
            Weather::Normal
        } else if r == 5 {
            Weather::CoolantLeak
        } else if r == 6 {
            Weather::SmokeScreen
        } else if r == 7 {
            Weather::DebrisStorm
        } else {
            match biome {
                ArenaBiome::AlienRuins => Weather::EnergyFlux,
                ArenaBiome::DerelictShip => Weather::SmokeScreen,
                ArenaBiome::IrradiatedZone => Weather::DebrisStorm,
                ArenaBiome::StationInterior => Weather::CoolantLeak,
                ArenaBiome::Hydroponics => Weather::CoolantLeak,
                ArenaBiome::CryoBay => Weather::SmokeScreen,
                ArenaBiome::ReactorRoom => Weather::DebrisStorm,
            }
        }
    }
}

fn biome_number(b: ArenaBiome) -> (n: u64)
    ensures
        n == biome_index(b),
{
    match b {
        ArenaBiome::StationInterior => 0,
        ArenaBiome::DerelictShip => 1,
        ArenaBiome::IrradiatedZone => 2,
        ArenaBiome::CryoBay => 3,
        ArenaBiome::ReactorRoom => 4,
        ArenaBiome::Hydroponics => 5,
        ArenaBiome::AlienRuins => 6,
    }
}

/// The weather a battle on `floor` in `biome` is fought in.
pub fn pick_weather(floor: i32, biome: ArenaBiome) -> (w: Weather)
    ensures
        w == weather_spec(floor, biome),
        floor < 5 ==> w == Weather::Normal,
{
    if floor < 5 {
        return Weather::Normal;
    }
    let hash = (floor as u64).wrapping_mul(2654435761).wrapping_add(biome_number(biome));
    let r = hash % 10;
    if r <= 4 {
        Weather::Normal
    } else if r == 5 {
        Weather::CoolantLeak
    } else if r == 6 {
        Weather::SmokeScreen
    } else if r == 7 {
        Weather::DebrisStorm
    } else {
        match biome {
            ArenaBiome::AlienRuins => Weather::EnergyFlux,
            ArenaBiome::DerelictShip => Weather::SmokeScreen,
            ArenaBiome::IrradiatedZone => Weather::DebrisStorm,
            ArenaBiome::StationInterior => Weather::CoolantLeak,
            ArenaBiome::Hydroponics => Weather::CoolantLeak,
            ArenaBiome::CryoBay => Weather::SmokeScreen,
            ArenaBiome::ReactorRoom => Weather::DebrisStorm,
        }
    }
}

/// Some unit other than the first stands on `(x, y)`.
pub open spec fn taken_by_other(units: Seq<BattleUnit>, x: int, y: int) -> bool {
    exists|i: int| 1 <= i < units.len() && units[i].x == x && units[i].y == y
}

/// `(x, y)` is a tile the player may deploy to: one of the bottom three
/// rows, walkable, and not taken by another unit.
pub open spec fn deploy_ok(a: TacticalArena, units: Seq<BattleUnit>, x: int, y: int) -> bool {
    &&& a.height - 3 <= y < a.height
    &&& 0 <= x < a.width
    &&& a.tile_spec(x, y) matches Some(t) && t.walkable_spec()
    &&& !taken_by_other(units, x, y)
}

/// Row-major order of a tile.
pub open spec fn row_major(a: TacticalArena, p: (i32, i32)) -> int {
    p.1 * a.width + p.0
}

fn taken_exec(units: &[BattleUnit], x: i32, y: i32) -> (b: bool)
    ensures
        b == taken_by_other(units@, x as int, y as int),
{
    let mut i: usize = 1;
    while i < units.len()
        invariant
            1 <= i,
            forall|j: int| 1 <= j < i && j < units@.len() ==> !(units@[j].x == x && units@[j].y == y),
        decreases units.len() - i,
    {
        if units[i].x == x && units[i].y == y {
            return true;
        }
        i += 1;
    }
    false
}

/// Tiles the player may deploy to, in row-major order: each bottom-row tile
/// that is walkable and that no unit but the player stands on.
pub fn compute_deployment_tiles(arena: &TacticalArena, units: &[BattleUnit]) -> (tiles: Vec<(i32, i32)>)
    requires
        arena.wf(),
    ensures
        forall|k: int| 0 <= k < tiles@.len() ==> deploy_ok(*arena, units@, tiles@[k].0 as int, tiles@[k].1 as int),
        forall|x: int, y: int| deploy_ok(*arena, units@, x, y) ==> tiles@.contains((x as i32, y as i32)),
        forall|k1: int, k2: int|
            0 <= k1 < k2 < tiles@.len() ==> row_major(*arena, tiles@[k1]) < row_major(*arena, tiles@[k2]),
{
    let h = arena.height as i32;
    let w = arena.width as i32;
    let mut tiles: Vec<(i32, i32)> = Vec::new();
    let mut y: i32 = h - 3;
    while y < h
        invariant
            arena.wf(),
            h == arena.height,
            w == arena.width,
            h - 3 <= y <= h,
            forall|k: int| 0 <= k < tiles@.len() ==> deploy_ok(*arena, units@, tiles@[k].0 as int, tiles@[k].1 as int),
            forall|k: int| 0 <= k < tiles@.len() ==> tiles@[k].1 < y,
            forall|px: int, py: int| deploy_ok(*arena, units@, px, py) && py < y ==> tiles@.contains((px as i32, py as i32)),
            forall|k1: int, k2: int|
                0 <= k1 < k2 < tiles@.len() ==> row_major(*arena, tiles@[k1]) < row_major(*arena, tiles@[k2]),
        decreases h - y,
    {
        let mut x: i32 = 0;
        while x < w
            invariant
                arena.wf(),
                h == arena.height,
                w == arena.width,
                h - 3 <= y < h,
                0 <= x <= w,
                forall|k: int| 0 <= k < tiles@.len() ==> deploy_ok(*arena, units@, tiles@[k].0 as int, tiles@[k].1 as int),
                forall|k: int| 0 <= k < tiles@.len() ==> tiles@[k].1 < y || (tiles@[k].1 == y && tiles@[k].0 < x),
                forall|px: int, py: int|
                    deploy_ok(*arena, units@, px, py) && (py < y || (py == y && px < x)) ==> tiles@.contains(
                        (px as i32, py as i32),
                    ),
                forall|k1: int, k2: int|
                    0 <= k1 < k2 < tiles@.len() ==> row_major(*arena, tiles@[k1]) < row_major(*arena, tiles@[k2]),
            decreases w - x,
        {
            let walk = match arena.tile(x, y) {
                Some(t) => t.is_walkable(),
                None => false,
            };
            if walk && !taken_exec(units, x, y) {
                let ghost before = tiles@;
                proof {
                    assert forall|k: int| 0 <= k < before.len() implies row_major(*arena, before[k]) < row_major(
                        *arena,
                        (x, y),
                    ) by {
                        let p = before[k];
                        if p.1 < y {
                            assert(p.1 * w + p.0 < y * w + x) by (nonlinear_arith)
                                requires
                                    p.1 < y,
                                    0 <= p.0 < w,
                                    0 <= x,
                            ;
                        }
                    }
                }
                tiles.push((x, y));
                proof {
                    assert forall|px: int, py: int|
                        deploy_ok(*arena, units@, px, py) && (py < y || (py == y && px < x + 1)) implies tiles@.contains(
                        (px as i32, py as i32),
                    ) by {
                        if py == y && px == x {
                            assert(tiles@[tiles@.len() - 1] == (x, y));
                        } else {
                            assert(before.contains((px as i32, py as i32)));
                            let k = choose|k: int| 0 <= k < before.len() && before[k] == (px as i32, py as i32);
                            assert(tiles@[k] == before[k]);
                        }
                    }
                }
            }
            x += 1;
        }
        y += 1;
    }
    tiles
}

/// Element of the first component radical that stands for one.
pub open spec fn first_element(components: Seq<&'static str>) -> Option<WuxingElement>
    decreases components.len(),
{
    if components.len() == 0 {
        None
    } else {
        match element_of(components[0]@) {
            Some(e) => Some(e),
            None => first_element(components.drop_first()),
        }
    }
}

/// The element an enemy's components give it, if any.
pub fn derive_wuxing_element(enemy: &Enemy) -> (e: Option<WuxingElement>)
    ensures
        e == first_element(enemy.components@),
{
    let mut i: usize = 0;
    assert(enemy.components@.subrange(0, enemy.components@.len() as int) =~= enemy.components@);
    while i < enemy.components.len()
        invariant
            i <= enemy.components@.len(),
            first_element(enemy.components@) == first_element(
                enemy.components@.subrange(i as int, enemy.components@.len() as int),
            ),
        decreases enemy.components@.len() - i,
    {
        let ghost rest = enemy.components@.subrange(i as int, enemy.components@.len() as int);
        assert(rest.drop_first() =~= enemy.components@.subrange(i + 1, enemy.components@.len() as int));
        if let Some(elem) = WuxingElement::from_radical(enemy.components[i]) {
            return Some(elem);
        }
        i += 1;
    }
    None
}

/// Enemy `i` of a sentence squad: the `i`-th character, standing at
/// `(i, 0)`, alert, with floor-scaled stats.
pub open spec fn sentence_enemy_ok(e: Enemy, s: SentenceEntry, floor: i32, i: int, syllables: Seq<Seq<char>>) -> bool {
    &&& e.x == i
    &&& e.y == 0
    &&& e.hanzi@ == seq![s.hanzi@[i]]
    &&& e.pinyin@ == (if i < syllables.len() { syllables[i] } else { seq![s.hanzi@[i]] })
    &&& e.meaning == s.meaning
    &&& e.hp == 1 + div_trunc(floor as int, 3)
    &&& e.max_hp == e.hp
    &&& e.damage == 1 + div_trunc(floor as int, 4)
    &&& e.alert
    &&& !e.is_boss && !e.is_elite
    &&& e.gold_value == 2 + floor
    &&& !e.stunned && !e.phase_triggered
    &&& e.statuses@.len() == 0
    &&& e.boss_kind is None
    &&& e.summon_cooldown == 0
    &&& e.resisted_spell is None
    &&& e.elite_chain == 0
    &&& e.components@.len() == 0
    &&& e.ai == AiBehavior::Chase
    &&& e.radical_armor == 0 && !e.radical_dodge && !e.radical_multiply
}

/// One enemy per character of a sentence, left to right; each takes the
/// matching syllable of the pinyin, or its own character when the pinyin
/// runs out.
pub fn enemies_from_sentence(sentence: &SentenceEntry, floor: i32) -> (enemies: Vec<Enemy>)
    requires
        floor <= i32::MAX - 2,
        sentence.hanzi@.len() <= i32::MAX,
    ensures
        enemies@.len() == sentence.hanzi@.len(),
        exists|syllables: Seq<Seq<char>>|
            is_syllable_split(sentence.pinyin@, syllables) && forall|i: int|
                0 <= i < enemies@.len() ==> sentence_enemy_ok(#[trigger] enemies@[i], *sentence, floor, i, syllables),
{
    let n = sentence.hanzi.unicode_len();
    let parts = pinyin_syllables(sentence.pinyin);
    let ghost syl = parts@.map_values(|p: &str| p@);
    let mut enemies: Vec<Enemy> = Vec::new();
    let mut i: usize = 0;
    while i < n
        invariant
            n == sentence.hanzi@.len(),
            n <= i32::MAX,
            floor <= i32::MAX - 2,
            i <= n,
            syl == parts@.map_values(|p: &str| p@),
            enemies@.len() == i,
            forall|k: int| 0 <= k < i ==> sentence_enemy_ok(#[trigger] enemies@[k], *sentence, floor, k, syl),
        decreases n - i,
    {
        let hanzi = sentence.hanzi.substring_char(i, i + 1);
        let pinyin = if i < parts.len() { parts[i] } else { hanzi };
        proof {
            assert(hanzi@ =~= seq![sentence.hanzi@[i as int]]);
        }
        let hp = 1 + floor / 3;
        let damage = 1 + floor / 4;
        enemies.push(Enemy {
            x: i as i32,
            y: 0,
            hanzi,
            pinyin,
            meaning: sentence.meaning,
            hp,
            max_hp: hp,
            damage,
            alert: true,
            is_boss: false,
            is_elite: false,
            gold_value: 2 + floor,
            stunned: false,
            statuses: Vec::new(),
            boss_kind: None,
            phase_triggered: false,
            summon_cooldown: 0,
            resisted_spell: None,
            elite_chain: 0,
            components: Vec::new(),
            ai: AiBehavior::Chase,
            radical_armor: 0,
            radical_dodge: false,
            radical_multiply: false,
        });
        i += 1;
    }
    enemies
}

/// Remaining HP of the battle units standing for overworld enemy `ei`,
/// each counted as at least 0.
pub open spec fn hp_left(units: Seq<BattleUnit>, ei: usize) -> int
    decreases units.len(),
{
    if units.len() == 0 {
        0
    } else {
        let u = units.last();
        hp_left(units.drop_last(), ei) + if u.kind == UnitKind::Enemy(ei) && u.hp > 0 { u.hp as int } else { 0 }
    }
}

/// Some battle unit stands for overworld enemy `ei`.
pub open spec fn fought(units: Seq<BattleUnit>, ei: usize) -> bool {
    exists|k: int| 0 <= k < units.len() && units[k].kind == UnitKind::Enemy(ei)
}

proof fn lemma_hp_left_step(units: Seq<BattleUnit>, ei: usize, k: int)
    requires
        0 <= k < units.len(),
    ensures
        hp_left(units.subrange(0, k + 1), ei) == hp_left(units.subrange(0, k), ei) + if units[k].kind
            == UnitKind::Enemy(ei) && units[k].hp > 0 {
            units[k].hp as int
        } else {
            0
        },
{
    assert(units.subrange(0, k + 1).drop_last() =~= units.subrange(0, k));
}

proof fn lemma_hp_left_grows(units: Seq<BattleUnit>, ei: usize, k: int)
    requires
        0 <= k <= units.len(),
    ensures
        0 <= hp_left(units.subrange(0, k), ei) <= hp_left(units, ei),
    decreases units.len() - k,
{
    if k < units.len() {
        lemma_hp_left_grows(units, ei, k + 1);
        lemma_hp_left_step(units, ei, k);
        lemma_hp_left_nonneg(units.subrange(0, k), ei);
    } else {
        assert(units.subrange(0, k) =~= units);
        lemma_hp_left_nonneg(units, ei);
    }
}

proof fn lemma_hp_left_nonneg(units: Seq<BattleUnit>, ei: usize)
    ensures
        hp_left(units, ei) >= 0,
    decreases units.len(),
{
    if units.len() > 0 {
        lemma_hp_left_nonneg(units.drop_last(), ei);
    }
}

/// Remaining HP of enemy `ei` and whether any unit stood for it.
fn tally(units: &Vec<BattleUnit>, ei: usize) -> (r: (i32, bool))
    requires
        hp_left(units@, ei) <= i32::MAX,
    ensures
        r.0 == hp_left(units@, ei),
        r.1 == fought(units@, ei),
{
    let mut sum: i32 = 0;
    let mut seen = false;
    let mut k: usize = 0;
    while k < units.len()
        invariant
            k <= units@.len(),
            hp_left(units@, ei) <= i32::MAX,
            sum == hp_left(units@.subrange(0, k as int), ei),
            seen == exists|j: int| 0 <= j < k && units@[j].kind == UnitKind::Enemy(ei),
        decreases units@.len() - k,
    {
        proof {
            lemma_hp_left_step(units@, ei, k as int);
            lemma_hp_left_grows(units@, ei, k + 1);
        }
        if units[k].kind == UnitKind::Enemy(ei) {
            seen = true;
            if units[k].hp > 0 {
                sum = sum + units[k].hp;
            }
        }
        k += 1;
    }
    proof {
        assert(units@.subrange(0, k as int) =~= units@);
    }
    (sum, seen)
}

/// Writes the battle's outcome back: the player keeps the first unit's HP
/// (at least 0) and the battle's riposte, overcharge and hard-answer armor
/// state; every overworld enemy that fought is left with the HP of
/// its units; the result lists, in increasing order, the enemies that were
/// alive before and are not after.
pub fn exit_combat(battle: &TacticalBattle, player: &mut Player, enemies: &mut Vec<Enemy>) -> (killed: Vec<usize>)
    requires
        forall|ei: usize| hp_left(battle.units@, ei) <= i32::MAX,
    ensures
        final(player).hp == (if battle.units@.len() > 0 {
            if battle.units@[0].hp > 0 { battle.units@[0].hp } else { 0 }
        } else {
            old(player).hp
        }),
        final(player).riposte_charges == battle.riposte_charges,
        final(player).overcharge_active == battle.overcharge_active,
        final(player).hard_answer_armor_bonus == battle.hard_answer_armor_bonus,
        final(player).class == old(player).class && final(player).form == old(player).form,
        final(player).statuses@ == old(player).statuses@,
        final(player).max_hp == old(player).max_hp && final(player).bonus_damage == old(player).bonus_damage,
        final(enemies)@.len() == old(enemies)@.len(),
        forall|ei: int|
            0 <= ei < old(enemies)@.len() ==> #[trigger] final(enemies)@[ei] == (if fought(battle.units@, ei as usize) {
                Enemy { hp: hp_left(battle.units@, ei as usize) as i32, ..old(enemies)@[ei] }
            } else {
                old(enemies)@[ei]
            }),
        forall|ei: usize|
            killed@.contains(ei) <==> (ei < old(enemies)@.len() && fought(battle.units@, ei) && old(enemies)@[ei as int].hp
                > 0 && hp_left(battle.units@, ei) <= 0),
        forall|k1: int, k2: int| 0 <= k1 < k2 < killed@.len() ==> killed@[k1] < killed@[k2],
{
    if battle.units.len() > 0 {
        let hp = battle.units[0].hp;
        player.hp = if hp > 0 { hp } else { 0 };
    }
    player.riposte_charges = battle.riposte_charges;
    player.overcharge_active = battle.overcharge_active;
    player.hard_answer_armor_bonus = battle.hard_answer_armor_bonus;
    let mut killed: Vec<usize> = Vec::new();
    let mut ei: usize = 0;
    while ei < enemies.len()
        invariant
            ei <= enemies@.len(),
            enemies@.len() == old(enemies)@.len(),
            forall|e: usize| hp_left(battle.units@, e) <= i32::MAX,
            forall|j: int|
                0 <= j < ei ==> #[trigger] enemies@[j] == (if fought(battle.units@, j as usize) {
                    Enemy { hp: hp_left(battle.units@, j as usize) as i32, ..old(enemies)@[j] }
                } else {
                    old(enemies)@[j]
                }),
            forall|j: int| ei <= j < enemies@.len() ==> #[trigger] enemies@[j] == old(enemies)@[j],
            forall|e: usize|
                killed@.contains(e) <==> (e < ei && fought(battle.units@, e) && old(enemies)@[e as int].hp > 0
                    && hp_left(battle.units@, e) <= 0),
            forall|k1: int, k2: int| 0 <= k1 < k2 < killed@.len() ==> killed@[k1] < killed@[k2],
            forall|k: int| 0 <= k < killed@.len() ==> killed@[k] < ei,
        decreases old(enemies)@.len() - ei,
    {
        let (total, seen) = tally(&battle.units, ei);
        let ghost before = killed@;
        let ghost hit = fought(battle.units@, ei) && old(enemies)@[ei as int].hp > 0 && hp_left(battle.units@, ei) <= 0;
        if seen {
            let was_alive = enemies[ei].hp > 0;
            let mut e = enemies.remove(ei);
            e.hp = total;
            enemies.insert(ei, e);
            if was_alive && total <= 0 {
                killed.push(ei);
            }
        }
        proof {
            assert forall|e: usize|
                killed@.contains(e) <==> (e < ei + 1 && fought(battle.units@, e) && old(enemies)@[e as int].hp > 0
                    && hp_left(battle.units@, e) <= 0) by {
                if hit {
                    assert(killed@ == before.push(ei));
                    if e != ei {
                        if killed@.contains(e) {
                            let k = choose|k: int| 0 <= k < killed@.len() && killed@[k] == e;
                            assert(k < before.len());
                            assert(before[k] == e);
                        }
                        if before.contains(e) {
                            let k = choose|k: int| 0 <= k < before.len() && before[k] == e;
                            assert(killed@[k] == e);
                        }
                    } else {
                        assert(killed@[before.len() as int] == ei);
                    }
                } else {
                    assert(killed@ == before);
                }
            }
        }
        ei += 1;
    }
    killed
}

/// Units that the chosen enemies before position `j` split into: one per
/// character of each word.
pub open spec fn word_count(enemies: Seq<Enemy>, idx: Seq<usize>, j: int) -> int
    decreases j,
{
    if j <= 0 {
        0
    } else {
        word_count(enemies, idx, j - 1) + enemies[idx[j - 1] as int].hanzi@.len()
    }
}

/// Words of more than one character among the chosen enemies before `j`.
pub open spec fn multi_count(enemies: Seq<Enemy>, idx: Seq<usize>, j: int) -> int
    decreases j,
{
    if j <= 0 {
        0
    } else {
        multi_count(enemies, idx, j - 1) + if enemies[idx[j - 1] as int].hanzi@.len() > 1 { 1int } else { 0int }
    }
}

proof fn lemma_counts_grow(enemies: Seq<Enemy>, idx: Seq<usize>, j: int, m: int)
    requires
        0 <= j <= m,
    ensures
        0 <= word_count(enemies, idx, j) <= word_count(enemies, idx, m),
        0 <= multi_count(enemies, idx, j) <= multi_count(enemies, idx, m),
        multi_count(enemies, idx, j) <= j,
    decreases m,
{
    if m > j {
        lemma_counts_grow(enemies, idx, j, m - 1);
    } else if j > 0 {
        lemma_counts_grow(enemies, idx, j - 1, j - 1);
    }
}

pub open spec fn at_least_one(v: int) -> int {
    if v < 1 {
        1
    } else {
        v
    }
}

/// A word's stat shared out over its `n` characters (rounded toward zero,
/// at least 1); a single character keeps it whole.
pub open spec fn share(v: i32, n: int) -> int {
    if n > 1 {
        at_least_one(div_trunc(v as int, n))
    } else {
        v as int
    }
}

/// Unit for character `ci` of enemy `e` (overworld index `ei`), deployed as
/// the `slot`-th of `total` enemy units along the top rows of a `size` arena.
pub open spec fn word_unit_ok(
    u: BattleUnit,
    e: Enemy,
    ei: usize,
    ci: int,
    slot: int,
    total: int,
    size: int,
    group: Option<usize>,
    tier: u8,
) -> bool {
    let n = e.hanzi@.len() as int;
    let ex = (size / (total + 1)) * (slot + 1);
    &&& u.kind == UnitKind::Enemy(ei)
    &&& u.x == (if ex < size - 1 { ex } else { size - 1 })
    &&& u.y == 1 + slot % 2
    &&& u.facing == Direction::South
    &&& u.hanzi@ == seq![e.hanzi@[ci]]
    &&& exists|syl: Seq<Seq<char>>|
        is_syllable_split(e.pinyin@, syl) && u.pinyin@ == (if ci < syl.len() { syl[ci] } else { seq![e.hanzi@[ci]] })
    &&& u.speed == (if e.is_boss || e.is_elite { 4int } else { 3int })
    &&& u.movement == (if e.is_elite || e.is_boss { 3int } else { 2int })
    &&& u.stored_movement == 0
    &&& u.hp == at_least_one(share(e.hp, n))
    &&& u.max_hp == at_least_one(share(e.max_hp, n))
    &&& u.damage == at_least_one(share(e.damage, n))
    &&& !u.defending
    &&& u.alive == (e.hp > 0)
    &&& u.statuses@ == e.statuses@
    &&& u.stunned == e.stunned
    &&& u.radical_armor == e.radical_armor
    &&& u.mastery_tier == tier
    &&& u.wuxing_element == first_element(e.components@)
    &&& u.word_group == (if n > 1 { group } else { None })
    &&& u.word_group_order == ci
}

/// The unit of character `ci` of the `jj`-th chosen enemy sits after `base`
/// leading units and is set up as `word_unit_ok` says.
pub open spec fn word_unit_at(
    units: Seq<BattleUnit>,
    base: int,
    enemies: Seq<Enemy>,
    idx: Seq<usize>,
    jj: int,
    ci: int,
    size: int,
    srs: SrsTracker,
) -> bool {
    let ei = idx[jj];
    let e = enemies[ei as int];
    let slot = word_count(enemies, idx, jj) + ci;
    word_unit_ok(
        units[base + slot],
        e,
        ei,
        ci,
        slot,
        word_count(enemies, idx, idx.len() as int),
        size,
        Some(multi_count(enemies, idx, jj) as usize),
        tier_in(srs.tiers@, seq![e.hanzi@[ci]]),
    )
}

/// Pushes one unit per character of `e`.
fn push_word_units(
    units: &mut Vec<BattleUnit>,
    e: &Enemy,
    ei: usize,
    slot: usize,
    total: usize,
    size: usize,
    group: Option<usize>,
    srs: &SrsTracker,
)
    requires
        7 <= size <= ARENA_MAX,
        slot + e.hanzi@.len() <= total,
        total + 2 <= MAX_UNITS,
    ensures
        final(units)@.len() == old(units)@.len() + e.hanzi@.len(),
        forall|k: int| 0 <= k < old(units)@.len() ==> final(units)@[k] == old(units)@[k],
        forall|ci: int|
            0 <= ci < e.hanzi@.len() ==> word_unit_ok(
                #[trigger] final(units)@[old(units)@.len() + ci],
                *e,
                ei,
                ci,
                slot + ci,
                total as int,
                size as int,
                group,
                tier_in(srs.tiers@, seq![e.hanzi@[ci]]),
            ),
        forall|ci: int|
            0 <= ci < e.hanzi@.len() ==> 0 <= #[trigger] final(units)@[old(units)@.len() + ci].x < size
                && 1 <= final(units)@[old(units)@.len() + ci].y <= 2,
{
    let n = e.hanzi.unicode_len();
    let syl = pinyin_syllables(e.pinyin);
    let ghost syl_view = syl@.map_values(|p: &str| p@);
    let speed = enemy_base_speed(e.is_elite, e.is_boss);
    let movement = enemy_base_movement(e.is_elite, e.is_boss);
    let multi = n > 1;
    let hp_per = if multi {
        let v = e.hp / n as i32;
        if v < 1 { 1 } else { v }
    } else {
        e.hp
    };
    let max_hp_per = if multi {
        let v = e.max_hp / n as i32;
        if v < 1 { 1 } else { v }
    } else {
        e.max_hp
    };
    let dmg_per = if multi {
        let v = e.damage / n as i32;
        if v < 1 { 1 } else { v }
    } else {
        e.damage
    };
    let element = derive_wuxing_element(e);
    let spacing: i32 = size as i32 / (total as i32 + 1);
    assert(spacing * (total + 1) <= size) by (nonlinear_arith)
        requires
            spacing == (size as int) / (total + 1),
            total + 1 > 0,
            size >= 0,
    ;
    let ghost start = units@;
    let mut ci: usize = 0;
    while ci < n
        invariant
            n == e.hanzi@.len(),
            7 <= size <= ARENA_MAX,
            slot + n <= total,
            total + 2 <= MAX_UNITS,
            spacing == (size as int) / (total + 1),
            spacing * (total + 1) <= size,
            0 <= spacing,
            ci <= n,
            syl_view == syl@.map_values(|p: &str| p@),
            is_syllable_split(e.pinyin@, syl_view),
            speed == (if e.is_boss || e.is_elite { 4int } else { 3int }),
            movement == (if e.is_elite || e.is_boss { 3int } else { 2int }),
            multi == (n > 1),
            hp_per == share(e.hp, n as int),
            max_hp_per == share(e.max_hp, n as int),
            dmg_per == share(e.damage, n as int),
            element == first_element(e.components@),
            units@.len() == start.len() + ci,
            forall|k: int| 0 <= k < start.len() ==> units@[k] == start[k],
            forall|c: int|
                0 <= c < ci ==> word_unit_ok(
                    #[trigger] units@[start.len() + c],
                    *e,
                    ei,
                    c,
                    slot + c,
                    total as int,
                    size as int,
                    group,
                    tier_in(srs.tiers@, seq![e.hanzi@[c]]),
                ),
            forall|c: int|
                0 <= c < ci ==> 0 <= #[trigger] units@[start.len() + c].x < size && 1 <= units@[start.len() + c].y <= 2,
        decreases n - ci,
    {
        let hanzi = e.hanzi.substring_char(ci, ci + 1);
        let pinyin = if ci < syl.len() { syl[ci] } else { hanzi };
        proof {
            assert(hanzi@ =~= seq![e.hanzi@[ci as int]]);
        }
        let s = (slot + ci) as i32;
        assert(spacing * (s + 1) <= spacing * (total + 1)) by (nonlinear_arith)
            requires
                0 <= spacing,
                s + 1 <= total + 1,
        ;
        assert(0 <= spacing * (s + 1)) by (nonlinear_arith)
            requires
                0 <= spacing,
                0 <= s + 1,
        ;
        let ex0 = spacing * (s + 1);
        let ex = if ex0 < size as i32 - 1 { ex0 } else { size as i32 - 1 };
        let ey = 1 + s % 2;
        let tier = srs.mastery_tier(hanzi);
        let unit = BattleUnit {
            kind: UnitKind::Enemy(ei),
            x: ex,
            y: ey,
            facing: Direction::South,
            hanzi,
            pinyin,
            speed,
            movement,
            stored_movement: 0,
            hp: if hp_per < 1 { 1 } else { hp_per },
            max_hp: if max_hp_per < 1 { 1 } else { max_hp_per },
            damage: if dmg_per < 1 { 1 } else { dmg_per },
            defending: false,
            alive: e.hp > 0,
            statuses: copy_statuses(&e.statuses),
            stunned: e.stunned,
            radical_armor: e.radical_armor,
            mastery_tier: tier,
            wuxing_element: element,
            word_group: if multi { group } else { None },
            word_group_order: ci,
        };
        units.push(unit);
        proof {
            assert(units@[start.len() + ci] == unit);
            assert(pinyin@ == (if ci < syl_view.len() { syl_view[ci as int] } else { seq![e.hanzi@[ci as int]] }));
        }
        ci += 1;
    }
}

/// Some chosen enemy is an elite.
pub open spec fn any_elite(enemies: Seq<Enemy>, idx: Seq<usize>) -> bool {
    exists|j: int| 0 <= j < idx.len() && enemies[idx[j] as int].is_elite
}

/// Some chosen enemy is a boss.
pub open spec fn any_boss(enemies: Seq<Enemy>, idx: Seq<usize>) -> bool {
    exists|j: int| 0 <= j < idx.len() && enemies[idx[j] as int].is_boss
}

/// The player's unit: bottom centre of a `size` arena, facing north, with
/// the player's HP, statuses and speed, and an attack of 2 plus bonuses.
pub open spec fn player_unit_ok(u: BattleUnit, p: Player, size: int) -> bool {
    &&& u.kind == UnitKind::Player
    &&& u.x == size / 2
    &&& u.y == size - 2
    &&& u.facing == Direction::North
    &&& u.hanzi@.len() == 0 && u.pinyin@.len() == 0
    &&& u.speed == player_base_speed_spec(p.class) + (if hasted(p.statuses@) { 2int } else { 0int }) + form_speed_mod(p.form)
    &&& u.movement == player_movement_spec(p.statuses@, PlayerStance::Balanced)
    &&& u.stored_movement == 0
    &&& u.hp == p.hp
    &&& u.max_hp == p.max_hp
    &&& u.damage == 2 + p.bonus_damage
    &&& !u.defending && u.alive
    &&& u.statuses@ == p.statuses@
    &&& !u.stunned && u.radical_armor == 0 && u.mastery_tier == 0
    &&& u.wuxing_element is None && u.word_group is None && u.word_group_order == 0
}

/// HP, attack, movement and speed a companion fights with.
pub open spec fn companion_stats(c: Companion) -> (i32, i32, i32, i32) {
    match c {
        Companion::SecurityChief => (8, 2, 2, 3),
        Companion::Medic => (6, 1, 2, 3),
        Companion::ScienceOfficer => (5, 1, 2, 3),
        Companion::Quartermaster => (5, 1, 2, 3),
    }
}

/// Glyph and reading a companion is shown with.
pub open spec fn companion_glyph(c: Companion) -> (Seq<char>, Seq<char>) {
    match c {
        Companion::SecurityChief => ("卫"@, "wèi"@),
        Companion::Medic => ("医"@, "yī"@),
        Companion::ScienceOfficer => ("研"@, "yán"@),
        Companion::Quartermaster => ("商"@, "shāng"@),
    }
}

/// The companion's unit: just left of the player at `(px, py)`.
pub open spec fn companion_unit_ok(u: BattleUnit, c: Companion, px: int, py: int) -> bool {
    let (hp, dmg, mv, sp) = companion_stats(c);
    &&& u.kind == UnitKind::Companion
    &&& u.x == px - 1
    &&& u.y == py
    &&& u.facing == Direction::North
    &&& u.hanzi@ == companion_glyph(c).0 && u.pinyin@ == companion_glyph(c).1
    &&& u.speed == sp && u.movement == mv && u.stored_movement == 0
    &&& u.hp == hp && u.max_hp == hp && u.damage == dmg
    &&& !u.defending && u.alive
    &&& u.statuses@.len() == 0
    &&& !u.stunned && u.radical_armor == 0 && u.mastery_tier == 0
    &&& u.wuxing_element is None && u.word_group is None && u.word_group_order == 0
}

fn companion_unit(c: Companion, px: i32, py: i32) -> (u: BattleUnit)
    requires
        px >= 1,
    ensures
        companion_unit_ok(u, c, px as int, py as int),
{
    let (hp, damage, movement, speed, hanzi, pinyin): (i32, i32, i32, i32, &'static str, &'static str) = match c {
        Companion::SecurityChief => (8, 2, 2, 3, "卫", "wèi"),
        Companion::Medic => (6, 1, 2, 3, "医", "yī"),
        Companion::ScienceOfficer => (5, 1, 2, 3, "研", "yán"),
        Companion::Quartermaster => (5, 1, 2, 3, "商", "shāng"),
    };
    BattleUnit {
        kind: UnitKind::Companion,
        x: px - 1,
        y: py,
        facing: Direction::North,
        hanzi,
        pinyin,
        speed,
        movement,
        stored_movement: 0,
        hp,
        max_hp: hp,
        damage,
        defending: false,
        alive: true,
        statuses: Vec::new(),
        stunned: false,
        radical_armor: 0,
        mastery_tier: 0,
        wuxing_element: None,
        word_group: None,
        word_group_order: 0,
    }
}

/// `tiles` is the deployment list of `a` for `units`, as
/// `compute_deployment_tiles` gives it.
pub open spec fn deployment_list(a: TacticalArena, units: Seq<BattleUnit>, tiles: Seq<(i32, i32)>) -> bool {
    &&& forall|k: int| 0 <= k < tiles.len() ==> deploy_ok(a, units, tiles[k].0 as int, tiles[k].1 as int)
    &&& forall|x: int, y: int| deploy_ok(a, units, x, y) ==> tiles.contains((x as i32, y as i32))
    &&& forall|k1: int, k2: int| 0 <= k1 < k2 < tiles.len() ==> row_major(a, tiles[k1]) < row_major(a, tiles[k2])
}

/// How many battle units the chosen enemies split into, or `None` when
/// they would not fit a battle beside the player and a companion.
pub fn battle_units_needed(enemies: &[Enemy], enemy_indices: &[usize]) -> (r: Option<usize>)
    requires
        forall|j: int| 0 <= j < enemy_indices@.len() ==> (#[trigger] enemy_indices@[j]) < enemies@.len(),
    ensures
        r is Some <==> word_count(enemies@, enemy_indices@, enemy_indices@.len() as int) + 2 <= MAX_UNITS,
        r matches Some(n) ==> n == word_count(enemies@, enemy_indices@, enemy_indices@.len() as int),
{
    let mut total: usize = 0;
    let mut j: usize = 0;
    while j < enemy_indices.len()
        invariant
            j <= enemy_indices@.len(),
            forall|k: int| 0 <= k < enemy_indices@.len() ==> (#[trigger] enemy_indices@[k]) < enemies@.len(),
            total == word_count(enemies@, enemy_indices@, j as int),
            total + 2 <= MAX_UNITS,
        decreases enemy_indices@.len() - j,
    {
        let n = enemies[enemy_indices[j]].hanzi.unicode_len();
        if n > MAX_UNITS - 2 - total {
            proof {
                lemma_counts_grow(enemies@, enemy_indices@, j + 1, enemy_indices@.len() as int);
            }
            return None;
        }
        total = total + n;
        j += 1;
    }
    Some(total)
}

/// Whether the chosen enemies hold an elite or a boss, and how many units
/// their words split into.
fn survey(enemies: &[Enemy], enemy_indices: &[usize]) -> (r: (bool, bool, usize))
    requires
        forall|j: int| 0 <= j < enemy_indices@.len() ==> (#[trigger] enemy_indices@[j]) < enemies@.len(),
        word_count(enemies@, enemy_indices@, enemy_indices@.len() as int) + 2 <= MAX_UNITS,
    ensures
        r.0 == any_elite(enemies@, enemy_indices@),
        r.1 == any_boss(enemies@, enemy_indices@),
        r.2 == word_count(enemies@, enemy_indices@, enemy_indices@.len() as int),
{
    let mut has_elite = false;
    let mut has_boss = false;
    let mut total: usize = 0;
    let mut j: usize = 0;
    while j < enemy_indices.len()
        invariant
            j <= enemy_indices@.len(),
            forall|k: int| 0 <= k < enemy_indices@.len() ==> (#[trigger] enemy_indices@[k]) < enemies@.len(),
            word_count(enemies@, enemy_indices@, enemy_indices@.len() as int) + 2 <= MAX_UNITS,
            has_elite == exists|k: int| 0 <= k < j && enemies@[enemy_indices@[k] as int].is_elite,
            has_boss == exists|k: int| 0 <= k < j && enemies@[enemy_indices@[k] as int].is_boss,
            total == word_count(enemies@, enemy_indices@, j as int),
        decreases enemy_indices@.len() - j,
    {
        let e = &enemies[enemy_indices[j]];
        if e.is_elite {
            has_elite = true;
        }
        if e.is_boss {
            has_boss = true;
        }
        proof {
            lemma_counts_grow(enemies@, enemy_indices@, j + 1, enemy_indices@.len() as int);
        }
        total = total + e.hanzi.unicode_len();
        j += 1;
    }
    (has_elite, has_boss, total)
}

/// The player's unit, then the companion's if there is one.
fn lead_units(player: &Player, companion: Option<Companion>, size: usize) -> (units: Vec<BattleUnit>)
    requires
        7 <= size <= ARENA_MAX,
        player.bonus_damage <= i32::MAX - 2,
    ensures
        units@.len() == (if companion is Some { 2int } else { 1int }),
        player_unit_ok(units@[0], *player, size as int),
        companion matches Some(c) ==> companion_unit_ok(units@[1], c, size as int / 2, size as int - 2),
        forall|k: int| 0 <= k < units@.len() ==> 0 <= #[trigger] units@[k].x < size && 0 <= units@[k].y < size,
{
    let px = (size / 2) as i32;
    let py = (size - 2) as i32;
    let mut units: Vec<BattleUnit> = Vec::new();
    units.push(
        BattleUnit {
            kind: UnitKind::Player,
            x: px,
            y: py,
            facing: Direction::North,
            hanzi: "",
            pinyin: "",
            speed: player_speed(player.class, player.form, player.statuses.as_slice()),
            movement: player_movement(player.form, player.statuses.as_slice(), PlayerStance::Balanced),
            stored_movement: 0,
            hp: player.hp,
            max_hp: player.max_hp,
            damage: 2 + player.bonus_damage,
            defending: false,
            alive: true,
            statuses: copy_statuses(&player.statuses),
            stunned: false,
            radical_armor: 0,
            mastery_tier: 0,
            wuxing_element: None,
            word_group: None,
            word_group_order: 0,
        },
    );
    proof {
        reveal_strlit("");
    }
    if let Some(c) = companion {
        units.push(companion_unit(c, px, py));
    }
    units
}

/// Appends the units of the chosen enemies' words, in order.
fn deploy_enemies(
    units: &mut Vec<BattleUnit>,
    enemies: &[Enemy],
    enemy_indices: &[usize],
    total: usize,
    size: usize,
    srs: &SrsTracker,
)
    requires
        7 <= size <= ARENA_MAX,
        forall|j: int| 0 <= j < enemy_indices@.len() ==> (#[trigger] enemy_indices@[j]) < enemies@.len(),
        total == word_count(enemies@, enemy_indices@, enemy_indices@.len() as int),
        total + 2 <= MAX_UNITS,
        old(units)@.len() <= 2,
    ensures
        final(units)@.len() == old(units)@.len() + total,
        forall|k: int| 0 <= k < old(units)@.len() ==> final(units)@[k] == old(units)@[k],
        forall|jj: int, ci: int|
            0 <= jj < enemy_indices@.len() && 0 <= ci < enemies@[enemy_indices@[jj] as int].hanzi@.len()
                ==> #[trigger] word_unit_at(final(units)@, old(units)@.len() as int, enemies@, enemy_indices@, jj, ci, size as int, *srs),
        forall|k: int|
            old(units)@.len() <= k < final(units)@.len() ==> 0 <= #[trigger] final(units)@[k].x < size
                && 1 <= final(units)@[k].y <= 2,
{
    let base = units.len();
    let ghost lead = units@;
    let mut slot: usize = 0;
    let mut group_id: usize = 0;
    let mut j: usize = 0;
    while j < enemy_indices.len()
        invariant
            7 <= size <= ARENA_MAX,
            j <= enemy_indices@.len(),
            forall|k: int| 0 <= k < enemy_indices@.len() ==> (#[trigger] enemy_indices@[k]) < enemies@.len(),
            total == word_count(enemies@, enemy_indices@, enemy_indices@.len() as int),
            total + 2 <= MAX_UNITS,
            base == lead.len(),
            base <= 2,
            slot == word_count(enemies@, enemy_indices@, j as int),
            group_id == multi_count(enemies@, enemy_indices@, j as int),
            units@.len() == base + slot,
            forall|k: int| 0 <= k < base ==> units@[k] == lead[k],
            forall|jj: int, ci: int|
                0 <= jj < j && 0 <= ci < enemies@[enemy_indices@[jj] as int].hanzi@.len() ==> #[trigger] word_unit_at(
                    units@,
                    base as int,
                    enemies@,
                    enemy_indices@,
                    jj,
                    ci,
                    size as int,
                    *srs,
                ),
            forall|k: int| base <= k < units@.len() ==> 0 <= #[trigger] units@[k].x < size && 1 <= units@[k].y <= 2,
        decreases enemy_indices@.len() - j,
    {
        let ei = enemy_indices[j];
        let e = &enemies[ei];
        proof {
            lemma_counts_grow(enemies@, enemy_indices@, j + 1, enemy_indices@.len() as int);
            lemma_counts_grow(enemies@, enemy_indices@, j as int, j as int);
        }
        let n = e.hanzi.unicode_len();
        let group = group_id;
        if n > 1 {
            group_id = group_id + 1;
        }
        let ghost mid = units@;
        push_word_units(units, e, ei, slot, total, size, Some(group), srs);
        proof {
            assert forall|jj: int, ci: int|
                0 <= jj < j + 1 && 0 <= ci < enemies@[enemy_indices@[jj] as int].hanzi@.len() implies #[trigger] word_unit_at(
                units@,
                base as int,
                enemies@,
                enemy_indices@,
                jj,
                ci,
                size as int,
                *srs,
            ) by {
                if jj < j {
                    lemma_counts_grow(enemies@, enemy_indices@, jj + 1, j as int);
                    lemma_counts_grow(enemies@, enemy_indices@, jj, jj);
                    assert(word_count(enemies@, enemy_indices@, jj + 1) == word_count(enemies@, enemy_indices@, jj)
                        + enemies@[enemy_indices@[jj] as int].hanzi@.len());
                    assert(word_unit_at(mid, base as int, enemies@, enemy_indices@, jj, ci, size as int, *srs));
                    assert(units@[base + word_count(enemies@, enemy_indices@, jj) + ci] == mid[base + word_count(
                        enemies@,
                        enemy_indices@,
                        jj,
                    ) + ci]);
                } else {
                    assert(units@[mid.len() + ci] == units@[base + word_count(enemies@, enemy_indices@, jj) + ci]);
                }
            }
            assert forall|k: int| base <= k < units@.len() implies 0 <= #[trigger] units@[k].x < size && 1 <= units@[k].y
                <= 2 by {
                if k >= mid.len() {
                    let ci = k - mid.len();
                    assert(units@[mid.len() + ci] == units@[k]);
                }
            }
        }
        slot = slot + n;
        j += 1;
    }
}

/// Starts a battle against the chosen enemies on `floor`. The arena's size
/// follows from elites and bosses and its biome from the room; the player
/// stands at the bottom centre with the companion, if any, to the left;
/// each enemy word becomes one unit per character along the top rows,
/// sharing out its HP and attack. When more than one tile is free for
/// deployment the battle opens in deployment with the cursor on the middle
/// one. Mastery tiers are recorded on the units; the scaling they bring
/// is left to the caller, as it is computed in floating point.
pub fn enter_combat(
    player: &Player,
    enemies: &[Enemy],
    enemy_indices: &[usize],
    floor: i32,
    room_modifier: Option<RoomModifier>,
    srs: &SrsTracker,
    companion: Option<Companion>,
) -> (battle: TacticalBattle)
    requires
        forall|j: int| 0 <= j < enemy_indices@.len() ==> (#[trigger] enemy_indices@[j]) < enemies@.len(),
        floor >= -2,
        word_count(enemies@, enemy_indices@, enemy_indices@.len() as int) + 2 <= MAX_UNITS,
        player.bonus_damage <= i32::MAX - 2,
    ensures
        ({
            let size = arena_size_spec(any_elite(enemies@, enemy_indices@), any_boss(enemies@, enemy_indices@)) as int;
            let biome = biome_spec(room_modifier);
            let base: int = if companion is Some { 2 } else { 1 };
            &&& battle.wf()
            &&& arena_frame(battle.arena, size, biome)
            &&& all_tiles(battle.arena, feature_ok(floor as int, biome))
            &&& player_unit_ok(battle.units@[0], *player, size)
            &&& (companion matches Some(c) ==> companion_unit_ok(battle.units@[1], c, size / 2, size - 2))
            &&& battle.units@.len() == base + word_count(enemies@, enemy_indices@, enemy_indices@.len() as int)
            &&& forall|jj: int, ci: int|
                0 <= jj < enemy_indices@.len() && 0 <= ci < enemies@[enemy_indices@[jj] as int].hanzi@.len()
                    ==> #[trigger] word_unit_at(battle.units@, base, enemies@, enemy_indices@, jj, ci, size, *srs)
            &&& is_turn_queue(battle.units@, battle.turn_queue@)
            &&& battle.turn_queue_pos == 0 && battle.turn_number == 1
            &&& battle.is_boss_battle == any_boss(enemies@, enemy_indices@)
            &&& battle.weather == weather_spec(floor, biome)
            &&& exists|tiles: Seq<(i32, i32)>|
                deployment_list(battle.arena, battle.units@, tiles) && (if tiles.len() > 1 {
                    battle.phase matches TacticalPhase::Deployment { cursor_x, cursor_y, valid_tiles } && valid_tiles@
                        == tiles && (cursor_x, cursor_y) == tiles[tiles.len() as int / 2]
                } else {
                    battle.phase is Command
                })
            &&& battle.log@.len() == 1 && battle.log@[0]@ == "Battle begins!"@
            &&& battle.focus == 10 && battle.max_focus == 10
            &&& battle.player_stance == PlayerStance::Balanced
            &&& !battle.player_moved && !battle.player_acted && !battle.intents_calculated
            &&& battle.event_message is None && battle.event_message_timer == 0
            &&& battle.combo_message is None && battle.combo_message_timer == 0
            &&& battle.arena_event_timer == 3 && battle.pending_event is None
            &&& battle.companion_kind == companion
            &&& battle.audio_events@.len() == 0
            &&& battle.arcing_projectiles@.len() == 0 && battle.pending_impacts@.len() == 0
            &&& battle.riposte_charges == player.riposte_charges
            &&& battle.overcharge_active == player.overcharge_active
            &&& battle.hard_answer_armor_bonus == player.hard_answer_armor_bonus
        }),
{
    let (has_elite, has_boss, total) = survey(enemies, enemy_indices);
    let size = arena_size_for_encounter(has_elite, has_boss);
    let biome = ArenaBiome::from_room_modifier(room_modifier);
    let arena = generate_arena(floor, size, biome);
    let mut units = lead_units(player, companion, size);
    let ghost lead = units@;
    deploy_enemies(&mut units, enemies, enemy_indices, total, size, srs);
    let turn_queue = build_turn_queue(units.as_slice());
    let weather = pick_weather(floor, biome);
    let deploy = compute_deployment_tiles(&arena, units.as_slice());
    let ghost tiles = deploy@;
    let phase = if deploy.len() > 1 {
        let (cx, cy) = deploy[deploy.len() / 2];
        TacticalPhase::Deployment { cursor_x: cx, cursor_y: cy, valid_tiles: deploy }
    } else {
        TacticalPhase::Command
    };
    let mut log: Vec<String> = Vec::new();
    log.push(String::from_str("Battle begins!"));
    let battle = TacticalBattle {
        units,
        arena,
        phase,
        turn_queue,
        turn_queue_pos: 0,
        turn_number: 1,
        log,
        audio_events: Vec::new(),
        weather,
        focus: 10,
        max_focus: 10,
        player_stance: PlayerStance::Balanced,
        player_moved: false,
        player_acted: false,
        intents_calculated: false,
        event_message: None,
        event_message_timer: 0,
        combo_message: None,
        combo_message_timer: 0,
        arena_event_timer: 3,
        pending_event: None,
        is_boss_battle: has_boss,
        companion_kind: companion,
        arcing_projectiles: Vec::new(),
        pending_impacts: Vec::new(),
        riposte_charges: player.riposte_charges,
        overcharge_active: player.overcharge_active,
        hard_answer_armor_bonus: player.hard_answer_armor_bonus,
    };
    proof {
        assert forall|i: int| 0 <= i < battle.units@.len() implies battle.arena.in_bounds_spec(
            #[trigger] battle.units@[i].x as int,
            battle.units@[i].y as int,
        ) by {
            if i < lead.len() {
                assert(battle.units@[i] == lead[i]);
            }
        }
        assert(battle.units@[0] == lead[0]);
        assert(companion is Some ==> battle.units@[1] == lead[1]);
        assert(deployment_list(battle.arena, battle.units@, tiles));
    }
    battle
}

} // verus!
