//! Tactical battles: the arena grid, the units on it, and the battle state
//! that the turn and environment rules update.

pub mod turn;
pub mod tick;
pub mod events;
pub mod transition;

use vstd::prelude::*;
use crate::status::StatusInstance;
use crate::player::Companion;
use crate::util::sat_add;
use crate::text::str_eq;
use crate::world::RoomModifier;

verus! {

/// Largest arena side; keeps every coordinate sum inside `i32`.
pub const ARENA_MAX: usize = 46340;

/// Largest number of units in one battle.
pub const MAX_UNITS: usize = 65536;

#[derive(Clone, Copy, Debug, PartialEq, Eq, Structural)]
pub enum UnitKind {
    Player,
    Enemy(usize),
    Companion,
}

#[derive(Clone, Copy, Debug, PartialEq, Eq, Structural)]
pub enum Direction {
    North,
    South,
    East,
    West,
}

impl Direction {
    pub open spec fn from_delta_spec(dx: int, dy: int) -> Option<Direction> {
        let ax = if dx < 0 { -dx } else { dx };
        let ay = if dy < 0 { -dy } else { dy };
        if dx == 0 && dy == 0 {
            None
        } else if ax >= ay {
            if dx > 0 { Some(Direction::East) } else { Some(Direction::West) }
        } else {
            if dy > 0 { Some(Direction::South) } else { Some(Direction::North) }
        }
    }

    /// The direction of a step `(dx, dy)`, along the longer axis (the x axis on
    /// a tie); `None` for no step.
    pub fn from_delta(dx: i32, dy: i32) -> (d: Option<Direction>)
        requires
            -ARENA_MAX <= dx <= ARENA_MAX,
            -ARENA_MAX <= dy <= ARENA_MAX,
        ensures
            d == Self::from_delta_spec(dx as int, dy as int),
    {
        let ax = if dx < 0 { -dx } else { dx };
        let ay = if dy < 0 { -dy } else { dy };
        if dx == 0 && dy == 0 {
            None
        } else if ax >= ay {
            if dx > 0 { Some(Direction::East) } else { Some(Direction::West) }
        } else {
            if dy > 0 { Some(Direction::South) } else { Some(Direction::North) }
        }
    }
}

#[derive(Clone, Copy, Debug, PartialEq, Eq, Structural)]
pub enum BattleTile {
    MetalFloor,
    CoverBarrier,
    CargoCrate,
    FuelCanister,
    BlastMark,
    CoolantPool,
    FrozenCoolant,
    Lubricant,
    Debris,
    VentSteam,
    SteamVentInactive,
    ConveyorN,
    ConveyorS,
    ConveyorE,
    ConveyorW,
    GravityWell,
    WeakenedPlating,
    DamagedFloor,
    DamagedPlating,
    OilSlick,
    PlasmaPool,
    WiringPanel,
    PipeTangle,
    ElectrifiedWire,
    PowerDrain,
    EnergyNode,
    MineTile,
    HoloTrap,
    GravityTrap,
    ElevatedPlatform,
    CryoZone,
    ChargingPad,
    /// A vent that cycles through charging and discharging on a per-tile timer.
    EnergyVent,
}

impl BattleTile {
    /// Barriers, crates, canisters and pipe tangles block movement.
    pub open spec fn walkable_spec(self) -> bool {
        !(self is CoverBarrier || self is CargoCrate || self is FuelCanister || self is PipeTangle)
    }

    pub fn is_walkable(self) -> (b: bool)
        ensures
            b == self.walkable_spec(),
    {
        match self {
            BattleTile::CoverBarrier | BattleTile::CargoCrate | BattleTile::FuelCanister | BattleTile::PipeTangle => false,
            _ => true,
        }
    }

    /// The direction a conveyor tile moves what stands on it.
    pub open spec fn conveyor_spec(self) -> Option<(i32, i32)> {
        match self {
            BattleTile::ConveyorN => Some((0i32, -1i32)),
            BattleTile::ConveyorS => Some((0i32, 1i32)),
            BattleTile::ConveyorE => Some((1i32, 0i32)),
            BattleTile::ConveyorW => Some((-1i32, 0i32)),
            _ => None,
        }
    }

    pub fn conveyor(self) -> (d: Option<(i32, i32)>)
        ensures
            d == self.conveyor_spec(),
    {
        match self {
            BattleTile::ConveyorN => Some((0, -1)),
            BattleTile::ConveyorS => Some((0, 1)),
            BattleTile::ConveyorE => Some((1, 0)),
            BattleTile::ConveyorW => Some((-1, 0)),
            _ => None,
        }
    }
}

#[derive(Clone, Copy, Debug, PartialEq, Eq, Structural)]
pub enum ArenaBiome {
    StationInterior,
    DerelictShip,
    IrradiatedZone,
    CryoBay,
    ReactorRoom,
    Hydroponics,
    AlienRuins,
}

#[derive(Clone, Copy, Debug, PartialEq, Eq, Structural)]
pub enum Weather {
    Normal,
    CoolantLeak,
    DebrisStorm,
    SmokeScreen,
    EnergyFlux,
}

#[derive(Clone, Copy, Debug, PartialEq, Eq, Structural)]
pub enum ArenaEvent {
    CoolantFlood,
    HullBreach,
    PowerSurge,
    VentBlast,
    ArcDischarge,
    PlasmaLeak,
    MediGas,
    CryoVent,
    DebrisBurst,
    SystemGlitch,
    NaniteSpread,
    ReactorBlowout,
}

impl ArenaEvent {
    pub open spec fn name_spec(self) -> &'static str {
        match self {
            ArenaEvent::CoolantFlood => "Coolant Flood",
            ArenaEvent::HullBreach => "Hull Breach",
            ArenaEvent::PowerSurge => "Power Surge",
            ArenaEvent::VentBlast => "Vent Blast",
            ArenaEvent::ArcDischarge => "Arc Discharge",
            ArenaEvent::PlasmaLeak => "Plasma Leak",
            ArenaEvent::MediGas => "Medi-Gas",
            ArenaEvent::CryoVent => "Cryo Vent",
            ArenaEvent::DebrisBurst => "Debris Burst",
            ArenaEvent::SystemGlitch => "System Glitch",
            ArenaEvent::NaniteSpread => "Nanite Spread",
            ArenaEvent::ReactorBlowout => "Reactor Blowout",
        }
    }

    pub fn name(self) -> (s: &'static str)
        ensures
            s == self.name_spec(),
    {
        match self {
            ArenaEvent::CoolantFlood => "Coolant Flood",
            ArenaEvent::HullBreach => "Hull Breach",
            ArenaEvent::PowerSurge => "Power Surge",
            ArenaEvent::VentBlast => "Vent Blast",
            ArenaEvent::ArcDischarge => "Arc Discharge",
            ArenaEvent::PlasmaLeak => "Plasma Leak",
            ArenaEvent::MediGas => "Medi-Gas",
            ArenaEvent::CryoVent => "Cryo Vent",
            ArenaEvent::DebrisBurst => "Debris Burst",
            ArenaEvent::SystemGlitch => "System Glitch",
            ArenaEvent::NaniteSpread => "Nanite Spread",
            ArenaEvent::ReactorBlowout => "Reactor Blowout",
        }
    }
}

#[derive(Clone, Copy, Debug, PartialEq, Eq, Structural)]
pub enum AudioEvent {
    ConveyorMove,
    CrateCrush,
    CratePush,
    GravityPull,
    Heal,
    LavaRumble,
    ProjectileImpact,
    StatusPoison,
    StatusSlow,
    SteamVent,
    TurnTick,
    WaterSplash,
}

#[derive(Clone, Copy, Debug, PartialEq, Eq, Structural)]
pub enum WuxingElement {
    Wood,
    Fire,
    Earth,
    Metal,
    Water,
}

#[derive(Clone, Copy, Debug, PartialEq, Eq, Structural)]
pub enum PlayerStance {
    Balanced,
    Aggressive,
    Defensive,
    Mobile,
    Focused,
}

impl PlayerStance {
    pub open spec fn spell_power_mod_spec(self) -> i32 {
        match self {
            PlayerStance::Focused => 2,
            PlayerStance::Aggressive => 1,
            _ => 0,
        }
    }

    /// Extra spell power the stance gives.
    pub fn spell_power_mod(self) -> (m: i32)
        ensures
            m == self.spell_power_mod_spec(),
    {
        match self {
            PlayerStance::Focused => 2,
            PlayerStance::Aggressive => 1,
            _ => 0,
        }
    }
}

/// What a spell does where it lands.
#[derive(Clone, Copy, Debug, PartialEq, Eq, Structural)]
pub enum SpellEffect {
    StrongHit(i32),
    Drain(i32),
    Stun,
    Poison(i32, i32),
    Slow(i32),
    Pierce(i32),
    KnockBack(i32),
    Heal(i32),
}

#[derive(Clone, Copy, Debug, PartialEq, Eq, Structural)]
pub enum ProjectileEffect {
    Damage(i32),
    PiercingDamage(i32),
    SpellHit(SpellEffect),
}

/// A projectile lobbed over several turns onto a target tile.
#[derive(Clone, Copy, Debug, PartialEq, Eq)]
pub struct ArcingProjectile {
    pub target_x: i32,
    pub target_y: i32,
    pub turns_remaining: i32,
    pub effect: ProjectileEffect,
    pub glyph: &'static str,
    pub color: &'static str,
    pub owner_is_player: bool,
    pub fresh: bool,
    pub aoe_radius: i32,
}

/// A telegraphed strike that lands on an area after a countdown.
#[derive(Clone, Copy, Debug, PartialEq, Eq)]
pub struct PendingImpact {
    pub x: i32,
    pub y: i32,
    pub turns_until_hit: u32,
    pub damage: i32,
    pub radius: u32,
    pub source_is_player: bool,
    pub element: Option<WuxingElement>,
    pub glyph: &'static str,
    pub color: &'static str,
}

#[derive(Clone, Debug)]
pub struct BattleUnit {
    pub kind: UnitKind,
    pub x: i32,
    pub y: i32,
    pub facing: Direction,
    pub hanzi: &'static str,
    pub pinyin: &'static str,
    pub speed: i32,
    pub movement: i32,
    pub stored_movement: i32,
    pub hp: i32,
    pub max_hp: i32,
    pub damage: i32,
    pub defending: bool,
    pub alive: bool,
    pub statuses: Vec<StatusInstance>,
    pub stunned: bool,
    pub radical_armor: i32,
    pub mastery_tier: u8,
    pub wuxing_element: Option<WuxingElement>,
    pub word_group: Option<usize>,
    pub word_group_order: usize,
}

impl BattleUnit {
    pub fn is_player(&self) -> (b: bool)
        ensures
            b == (self.kind is Player),
    {
        matches!(self.kind, UnitKind::Player)
    }

    pub fn is_enemy(&self) -> (b: bool)
        ensures
            b == (self.kind is Enemy),
    {
        matches!(self.kind, UnitKind::Enemy(_))
    }

    pub fn is_companion(&self) -> (b: bool)
        ensures
            b == (self.kind is Companion),
    {
        matches!(self.kind, UnitKind::Companion)
    }
}

/// Phase of a battle, with the timers and data each phase carries.
#[derive(Clone, Debug)]
pub enum TacticalPhase {
    Command,
    Look { cursor_x: i32, cursor_y: i32 },
    Deployment { cursor_x: i32, cursor_y: i32, valid_tiles: Vec<(i32, i32)> },
    Resolve { message: String, timer: u8, end_turn: bool },
    EnemyTurn { unit_idx: usize, timer: u8, acted: bool },
    ProjectileAnimation { message: String, end_turn: bool },
    EnvironmentTick { timer: u8 },
    End { victory: bool, timer: u8 },
}

/// What a battle tick reports to the game loop.
#[derive(Clone, Copy, Debug, PartialEq, Eq, Structural)]
pub enum BattleEvent {
    NoEvent,
    Victory,
    Defeat,
}

/// The arena grid, row by row, with a steam timer per tile.
#[derive(Clone, Debug)]
pub struct TacticalArena {
    pub width: usize,
    pub height: usize,
    pub tiles: Vec<BattleTile>,
    pub steam_timers: Vec<u8>,
    pub biome: ArenaBiome,
}

impl TacticalArena {
    pub open spec fn wf(&self) -> bool {
        &&& 1 <= self.width <= ARENA_MAX
        &&& 1 <= self.height <= ARENA_MAX
        &&& self.tiles@.len() == self.width * self.height
        &&& self.steam_timers@.len() == self.width * self.height
    }

    pub open spec fn in_bounds_spec(&self, x: int, y: int) -> bool {
        0 <= x < self.width && 0 <= y < self.height
    }

    pub open spec fn index_of(&self, x: int, y: int) -> int {
        y * self.width + x
    }

    /// The tile at `(x, y)`, `None` outside the grid.
    pub open spec fn tile_spec(&self, x: int, y: int) -> Option<BattleTile> {
        if self.in_bounds_spec(x, y) {
            Some(self.tiles@[self.index_of(x, y)])
        } else {
            None
        }
    }

    /// A grid that reads as `tile_spec` everywhere and has the same shape.
    pub open spec fn same_shape(&self, other: &TacticalArena) -> bool {
        &&& self.width == other.width
        &&& self.height == other.height
        &&& self.biome == other.biome
        &&& self.tiles@.len() == other.tiles@.len()
        &&& self.steam_timers@.len() == other.steam_timers@.len()
    }

    /// This grid is `other` with the tile at `(x, y)` replaced by `t`.
    pub open spec fn is_set(&self, other: &TacticalArena, x: int, y: int, t: BattleTile) -> bool {
        &&& self.same_shape(other)
        &&& self.steam_timers@ == other.steam_timers@
        &&& forall|px: int, py: int|
            #[trigger] self.tile_spec(px, py) == if px == x && py == y && other.in_bounds_spec(x, y) {
                Some(t)
            } else {
                other.tile_spec(px, py)
            }
    }

    pub fn in_bounds(&self, x: i32, y: i32) -> (b: bool)
        ensures
            b == self.in_bounds_spec(x as int, y as int),
    {
        x >= 0 && y >= 0 && (x as usize) < self.width && (y as usize) < self.height
    }

    pub fn idx(&self, x: i32, y: i32) -> (i: Option<usize>)
        requires
            self.wf(),
        ensures
            self.in_bounds_spec(x as int, y as int) ==> i == Some(self.index_of(x as int, y as int) as usize),
            !self.in_bounds_spec(x as int, y as int) ==> i is None,
            i matches Some(k) ==> k < self.tiles@.len(),
    {
        if self.in_bounds(x, y) {
            proof {
                lemma_index_in_grid(self, x as int, y as int);
            }
            Some(y as usize * self.width + x as usize)
        } else {
            None
        }
    }

    pub fn tile(&self, x: i32, y: i32) -> (t: Option<BattleTile>)
        requires
            self.wf(),
        ensures
            t == self.tile_spec(x as int, y as int),
    {
        proof {
            if self.in_bounds_spec(x as int, y as int) {
                lemma_index_in_grid(self, x as int, y as int);
            }
        }
        match self.idx(x, y) {
            Some(i) => Some(self.tiles[i]),
            None => None,
        }
    }

    /// Replaces the tile at `(x, y)`; does nothing outside the grid.
    pub fn set_tile(&mut self, x: i32, y: i32, t: BattleTile)
        requires
            old(self).wf(),
        ensures
            final(self).wf(),
            final(self).is_set(old(self), x as int, y as int, t),
    {
        let ghost start = *self;
        if let Some(i) = self.idx(x, y) {
            proof {
                lemma_index_in_grid(self, x as int, y as int);
            }
            self.tiles.set(i, t);
            proof {
                assert forall|px: int, py: int|
                    #[trigger] self.tile_spec(px, py) == if px == x && py == y && start.in_bounds_spec(x as int, y as int) {
                        Some(t)
                    } else {
                        start.tile_spec(px, py)
                    } by {
                    if self.in_bounds_spec(px, py) {
                        lemma_index_in_grid(self, px, py);
                        if px != x || py != y {
                            lemma_index_injective(self, px, py, x as int, y as int);
                        }
                    }
                }
            }
        }
    }

    /// Turns the tile at `(x, y)` into vent steam lasting `turns`.
    pub fn set_steam(&mut self, x: i32, y: i32, turns: u8)
        requires
            old(self).wf(),
        ensures
            final(self).wf(),
            final(self).same_shape(old(self)),
            forall|px: int, py: int|
                #[trigger] final(self).tile_spec(px, py) == if px == x && py == y && old(self).in_bounds_spec(x as int, y as int) {
                    Some(BattleTile::VentSteam)
                } else {
                    old(self).tile_spec(px, py)
                },
            old(self).in_bounds_spec(x as int, y as int) ==> final(self).steam_timers@ == old(self).steam_timers@.update(
                old(self).index_of(x as int, y as int),
                turns,
            ),
            !old(self).in_bounds_spec(x as int, y as int) ==> final(self).steam_timers@ == old(self).steam_timers@,
    {
        let ghost start = *self;
        if let Some(i) = self.idx(x, y) {
            proof {
                lemma_index_in_grid(self, x as int, y as int);
            }
            self.tiles.set(i, BattleTile::VentSteam);
            self.steam_timers.set(i, turns);
            proof {
                assert forall|px: int, py: int|
                    #[trigger] self.tile_spec(px, py) == if px == x && py == y && start.in_bounds_spec(x as int, y as int) {
                        Some(BattleTile::VentSteam)
                    } else {
                        start.tile_spec(px, py)
                    } by {
                    if self.in_bounds_spec(px, py) {
                        lemma_index_in_grid(self, px, py);
                        if px != x || py != y {
                            lemma_index_injective(self, px, py, x as int, y as int);
                        }
                    }
                }
            }
        }
    }
}

impl TacticalArena {
    /// A `width` by `height` grid of plain metal floor with no timers running.
    pub fn new(width: usize, height: usize, biome: ArenaBiome) -> (a: TacticalArena)
        requires
            1 <= width <= ARENA_MAX,
            1 <= height <= ARENA_MAX,
        ensures
            a.wf(),
            a.width == width,
            a.height == height,
            a.biome == biome,
            forall|i: int| 0 <= i < a.tiles@.len() ==> a.tiles@[i] == BattleTile::MetalFloor,
            forall|i: int| 0 <= i < a.steam_timers@.len() ==> a.steam_timers@[i] == 0,
    {
        assert(width * height <= ARENA_MAX * ARENA_MAX) by (nonlinear_arith)
            requires
                1 <= width <= ARENA_MAX,
                1 <= height <= ARENA_MAX,
        ;
        let n = width * height;
        let mut tiles: Vec<BattleTile> = Vec::new();
        let mut timers: Vec<u8> = Vec::new();
        let mut i: usize = 0;
        while i < n
            invariant
                i <= n,
                tiles@.len() == i,
                timers@.len() == i,
                forall|j: int| 0 <= j < i ==> tiles@[j] == BattleTile::MetalFloor,
                forall|j: int| 0 <= j < i ==> timers@[j] == 0,
            decreases n - i,
        {
            tiles.push(BattleTile::MetalFloor);
            timers.push(0);
            i += 1;
        }
        TacticalArena { width, height, tiles, steam_timers: timers, biome }
    }

    /// Places an energy vent at `(x, y)` whose cycle starts at `timer`; does
    /// nothing outside the grid.
    pub fn set_energy_vent(&mut self, x: i32, y: i32, timer: u8)
        requires
            old(self).wf(),
        ensures
            final(self).wf(),
            final(self).same_shape(old(self)),
            forall|px: int, py: int|
                #[trigger] final(self).tile_spec(px, py) == if px == x && py == y && old(self).in_bounds_spec(x as int, y as int) {
                    Some(BattleTile::EnergyVent)
                } else {
                    old(self).tile_spec(px, py)
                },
            old(self).in_bounds_spec(x as int, y as int) ==> final(self).steam_timers@ == old(self).steam_timers@.update(
                old(self).index_of(x as int, y as int),
                timer,
            ),
            !old(self).in_bounds_spec(x as int, y as int) ==> final(self).steam_timers@ == old(self).steam_timers@,
    {
        self.set_tile(x, y, BattleTile::EnergyVent);
        let ghost mid = *self;
        if let Some(i) = self.idx(x, y) {
            proof {
                lemma_index_in_grid(&mid, x as int, y as int);
                assert(mid.steam_timers@ == old(self).steam_timers@);
            }
            self.steam_timers.set(i, timer);
            assert forall|px: int, py: int| #[trigger] self.tile_spec(px, py) == mid.tile_spec(px, py) by {}
        }
    }
}

/// Side of the square arena: 7 for a plain fight, 9 with an elite, 11 with
/// a boss.
pub open spec fn arena_size_spec(has_elite: bool, has_boss: bool) -> usize {
    if has_boss {
        11
    } else if has_elite {
        9
    } else {
        7
    }
}

/// Side of the square arena for an encounter; bosses get the largest.
pub fn arena_size_for_encounter(has_elite: bool, has_boss: bool) -> (size: usize)
    ensures
        size == arena_size_spec(has_elite, has_boss),
{
    if has_boss {
        11
    } else if has_elite {
        9
    } else {
        7
    }
}

/// The biome a room's atmosphere gives its battles; an ordinary room is
/// station interior.
pub open spec fn biome_spec(modifier: Option<RoomModifier>) -> ArenaBiome {
    match modifier {
        None => ArenaBiome::StationInterior,
        Some(RoomModifier::PoweredDown) => ArenaBiome::DerelictShip,
        Some(RoomModifier::HighTech) => ArenaBiome::AlienRuins,
        Some(RoomModifier::Irradiated) => ArenaBiome::IrradiatedZone,
        Some(RoomModifier::Cryogenic) => ArenaBiome::CryoBay,
        Some(RoomModifier::OverheatedReactor) => ArenaBiome::ReactorRoom,
        Some(RoomModifier::Hydroponics) => ArenaBiome::Hydroponics,
    }
}

impl ArenaBiome {
    pub fn from_room_modifier(modifier: Option<RoomModifier>) -> (b: ArenaBiome)
        ensures
            b == biome_spec(modifier),
    {
        match modifier {
            None => ArenaBiome::StationInterior,
            Some(RoomModifier::PoweredDown) => ArenaBiome::DerelictShip,
            Some(RoomModifier::HighTech) => ArenaBiome::AlienRuins,
            Some(RoomModifier::Irradiated) => ArenaBiome::IrradiatedZone,
            Some(RoomModifier::Cryogenic) => ArenaBiome::CryoBay,
            Some(RoomModifier::OverheatedReactor) => ArenaBiome::ReactorRoom,
            Some(RoomModifier::Hydroponics) => ArenaBiome::Hydroponics,
        }
    }
}

/// The element a component radical stands for: the five element characters
/// themselves.
pub open spec fn element_of(radical: Seq<char>) -> Option<WuxingElement> {
    if radical == "木"@ {
        Some(WuxingElement::Wood)
    } else if radical == "火"@ {
        Some(WuxingElement::Fire)
    } else if radical == "土"@ {
        Some(WuxingElement::Earth)
    } else if radical == "金"@ {
        Some(WuxingElement::Metal)
    } else if radical == "水"@ {
        Some(WuxingElement::Water)
    } else {
        None
    }
}

impl WuxingElement {
    pub fn from_radical(radical: &str) -> (e: Option<WuxingElement>)
        ensures
            e == element_of(radical@),
    {
        if str_eq(radical, "木") {
            Some(WuxingElement::Wood)
        } else if str_eq(radical, "火") {
            Some(WuxingElement::Fire)
        } else if str_eq(radical, "土") {
            Some(WuxingElement::Earth)
        } else if str_eq(radical, "金") {
            Some(WuxingElement::Metal)
        } else if str_eq(radical, "水") {
            Some(WuxingElement::Water)
        } else {
            None
        }
    }
}

pub proof fn lemma_index_in_grid(a: &TacticalArena, x: int, y: int)
    requires
        a.wf(),
        a.in_bounds_spec(x, y),
    ensures
        0 <= a.index_of(x, y) < a.tiles@.len(),
        a.index_of(x, y) < ARENA_MAX * ARENA_MAX,
{
    let w = a.width as int;
    let h = a.height as int;
    assert(y * w + x < w * h) by (nonlinear_arith)
        requires
            0 <= x < w,
            0 <= y < h,
    ;
    assert(w * h <= ARENA_MAX * ARENA_MAX) by (nonlinear_arith)
        requires
            1 <= w <= ARENA_MAX,
            1 <= h <= ARENA_MAX,
    ;
    assert(0 <= y * w) by (nonlinear_arith)
        requires
            0 <= y,
            0 <= w,
    ;
}

/// Distinct in-bounds positions have distinct indices.
pub proof fn lemma_index_injective(a: &TacticalArena, x1: int, y1: int, x2: int, y2: int)
    requires
        a.wf(),
        a.in_bounds_spec(x1, y1),
        a.in_bounds_spec(x2, y2),
        x1 != x2 || y1 != y2,
    ensures
        a.index_of(x1, y1) != a.index_of(x2, y2),
{
    let w = a.width as int;
    if y1 < y2 {
        assert(y1 * w + x1 < y2 * w + x2) by (nonlinear_arith)
            requires
                y1 < y2,
                0 <= x1 < w,
                0 <= x2,
        ;
    } else if y2 < y1 {
        assert(y2 * w + x2 < y1 * w + x1) by (nonlinear_arith)
            requires
                y2 < y1,
                0 <= x2 < w,
                0 <= x1,
        ;
    }
}

/// The grid has at most `ARENA_MAX` squared cells.
pub proof fn lemma_grid_cells(a: &TacticalArena)
    requires
        a.wf(),
    ensures
        a.tiles@.len() <= ARENA_MAX * ARENA_MAX,
{
    let w = a.width as int;
    let h = a.height as int;
    assert(w * h <= ARENA_MAX * ARENA_MAX) by (nonlinear_arith)
        requires
            1 <= w <= ARENA_MAX,
            1 <= h <= ARENA_MAX,
    ;
}

/// Every in-range index names the position `(i % w, i / w)`.
pub proof fn lemma_index_position(a: &TacticalArena, i: int)
    requires
        a.wf(),
        0 <= i < a.tiles@.len(),
    ensures
        a.in_bounds_spec(i % (a.width as int), i / (a.width as int)),
        a.index_of(i % (a.width as int), i / (a.width as int)) == i,
{
    let w = a.width as int;
    let h = a.height as int;
    assert(i / w < h) by (nonlinear_arith)
        requires
            0 <= i < w * h,
            w >= 1,
    ;
    assert(i == (i / w) * w + i % w) by (nonlinear_arith)
        requires
            w >= 1,
    ;
    assert(0 <= i / w) by (nonlinear_arith)
        requires
            0 <= i,
            w >= 1,
    ;
}

/// State of one tactical battle.
pub struct TacticalBattle {
    pub units: Vec<BattleUnit>,
    pub arena: TacticalArena,
    pub phase: TacticalPhase,
    pub turn_queue: Vec<usize>,
    pub turn_queue_pos: usize,
    pub turn_number: u32,
    pub log: Vec<String>,
    pub audio_events: Vec<AudioEvent>,
    pub weather: Weather,
    pub focus: i32,
    pub max_focus: i32,
    pub player_stance: PlayerStance,
    pub player_moved: bool,
    pub player_acted: bool,
    pub intents_calculated: bool,
    pub event_message: Option<String>,
    pub event_message_timer: u8,
    pub combo_message: Option<String>,
    pub combo_message_timer: u8,
    pub arena_event_timer: u32,
    pub pending_event: Option<ArenaEvent>,
    pub is_boss_battle: bool,
    pub companion_kind: Option<Companion>,
    pub arcing_projectiles: Vec<ArcingProjectile>,
    pub pending_impacts: Vec<PendingImpact>,
    pub riposte_charges: u32,
    pub overcharge_active: bool,
    pub hard_answer_armor_bonus: i32,
}

/// Position of the first living unit standing at `(x, y)`.
pub open spec fn unit_at_spec(units: Seq<BattleUnit>, x: int, y: int) -> Option<usize> {
    if exists|i: int| 0 <= i < units.len() && occupies(units[i], x, y) {
        Some((choose|i: int| 0 <= i < units.len() && occupies(units[i], x, y) && forall|j: int|
            0 <= j < i ==> !occupies(units[j], x, y)) as usize)
    } else {
        None
    }
}

/// A living unit standing at `(x, y)`.
pub open spec fn occupies(u: BattleUnit, x: int, y: int) -> bool {
    u.alive && u.x == x && u.y == y
}

/// The unit after taking `dmg` raw damage: its armor absorbs part of it,
/// and at zero hit points it is dead.
pub open spec fn damaged(u: BattleUnit, dmg: int) -> BattleUnit {
    let hp = clamp_i32(u.hp - damage_taken(u, dmg));
    if hp <= 0 {
        BattleUnit { hp: 0, alive: false, ..u }
    } else {
        BattleUnit { hp: hp as i32, ..u }
    }
}

/// Damage that gets through the unit's armor, never below zero.
pub open spec fn damage_taken(u: BattleUnit, dmg: int) -> int {
    let d = dmg - u.radical_armor;
    if d < 0 {
        0
    } else {
        clamp_i32(d)
    }
}

/// Damage that ignores armor: hit points drop by exactly `dmg`.
pub open spec fn pierced(u: BattleUnit, dmg: int) -> BattleUnit {
    let hp = clamp_i32(u.hp - dmg);
    if hp <= 0 {
        BattleUnit { hp: 0, alive: false, ..u }
    } else {
        BattleUnit { hp: hp as i32, ..u }
    }
}

/// Hit points raised by `amount`, then capped at `max_hp`.
pub open spec fn healed(u: BattleUnit, amount: int) -> BattleUnit {
    let h = clamp_i32(u.hp + amount);
    BattleUnit { hp: if h < u.max_hp { h as i32 } else { u.max_hp }, ..u }
}

pub open spec fn clamp_i32(v: int) -> int {
    crate::status::clamp32(v)
}

impl TacticalBattle {
    pub open spec fn wf(&self) -> bool {
        &&& self.arena.wf()
        &&& 1 <= self.units@.len() <= MAX_UNITS
        &&& forall|i: int|
            0 <= i < self.units@.len() ==> self.arena.in_bounds_spec(
                #[trigger] self.units@[i].x as int,
                self.units@[i].y as int,
            )
    }

    /// The battle with only its units replaced.
    pub open spec fn with_units(&self, units: Vec<BattleUnit>) -> TacticalBattle {
        TacticalBattle { units, ..*self }
    }

    /// Position of the first living unit at `(x, y)`.
    pub fn unit_at(&self, x: i32, y: i32) -> (r: Option<usize>)
        ensures
            r == unit_at_spec(self.units@, x as int, y as int),
            r matches Some(i) ==> i < self.units@.len() && occupies(self.units@[i as int], x as int, y as int),
    {
        let mut i: usize = 0;
        while i < self.units.len()
            invariant
                i <= self.units@.len(),
                forall|j: int| 0 <= j < i ==> !occupies(#[trigger] self.units@[j], x as int, y as int),
            decreases self.units@.len() - i,
        {
            let u = &self.units[i];
            if u.alive && u.x == x && u.y == y {
                proof {
                    assert(occupies(self.units@[i as int], x as int, y as int));
                    let c = choose|k: int|
                        0 <= k < self.units@.len() && occupies(self.units@[k], x as int, y as int) && forall|j: int|
                            0 <= j < k ==> !occupies(self.units@[j], x as int, y as int);
                    if c < i {
                    } else if c > i {
                        assert(!occupies(self.units@[i as int], x as int, y as int));
                    }
                }
                return Some(i);
            }
            i += 1;
        }
        None
    }

    /// Index of the unit whose turn it is.
    pub fn current_unit_idx(&self) -> (i: usize)
        requires
            self.turn_queue_pos < self.turn_queue@.len(),
        ensures
            i == self.turn_queue@[self.turn_queue_pos as int],
    {
        self.turn_queue[self.turn_queue_pos]
    }

    pub open spec fn player_dead_spec(&self) -> bool {
        forall|i: int| 0 <= i < self.units@.len() && (#[trigger] self.units@[i]).kind is Player ==> !self.units@[i].alive
    }

    pub open spec fn all_enemies_dead_spec(&self) -> bool {
        forall|i: int| 0 <= i < self.units@.len() && (#[trigger] self.units@[i]).kind is Enemy ==> !self.units@[i].alive
    }

    /// No living player unit remains.
    pub fn player_dead(&self) -> (b: bool)
        ensures
            b == self.player_dead_spec(),
    {
        let mut i: usize = 0;
        while i < self.units.len()
            invariant
                i <= self.units@.len(),
                forall|j: int| 0 <= j < i && (#[trigger] self.units@[j]).kind is Player ==> !self.units@[j].alive,
            decreases self.units@.len() - i,
        {
            if self.units[i].is_player() && self.units[i].alive {
                return false;
            }
            i += 1;
        }
        true
    }

    /// No living enemy unit remains.
    pub fn all_enemies_dead(&self) -> (b: bool)
        ensures
            b == self.all_enemies_dead_spec(),
    {
        let mut i: usize = 0;
        while i < self.units.len()
            invariant
                i <= self.units@.len(),
                forall|j: int| 0 <= j < i && (#[trigger] self.units@[j]).kind is Enemy ==> !self.units@[j].alive,
            decreases self.units@.len() - i,
        {
            if self.units[i].is_enemy() && self.units[i].alive {
                return false;
            }
            i += 1;
        }
        true
    }

    /// Appends a line to the battle log.
    pub fn log_message(&mut self, msg: String)
        ensures
            final(self).log@ == old(self).log@.push(msg),
            *final(self) == (TacticalBattle { log: final(self).log, ..*old(self) }),
    {
        self.log.push(msg);
    }
}

/// Raises unit `idx`'s hit points by `amount`, capped at its maximum.
pub fn heal_unit(battle: &mut TacticalBattle, idx: usize, amount: i32)
    requires
        idx < old(battle).units@.len(),
    ensures
        final(battle).units@ == old(battle).units@.update(idx as int, healed(old(battle).units@[idx as int], amount as int)),
        *final(battle) == old(battle).with_units(final(battle).units),
{
    let h = sat_add(battle.units[idx].hp, amount);
    let m = battle.units[idx].max_hp;
    battle.units[idx].hp = if h < m { h } else { m };
}

/// Deals `dmg` to unit `idx` through its armor and returns the damage taken.
pub fn deal_damage(battle: &mut TacticalBattle, idx: usize, dmg: i32) -> (actual: i32)
    requires
        idx < old(battle).units@.len(),
    ensures
        actual == damage_taken(old(battle).units@[idx as int], dmg as int),
        final(battle).units@ == old(battle).units@.update(idx as int, damaged(old(battle).units@[idx as int], dmg as int)),
        *final(battle) == old(battle).with_units(final(battle).units),
{
    let armor = battle.units[idx].radical_armor;
    let d = sat_add(dmg, if armor == i32::MIN { i32::MAX } else { -armor });
    let d2: i32 = if armor == i32::MIN {
        sat_add(d, 1)
    } else {
        d
    };
    let actual: i32 = if d2 < 0 { 0 } else { d2 };
    proof {
        assert(actual == damage_taken(old(battle).units@[idx as int], dmg as int));
    }
    let hp = sat_add(battle.units[idx].hp, -actual);
    if hp <= 0 {
        battle.units[idx].hp = 0;
        battle.units[idx].alive = false;
    } else {
        battle.units[idx].hp = hp;
    }
    actual
}

} // verus!
