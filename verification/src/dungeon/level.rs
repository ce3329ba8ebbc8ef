//! A dungeon level: a grid of tiles plus the rooms carved into it, and the
//! passes that furnish it.

use vstd::prelude::*;
use crate::rng::{Rng, range_value, xorshift};
use crate::util::contains_usize;
use crate::dungeon::tiles::{AltarKind, SealKind, Room, RoomModifier, Tile, SpecialRoomKind};

mod generator;

verus! {

/// Largest width or height a level may have; keeps every index inside `i32`.
pub const MAX_SIDE: i32 = 46340;

/// Largest number of rooms a level may list; keeps room counts inside `i32`.
pub const MAX_ROOMS: usize = 44000000;

/// A room lies wholly inside a `w` by `h` grid.
pub open spec fn room_inside(r: Room, w: int, h: int) -> bool {
    &&& 1 <= r.w
    &&& 1 <= r.h
    &&& 0 <= r.x
    &&& 0 <= r.y
    &&& r.x + r.w <= w
    &&& r.y + r.h <= h
}

/// Every tile that differs between `old` and `new` went from a tile in `from`
/// to a tile in `to`; the grid keeps its size.
pub open spec fn changed_only(old: Seq<Tile>, new: Seq<Tile>, from: Set<Tile>, to: Set<Tile>) -> bool {
    &&& new.len() == old.len()
    &&& forall|i: int|
        0 <= i < old.len() && #[trigger] new[i] != old[i] ==> from.contains(old[i]) && to.contains(new[i])
}

/// Two passes that each stay within the same allowance stay within it together.
pub proof fn lemma_changed_chain(a: Seq<Tile>, b: Seq<Tile>, c: Seq<Tile>, from: Set<Tile>, to: Set<Tile>)
    requires
        changed_only(a, b, from, to),
        changed_only(b, c, from, to),
    ensures
        changed_only(a, c, from, to),
{
    assert forall|i: int| 0 <= i < a.len() && #[trigger] c[i] != a[i] implies from.contains(a[i]) && to.contains(
        c[i],
    ) by {
        if b[i] != a[i] {
            assert(from.contains(a[i]));
        } else {
            assert(from.contains(b[i]));
        }
        if c[i] != b[i] {
            assert(to.contains(c[i]));
        } else {
            assert(to.contains(b[i]));
        }
    }
}

/// Writing an allowed tile over a position that was floor at the start keeps the allowance.
pub proof fn lemma_write_floor(start: Seq<Tile>, before: Seq<Tile>, i: int, t: Tile, to: Set<Tile>)
    requires
        changed_only(start, before, set![Tile::Floor], to),
        0 <= i < start.len(),
        start[i] == Tile::Floor,
        to.contains(t),
    ensures
        changed_only(start, before.update(i, t), set![Tile::Floor], to),
{
    let after = before.update(i, t);
    assert forall|j: int| 0 <= j < start.len() && #[trigger] after[j] != start[j] implies set![Tile::Floor].contains(
        start[j],
    ) && to.contains(after[j]) by {
        if j != i {
            assert(after[j] == before[j]);
        }
    }
}

/// A pass allowed a narrower change is allowed a wider one.
pub proof fn lemma_changed_widen(a: Seq<Tile>, b: Seq<Tile>, from: Set<Tile>, to: Set<Tile>, from2: Set<Tile>, to2: Set<Tile>)
    requires
        changed_only(a, b, from, to),
        from.subset_of(from2),
        to.subset_of(to2),
    ensures
        changed_only(a, b, from2, to2),
{
}

/// `changed_only` composes: two passes stay within the union of what each allows.
pub proof fn lemma_changed_only_trans(
    a: Seq<Tile>,
    b: Seq<Tile>,
    c: Seq<Tile>,
    from1: Set<Tile>,
    to1: Set<Tile>,
    from2: Set<Tile>,
    to2: Set<Tile>,
)
    requires
        changed_only(a, b, from1, to1),
        changed_only(b, c, from2, to2),
    ensures
        changed_only(a, c, from1 + from2, to1 + to2),
{
    assert forall|i: int| 0 <= i < a.len() && #[trigger] c[i] != a[i] implies (from1 + from2).contains(a[i])
        && (to1 + to2).contains(c[i]) by {
        if b[i] != a[i] {
            assert(from1.contains(a[i]));
        } else {
            assert(from2.contains(b[i]));
        }
        if c[i] != b[i] {
            assert(to2.contains(c[i]));
        } else {
            assert(to1.contains(b[i]));
        }
    }
}

/// Row-major position of `(x, y)` in a grid `w` wide.
pub open spec fn cell(x: int, y: int, w: int) -> int {
    y * w + x
}

pub proof fn lemma_cell_in_grid(x: int, y: int, w: int, h: int)
    requires
        0 <= x < w,
        0 <= y < h,
    ensures
        0 <= cell(x, y, w) < w * h,
{
    assert(0 <= y * w) by (nonlinear_arith)
        requires
            0 <= y,
            0 <= x < w,
    ;
    assert(y * w + x < w * h) by (nonlinear_arith)
        requires
            0 <= x < w,
            0 <= y < h,
    ;
}

proof fn lemma_cell_injective_one(a: int, b: int, c: int, d: int, w: int)
    requires
        0 <= a < w,
        0 <= c < w,
        cell(a, b, w) == cell(c, d, w),
    ensures
        a == c && b == d,
{
    if b < d {
        assert(b * w + w <= d * w) by (nonlinear_arith)
            requires
                b < d,
                0 < w,
        ;
    } else if d < b {
        assert(d * w + w <= b * w) by (nonlinear_arith)
            requires
                d < b,
                0 < w,
        ;
    }
}

/// Distinct in-row coordinates map to distinct grid positions.
pub proof fn lemma_cell_injective(w: int)
    requires
        0 < w,
    ensures
        forall|a: int, b: int, c: int, d: int|
            0 <= a < w && 0 <= c < w && #[trigger] cell(a, b, w) == #[trigger] cell(c, d, w) ==> a == c && b == d,
{
    assert forall|a: int, b: int, c: int, d: int|
        0 <= a < w && 0 <= c < w && #[trigger] cell(a, b, w) == #[trigger] cell(c, d, w) implies a == c && b == d by {
        lemma_cell_injective_one(a, b, c, d, w);
    }
}

/// Every position of a `w` by `h` grid is the cell of its column and row.
pub proof fn lemma_index_coords(i: int, w: int, h: int)
    requires
        0 < w,
        0 <= i < w * h,
    ensures
        0 <= i % w < w,
        0 <= i / w < h,
        cell(i % w, i / w, w) == i,
{
    vstd::arithmetic::div_mod::lemma_fundamental_div_mod(i, w);
    vstd::arithmetic::div_mod::lemma_div_pos_is_pos(i, w);
    assert(i / w < h) by (nonlinear_arith)
        requires
            0 < w,
            0 <= i < w * h,
            i == w * (i / w) + i % w,
            0 <= i % w,
    ;
    assert(cell(i % w, i / w, w) == i) by (nonlinear_arith)
        requires
            i == w * (i / w) + i % w,
    ;
}

/// An in-bounds position of a well-formed level indexes its tiles.
pub proof fn lemma_at(level: &DungeonLevel, x: int, y: int)
    requires
        level.wf(),
        level.in_bounds_spec(x, y),
    ensures
        0 <= level.at(x, y) < level.tiles@.len(),
        level.at(x, y) < MAX_SIDE * MAX_SIDE,
{
    lemma_cell_in_grid(x, y, level.width as int, level.height as int);
    lemma_grid_size(level.width as int, level.height as int);
}

pub proof fn lemma_grid_size(w: int, h: int)
    requires
        1 <= w <= MAX_SIDE,
        1 <= h <= MAX_SIDE,
    ensures
        1 <= w * h <= MAX_SIDE * MAX_SIDE,
{
    assert(1 <= w * h <= MAX_SIDE * MAX_SIDE) by (nonlinear_arith)
        requires
            1 <= w <= MAX_SIDE,
            1 <= h <= MAX_SIDE,
    ;
}

pub struct DungeonLevel {
    pub width: i32,
    pub height: i32,
    pub tiles: Vec<Tile>,
    pub rooms: Vec<Room>,
    pub visible: Vec<bool>,
    pub revealed: Vec<bool>,
}

impl DungeonLevel {
    /// The grid has positive bounded sides, every per-tile vector covers it,
    /// and every room lies inside it.
    pub open spec fn wf(&self) -> bool {
        &&& 1 <= self.width <= MAX_SIDE
        &&& 1 <= self.height <= MAX_SIDE
        &&& self.tiles@.len() == self.width * self.height
        &&& self.visible@.len() == self.width * self.height
        &&& self.revealed@.len() == self.width * self.height
        &&& self.rooms@.len() <= MAX_ROOMS
        &&& forall|i: int|
            0 <= i < self.rooms@.len() ==> room_inside(#[trigger] self.rooms@[i], self.width as int, self.height as int)
    }

    pub open spec fn in_bounds_spec(&self, x: int, y: int) -> bool {
        0 <= x < self.width && 0 <= y < self.height
    }

    pub open spec fn at(&self, x: int, y: int) -> int {
        cell(x, y, self.width as int)
    }

    /// The tile at `(x, y)`, reading outside the grid as wall.
    pub open spec fn tile_spec(&self, x: int, y: int) -> Tile {
        if self.in_bounds_spec(x, y) { self.tiles@[self.at(x, y)] } else { Tile::Wall }
    }

    /// Shape and rooms are those of `other`; only tile contents may differ.
    pub open spec fn same_frame(&self, other: &DungeonLevel) -> bool {
        &&& self.width == other.width
        &&& self.height == other.height
        &&& self.rooms@ == other.rooms@
        &&& self.visible@ == other.visible@
        &&& self.revealed@ == other.revealed@
        &&& self.tiles@.len() == other.tiles@.len()
    }

    pub fn idx(&self, x: i32, y: i32) -> (i: usize)
        requires
            i32::MIN <= y * self.width <= i32::MAX,
            i32::MIN <= y * self.width + x <= i32::MAX,
        ensures
            i == #[verifier::truncate] ((y * self.width + x) as usize),
    {
        #[verifier::truncate] ((y * self.width + x) as usize)
    }

    pub fn in_bounds(&self, x: i32, y: i32) -> (b: bool)
        ensures
            b == self.in_bounds_spec(x as int, y as int),
    {
        x >= 0 && y >= 0 && x < self.width && y < self.height
    }

    pub fn tile(&self, x: i32, y: i32) -> (t: Tile)
        requires
            self.wf(),
        ensures
            t == self.tile_spec(x as int, y as int),
    {
        if self.in_bounds(x, y) {
            proof {
                lemma_at(self, x as int, y as int);
            }
            self.tiles[self.idx(x, y)]
        } else {
            Tile::Wall
        }
    }

    pub fn is_walkable(&self, x: i32, y: i32) -> (b: bool)
        requires
            self.wf(),
        ensures
            b == (self.in_bounds_spec(x as int, y as int) && self.tile_spec(x as int, y as int).walkable_spec()),
    {
        if !self.in_bounds(x, y) {
            return false;
        }
        proof {
            lemma_at(self, x as int, y as int);
        }
        self.tiles[self.idx(x, y)].is_walkable()
    }

    /// Overwrites the tile at an in-bounds position.
    fn put(&mut self, x: i32, y: i32, t: Tile)
        requires
            old(self).wf(),
            old(self).in_bounds_spec(x as int, y as int),
        ensures
            final(self).wf(),
            final(self).same_frame(old(self)),
            final(self).tiles@ == old(self).tiles@.update(old(self).at(x as int, y as int), t),
    {
        proof {
            lemma_at(self, x as int, y as int);
        }
        let i = self.idx(x, y);
        self.tiles.set(i, t);
    }
}


impl DungeonLevel {
    /// Reading the grid after writing `t` at `(x, y)`.
    proof fn lemma_put_read(&self, old_level: &DungeonLevel, x: int, y: int, t: Tile)
        requires
            old_level.wf(),
            old_level.in_bounds_spec(x, y),
            self.same_frame(old_level),
            self.tiles@ == old_level.tiles@.update(old_level.at(x, y), t),
        ensures
            forall|px: int, py: int|
                #[trigger] self.tile_spec(px, py) == if px == x && py == y {
                    t
                } else {
                    old_level.tile_spec(px, py)
                },
    {
        lemma_cell_injective(self.width as int);
        assert forall|px: int, py: int|
            #[trigger] self.tile_spec(px, py) == if px == x && py == y {
                t
            } else {
                old_level.tile_spec(px, py)
            } by {
            if self.in_bounds_spec(px, py) {
                lemma_at(old_level, px, py);
                lemma_at(old_level, x, y);
                if !(px == x && py == y) {
                    assert(cell(px, py, self.width as int) != cell(x, y, self.width as int));
                }
            }
        }
    }

    /// True when the rectangle lies at least one tile inside the border and is all wall.
    pub open spec fn solid_wall_spec(&self, x: int, y: int, w: int, h: int) -> bool {
        &&& 1 <= x
        &&& 1 <= y
        &&& x + w < self.width - 1
        &&& y + h < self.height - 1
        &&& forall|tx: int, ty: int|
            x <= tx < x + w && y <= ty < y + h ==> #[trigger] self.tile_spec(tx, ty) == Tile::Wall
    }

    fn area_is_solid_wall(&self, x: i32, y: i32, w: i32, h: i32) -> (b: bool)
        requires
            self.wf(),
            -2 * MAX_SIDE <= x <= 2 * MAX_SIDE,
            -2 * MAX_SIDE <= y <= 2 * MAX_SIDE,
            0 <= w <= 2 * MAX_SIDE,
            0 <= h <= 2 * MAX_SIDE,
        ensures
            b == self.solid_wall_spec(x as int, y as int, w as int, h as int),
    {
        if x < 1 || y < 1 || x + w >= self.width - 1 || y + h >= self.height - 1 {
            return false;
        }
        let mut ty = y;
        while ty < y + h
            invariant
                self.wf(),
                1 <= x,
                1 <= y,
                x + w < self.width - 1,
                y + h < self.height - 1,
                y <= ty <= y + h,
                0 <= w,
                forall|ax: int, ay: int|
                    x <= ax < x + w && y <= ay < ty ==> #[trigger] self.tile_spec(ax, ay) == Tile::Wall,
            decreases y + h - ty,
        {
            let mut tx = x;
            while tx < x + w
                invariant
                    self.wf(),
                    1 <= x,
                    1 <= y,
                    x + w < self.width - 1,
                    y + h < self.height - 1,
                    0 <= w,
                    y <= ty < y + h,
                    x <= tx <= x + w,
                    forall|ax: int, ay: int|
                        x <= ax < x + w && y <= ay < ty ==> #[trigger] self.tile_spec(ax, ay) == Tile::Wall,
                    forall|ax: int| x <= ax < tx ==> #[trigger] self.tile_spec(ax, ty as int) == Tile::Wall,
                decreases x + w - tx,
            {
                if self.tile(tx, ty) != Tile::Wall {
                    return false;
                }
                tx += 1;
            }
            ty += 1;
        }
        true
    }

    /// Fills a rectangle that lies inside the grid with `tile`.
    fn carve_rect(&mut self, x: i32, y: i32, w: i32, h: i32, tile: Tile)
        requires
            old(self).wf(),
            0 <= x,
            0 <= y,
            0 <= w,
            0 <= h,
            x + w <= old(self).width,
            y + h <= old(self).height,
        ensures
            final(self).wf(),
            final(self).same_frame(old(self)),
            forall|px: int, py: int|
                #[trigger] final(self).tile_spec(px, py) == if x <= px < x + w && y <= py < y + h {
                    tile
                } else {
                    old(self).tile_spec(px, py)
                },
    {
        let ghost start = *self;
        let mut ty = y;
        while ty < y + h
            invariant
                self.wf(),
                self.same_frame(&start),
                start == *old(self),
                start.wf(),
                0 <= x,
                0 <= y,
                x + w <= self.width,
                y + h <= self.height,
                y <= ty <= y + h,
                0 <= w,
                forall|px: int, py: int|
                    #[trigger] self.tile_spec(px, py) == if x <= px < x + w && y <= py < ty {
                        tile
                    } else {
                        start.tile_spec(px, py)
                    },
            decreases y + h - ty,
        {
            let mut tx = x;
            while tx < x + w
                invariant
                    self.wf(),
                    self.same_frame(&start),
                    start == *old(self),
                    start.wf(),
                    0 <= x,
                    0 <= y,
                    x + w <= self.width,
                    y + h <= self.height,
                    0 <= w,
                    y <= ty < y + h,
                    x <= tx <= x + w,
                    forall|px: int, py: int|
                        #[trigger] self.tile_spec(px, py) == if (x <= px < x + w && y <= py < ty) || (
                        x <= px < tx && py == ty) {
                            tile
                        } else {
                            start.tile_spec(px, py)
                        },
                decreases x + w - tx,
            {
                let ghost before = *self;
                self.put(tx, ty, tile);
                proof {
                    self.lemma_put_read(&before, tx as int, ty as int, tile);
                }
                tx += 1;
            }
            ty += 1;
        }
    }
}


/// Furniture that marks a room as already used by the basic passes.
pub open spec fn basic_feature(t: Tile) -> bool {
    match t {
        Tile::Forge | Tile::Shop | Tile::StairsDown => true,
        _ => false,
    }
}

/// Furniture, NPCs and signs that mark a room as already used.
pub open spec fn wide_feature(t: Tile) -> bool {
    match t {
        Tile::Forge | Tile::Shop | Tile::StairsDown | Tile::Chest | Tile::Npc(_) | Tile::Shrine
        | Tile::Altar(_) | Tile::Seal(_) | Tile::Sign(_) => true,
        _ => false,
    }
}

pub open spec fn feature(t: Tile, wide: bool) -> bool {
    if wide { wide_feature(t) } else { basic_feature(t) }
}

impl DungeonLevel {
    /// Some in-bounds tile of `room` carries a feature of the given class.
    pub open spec fn room_has_feature_spec(&self, room: Room, wide: bool) -> bool {
        exists|rx: int, ry: int|
            room.x <= rx < room.x + room.w && room.y <= ry < room.y + room.h && self.in_bounds_spec(rx, ry)
                && feature(#[trigger] self.tile_spec(rx, ry), wide)
    }

    fn room_has_feature(&self, room: &Room, wide: bool) -> (b: bool)
        requires
            self.wf(),
            room_inside(*room, self.width as int, self.height as int),
        ensures
            b == self.room_has_feature_spec(*room, wide),
    {
        let mut ry = room.y;
        while ry < room.y + room.h
            invariant
                self.wf(),
                room_inside(*room, self.width as int, self.height as int),
                room.y <= ry <= room.y + room.h,
                forall|ax: int, ay: int|
                    room.x <= ax < room.x + room.w && room.y <= ay < ry && self.in_bounds_spec(ax, ay)
                        ==> !feature(#[trigger] self.tile_spec(ax, ay), wide),
            decreases room.y + room.h - ry,
        {
            let mut rx = room.x;
            while rx < room.x + room.w
                invariant
                    self.wf(),
                    room_inside(*room, self.width as int, self.height as int),
                    room.y <= ry < room.y + room.h,
                    room.x <= rx <= room.x + room.w,
                    forall|ax: int, ay: int|
                        room.x <= ax < room.x + room.w && room.y <= ay < ry && self.in_bounds_spec(ax, ay)
                            ==> !feature(#[trigger] self.tile_spec(ax, ay), wide),
                    forall|ax: int|
                        room.x <= ax < rx && self.in_bounds_spec(ax, ry as int) ==> !feature(
                            #[trigger] self.tile_spec(ax, ry as int),
                            wide,
                        ),
                decreases room.x + room.w - rx,
            {
                if self.in_bounds(rx, ry) {
                    let t = self.tile(rx, ry);
                    let hit = if wide {
                        match t {
                            Tile::Forge | Tile::Shop | Tile::StairsDown | Tile::Chest | Tile::Npc(_)
                            | Tile::Shrine | Tile::Altar(_) | Tile::Seal(_) | Tile::Sign(_) => true,
                            _ => false,
                        }
                    } else {
                        match t {
                            Tile::Forge | Tile::Shop | Tile::StairsDown => true,
                            _ => false,
                        }
                    };
                    if hit {
                        return true;
                    }
                }
                rx += 1;
            }
            ry += 1;
        }
        false
    }

    /// Place stairs down in the last room.
    pub fn place_stairs(&mut self)
        requires
            old(self).wf(),
        ensures
            final(self).wf(),
            final(self).same_frame(old(self)),
            old(self).rooms@.len() == 0 ==> final(self).tiles@ == old(self).tiles@,
            old(self).rooms@.len() > 0 ==> final(self).tiles@ == old(self).tiles@.update(
                old(self).at(
                    old(self).rooms@.last().center_spec().0,
                    old(self).rooms@.last().center_spec().1,
                ),
                Tile::StairsDown,
            ),
    {
        let n = self.rooms.len();
        if n > 0 {
            let room = self.rooms[n - 1];
            assert(room_inside(self.rooms@[n - 1], self.width as int, self.height as int));
            let (cx, cy) = room.center();
            self.put(cx, cy, Tile::StairsDown);
        }
    }

    /// Get player start position (center of first room).
    pub fn start_pos(&self) -> (p: (i32, i32))
        requires
            self.wf(),
        ensures
            self.rooms@.len() == 0 ==> p == (1i32, 1i32),
            self.rooms@.len() > 0 ==> p.0 == self.rooms@[0].center_spec().0 && p.1
                == self.rooms@[0].center_spec().1,
    {
        if self.rooms.len() > 0 {
            let r = self.rooms[0];
            assert(room_inside(self.rooms@[0], self.width as int, self.height as int));
            r.center()
        } else {
            (1, 1)
        }
    }

    /// Writes `t` over a floor tile at an in-bounds position; reports whether it did.
    fn put_on_floor(&mut self, x: i32, y: i32, t: Tile) -> (done: bool)
        requires
            old(self).wf(),
        ensures
            final(self).wf(),
            final(self).same_frame(old(self)),
            done == (old(self).in_bounds_spec(x as int, y as int) && old(self).tile_spec(x as int, y as int)
                == Tile::Floor),
            done ==> final(self).tiles@ == old(self).tiles@.update(old(self).at(x as int, y as int), t),
            !done ==> final(self).tiles@ == old(self).tiles@,
            changed_only(old(self).tiles@, final(self).tiles@, set![Tile::Floor], set![t]),
    {
        if self.in_bounds(x, y) {
            proof {
                lemma_at(self, x as int, y as int);
            }
            let idx = self.idx(x, y);
            if self.tiles[idx] == Tile::Floor {
                self.tiles.set(idx, t);
                return true;
            }
        }
        false
    }

    /// Place forge workbenches in 1-2 middle rooms.
    pub fn place_forges(&mut self, rng: &mut Rng)
        requires
            old(self).wf(),
        ensures
            final(self).wf(),
            final(self).same_frame(old(self)),
            changed_only(old(self).tiles@, final(self).tiles@, set![Tile::Floor], set![Tile::Forge]),
            old(self).rooms@.len() < 3 ==> final(self).tiles@ == old(self).tiles@,
            forall|x: int, y: int|
                #[trigger] final(self).tile_spec(x, y) != old(self).tile_spec(x, y) ==> forge_spot(old(self), x, y),
            old(self).rooms@.len() >= 3 ==> ({
                let r = old(self).rooms@[range_value(xorshift(old(rng)@), 0, (old(self).rooms@.len() - 2) as i32) + 1];
                old(self).tile_spec(r.x + 1, r.y + 1) == Tile::Floor ==> final(self).tile_spec(r.x + 1, r.y + 1)
                    == Tile::Forge
            }),
    {
        let ghost start = *self;
        let n = self.rooms.len();
        if n < 3 {
            return;
        }
        let cand_len = n - 2;
        let count: usize = if cand_len >= 3 { 2 } else { 1 };
        let mut placed: usize = 0;
        let mut used: Vec<usize> = Vec::new();
        let ghost first = start.rooms@[range_value(xorshift(rng@), 0, cand_len as i32) + 1];
        let ghost rng0 = *rng;
        // The draw loop ends once enough forges stand or every candidate was
        // tried; the fuel bound only makes that termination explicit.
        let mut fuel: u64 = u64::MAX;
        while placed < count && fuel > 0
            invariant
                self.wf(),
                self.same_frame(&start),
                start == *old(self),
                start.wf(),
                n == self.rooms@.len(),
                cand_len == n - 2,
                3 <= n <= MAX_ROOMS,
                1 <= count,
                changed_only(start.tiles@, self.tiles@, set![Tile::Floor], set![Tile::Forge]),
                forall|x: int, y: int|
                    #[trigger] self.tile_spec(x, y) != start.tile_spec(x, y) ==> forge_spot(&start, x, y),
                first == start.rooms@[range_value(xorshift(rng0@), 0, cand_len as i32) + 1],
                fuel == u64::MAX ==> rng@ == rng0@ && used@.len() == 0 && placed == 0 && self.tiles@ == start.tiles@,
                fuel < u64::MAX && start.tile_spec(first.x + 1, first.y + 1) == Tile::Floor ==> self.tile_spec(
                    first.x + 1,
                    first.y + 1,
                ) == Tile::Forge,
            ensures
                fuel < u64::MAX,
            decreases fuel,
        {
            fuel = fuel - 1;
            let pick = rng.range(0, cand_len as i32) as usize;
            if contains_usize(&used, pick) {
                if used.len() >= cand_len {
                    break;
                }
                continue;
            }
            used.push(pick);
            let room = self.rooms[pick + 1];
            assert(room_inside(self.rooms@[pick + 1], self.width as int, self.height as int));
            let ghost before = self.tiles@;
            let ghost before_lvl = *self;
            if self.put_on_floor(room.x + 1, room.y + 1, Tile::Forge) {
                placed += 1;
                proof {
                    self.lemma_put_read(&before_lvl, room.x + 1, room.y + 1, Tile::Forge);
                    assert(forge_spot(&start, room.x + 1, room.y + 1)) by {
                        assert(start.rooms@[pick + 1] == room);
                    }
                }
            }
            proof {
                lemma_changed_chain(start.tiles@, before, self.tiles@, set![Tile::Floor], set![Tile::Forge]);
            }
        }
    }
}


/// `(x, y)` is one tile in from the top-left corner of a room other than the
/// first and the last, where a forge stands.
pub open spec fn forge_spot(lvl: &DungeonLevel, x: int, y: int) -> bool {
    exists|i: int| 1 <= i < lvl.rooms@.len() - 1 && x == (#[trigger] lvl.rooms@[i]).x + 1 && y == lvl.rooms@[i].y + 1
}

/// `(x, y)` is one tile in from the top-right corner of a room other than the
/// first and the last, where a shop stands.
pub open spec fn shop_spot(lvl: &DungeonLevel, x: int, y: int) -> bool {
    exists|i: int|
        1 <= i < lvl.rooms@.len() - 1 && x == (#[trigger] lvl.rooms@[i]).x + lvl.rooms@[i].w - 2 && y == lvl.rooms@[i].y + 1
}

/// Where a draw of a spot inside `r` lands: strictly inside it, or one tile in
/// from its top-left corner along a side too short to have an inside.
pub open spec fn inner_spot(r: Room, x: int, y: int) -> bool {
    &&& if r.w > 2 { r.x + 1 <= x < r.x + r.w - 1 } else { x == r.x + 1 }
    &&& if r.h > 2 { r.y + 1 <= y < r.y + r.h - 1 } else { y == r.y + 1 }
}

/// Every tile that differs between `a` and `b` is a spot inside `r`.
pub open spec fn changed_inside(a: &DungeonLevel, b: &DungeonLevel, r: Room) -> bool {
    forall|x: int, y: int| #[trigger] b.tile_spec(x, y) != a.tile_spec(x, y) ==> inner_spot(r, x, y)
}

/// `(x, y)` is a spot inside a room other than the first and the last.
pub open spec fn middle_inner_spot(lvl: &DungeonLevel, x: int, y: int) -> bool {
    exists|i: int| 1 <= i < lvl.rooms@.len() - 1 && inner_spot(#[trigger] lvl.rooms@[i], x, y)
}

/// `(x, y)` lies in `r`, or is a draw of a spot inside it.
pub open spec fn in_or_inner(r: Room, x: int, y: int) -> bool {
    in_rect(r.x as int, r.y as int, r.w as int, r.h as int, x, y) || inner_spot(r, x, y)
}

/// `(x, y)` lies in, or is a drawn spot of, a room other than the first and the last.
pub open spec fn middle_room_tile(lvl: &DungeonLevel, x: int, y: int) -> bool {
    exists|i: int| 1 <= i < lvl.rooms@.len() - 1 && in_or_inner(#[trigger] lvl.rooms@[i], x, y)
}

impl DungeonLevel {
    /// Place a shop in one middle room (if enough rooms).
    pub fn place_shop(&mut self, rng: &mut Rng)
        requires
            old(self).wf(),
        ensures
            final(self).wf(),
            final(self).same_frame(old(self)),
            changed_only(old(self).tiles@, final(self).tiles@, set![Tile::Floor], set![Tile::Shop]),
            old(self).rooms@.len() < 4 ==> final(self).tiles@ == old(self).tiles@,
            final(self).tiles@ == old(self).tiles@ || exists|x: int, y: int|
                #[trigger] shop_spot(old(self), x, y) && old(self).tile_spec(x, y) == Tile::Floor
                    && final(self).tiles@ == old(self).tiles@.update(old(self).at(x, y), Tile::Shop),
            old(self).rooms@.len() >= 4 ==> ({
                let r = old(self).rooms@[range_value(xorshift(old(rng)@), 1, (old(self).rooms@.len() - 1) as i32)];
                old(self).tile_spec(r.x + r.w - 2, r.y + 1) == Tile::Floor ==> final(self).tile_spec(
                    r.x + r.w - 2,
                    r.y + 1,
                ) == Tile::Shop
            }),
    {
        let ghost start = *self;
        let n = self.rooms.len();
        if n < 4 {
            return;
        }
        let ghost rng0 = *rng;
        let ghost first = start.rooms@[range_value(xorshift(rng0@), 1, (n - 1) as i32)];
        let mut kk: usize = 0;
        while kk < 10
            invariant
                kk <= 10,
                self.wf(),
                self.same_frame(&start),
                start == *old(self),
                start.wf(),
                n == self.rooms@.len(),
                4 <= n <= MAX_ROOMS,
                self.tiles@ == start.tiles@,
                first == start.rooms@[range_value(xorshift(rng0@), 1, (n - 1) as i32)],
                kk == 0 ==> rng@ == rng0@,
                rng0 == *old(rng),
                kk > 0 ==> start.tile_spec(first.x + first.w - 2, first.y + 1) != Tile::Floor,
            decreases 10 - kk,
        {
            let pick = rng.range(1, n as i32 - 1) as usize;
            let room = self.rooms[pick];
            assert(room_inside(self.rooms@[pick as int], self.width as int, self.height as int));
            let ghost before = *self;
            let done = self.put_on_floor(room.x + room.w - 2, room.y + 1, Tile::Shop);
            proof {
                lemma_same_tiles(&before, &start);
            }
            if done {
                proof {
                    self.lemma_put_read(&before, room.x + room.w - 2, room.y + 1, Tile::Shop);
                    assert(shop_spot(&start, room.x + room.w - 2, room.y + 1)) by {
                        assert(start.rooms@[pick as int] == room);
                    }
                    if kk == 0 {
                        assert(pick as int == range_value(xorshift(rng0@), 1, (n - 1) as i32));
                        assert(room == first);
                        assert(self.tile_spec(first.x + first.w - 2, first.y + 1) == Tile::Shop);
                    }
                }
                return;
            }
            kk += 1;
        }
    }

    /// Place treasure chests in one room (2-3 chests).
    pub fn place_chests(&mut self, rng: &mut Rng)
        requires
            old(self).wf(),
        ensures
            final(self).wf(),
            final(self).same_frame(old(self)),
            changed_only(old(self).tiles@, final(self).tiles@, set![Tile::Floor], set![Tile::Chest]),
            old(self).rooms@.len() < 5 ==> final(self).tiles@ == old(self).tiles@,
            final(self).tiles@ == old(self).tiles@ || exists|i: int|
                1 <= i < old(self).rooms@.len() - 1 && !old(self).room_has_feature_spec(#[trigger] old(self).rooms@[i], false)
                    && changed_inside(old(self), final(self), old(self).rooms@[i]),
            old(self).rooms@.len() >= 5 ==> ({
                let x1 = xorshift(old(rng)@);
                let x3 = xorshift(xorshift(x1));
                let r = old(self).rooms@[range_value(x1, 1, (old(self).rooms@.len() - 1) as i32)];
                let cx = range_value(x3, (r.x + 1) as i32, (r.x + r.w - 1) as i32);
                let cy = range_value(xorshift(x3), (r.y + 1) as i32, (r.y + r.h - 1) as i32);
                r.w > 2 && r.h > 2 && !old(self).room_has_feature_spec(r, false) && old(self).tile_spec(cx, cy)
                    == Tile::Floor ==> final(self).tile_spec(cx, cy) == Tile::Chest
            }),
    {
        let ghost start = *self;
        let n = self.rooms.len();
        if n < 5 {
            return;
        }
        let ghost rng0 = *rng;
        let ghost x1 = xorshift(rng0@);
        let ghost x3 = xorshift(xorshift(x1));
        let ghost first = start.rooms@[range_value(x1, 1, (n - 1) as i32)];
        let ghost fcx = range_value(x3, (first.x + 1) as i32, (first.x + first.w - 1) as i32);
        let ghost fcy = range_value(xorshift(x3), (first.y + 1) as i32, (first.y + first.h - 1) as i32);
        let ghost first_ok = first.w > 2 && first.h > 2 && !start.room_has_feature_spec(first, false)
            && start.tile_spec(fcx, fcy) == Tile::Floor;
        let mut kk: usize = 0;
        while kk < 20
            invariant
                kk <= 20,
                self.wf(),
                self.same_frame(&start),
                start == *old(self),
                start.wf(),
                n == self.rooms@.len(),
                5 <= n <= MAX_ROOMS,
                self.tiles@ == start.tiles@,
                rng0 == *old(rng),
                x1 == xorshift(rng0@),
                x3 == xorshift(xorshift(x1)),
                first == start.rooms@[range_value(x1, 1, (n - 1) as i32)],
                fcx == range_value(x3, (first.x + 1) as i32, (first.x + first.w - 1) as i32),
                fcy == range_value(xorshift(x3), (first.y + 1) as i32, (first.y + first.h - 1) as i32),
                first_ok == (first.w > 2 && first.h > 2 && !start.room_has_feature_spec(first, false)
                    && start.tile_spec(fcx, fcy) == Tile::Floor),
                kk == 0 ==> rng@ == rng0@,
                kk > 0 ==> !first_ok,
            decreases 20 - kk,
        {
            proof {
                lemma_same_tiles(self, &start);
                lemma_same_tiles(&start, self);
            }
            kk += 1;
            let pick = rng.range(1, n as i32 - 1) as usize;
            let room = self.rooms[pick];
            assert(room_inside(self.rooms@[pick as int], self.width as int, self.height as int));
            assert(room == start.rooms@[pick as int]);
            if self.room_has_feature(&room, false) {
                continue;
            }
            let chest_count = rng.range(2, 4);
            let mut placed: i32 = 0;
            let mut kj: usize = 0;
            while kj < 10
                invariant
                    kj <= 10,
                    self.wf(),
                    self.same_frame(&start),
                    start == *old(self),
                    start.wf(),
                    n == self.rooms@.len(),
                    room_inside(room, self.width as int, self.height as int),
                    0 <= placed <= kj,
                    changed_only(start.tiles@, self.tiles@, set![Tile::Floor], set![Tile::Chest]),
                    1 <= pick < n - 1,
                    room == start.rooms@[pick as int],
                    !start.room_has_feature_spec(room, false),
                    changed_inside(&start, self, room),
                    placed == 0 ==> self.tiles@ == start.tiles@,
                    x3 == xorshift(xorshift(x1)),
                    fcx == range_value(x3, (first.x + 1) as i32, (first.x + first.w - 1) as i32),
                    fcy == range_value(xorshift(x3), (first.y + 1) as i32, (first.y + first.h - 1) as i32),
                    first_ok == (first.w > 2 && first.h > 2 && !start.room_has_feature_spec(first, false)
                        && start.tile_spec(fcx, fcy) == Tile::Floor),
                    kk == 1 && kj == 0 ==> rng@ == xorshift(xorshift(rng0@)) && room == first,
                    x1 == xorshift(rng0@),
                    kk == 1 && kj > 0 && first_ok ==> placed >= 1 && self.tile_spec(fcx, fcy) == Tile::Chest,
                ensures
                    kj > 0,
                decreases 10 - kj,
            {
                kj += 1;
                let cx = rng.range(room.x + 1, room.x + room.w - 1);
                let cy = rng.range(room.y + 1, room.y + room.h - 1);
                let ghost before = self.tiles@;
                let ghost before_lvl = *self;
                let done = self.put_on_floor(cx, cy, Tile::Chest);
                proof {
                    lemma_changed_chain(start.tiles@, before, self.tiles@, set![Tile::Floor], set![Tile::Chest]);
                    if done {
                        self.lemma_put_read(&before_lvl, cx as int, cy as int, Tile::Chest);
                    } else {
                        lemma_same_tiles(self, &before_lvl);
                    }
                }
                if done {
                    placed += 1;
                    if placed >= chest_count {
                        break;
                    }
                }
            }
            if placed > 0 {
                return;
            }
        }
    }

    /// Place hazard tiles inspired by classic roguelikes.
    pub fn place_hazards(&mut self, rng: &mut Rng)
        requires
            old(self).wf(),
        ensures
            final(self).wf(),
            final(self).same_frame(old(self)),
            changed_only(
                old(self).tiles@,
                final(self).tiles@,
                set![Tile::Floor],
                set![Tile::Water, Tile::Spikes, Tile::Oil],
            ),
            old(self).rooms@.len() < 4 ==> final(self).tiles@ == old(self).tiles@,
            forall|x: int, y: int|
                #[trigger] final(self).tile_spec(x, y) != old(self).tile_spec(x, y) ==> middle_inner_spot(old(self), x, y),
            final(self).tiles@ != old(self).tiles@ ==> exists|i: int|
                0 <= i < old(self).tiles@.len() && #[trigger] final(self).tiles@[i] != old(self).tiles@[i]
                    && final(self).tiles@[i] == Tile::Water,
            exists|spots: Seq<int>|
                #![trigger spots.len()]
                spots.len() <= 8 && forall|i: int|
                    0 <= i < old(self).tiles@.len() && #[trigger] final(self).tiles@[i] != old(self).tiles@[i]
                        ==> spots.contains(i),
    {
        let ghost start = *self;
        let ghost to = set![Tile::Water, Tile::Spikes, Tile::Oil];
        let ghost mut spots: Seq<int> = Seq::empty();
        let ghost mut water_at: int = 0;
        let n = self.rooms.len();
        if n < 4 {
            assert(forall|i: int| 0 <= i < old(self).tiles@.len() && #[trigger] self.tiles@[i] != old(self).tiles@[i] ==> spots.contains(i));
            assert(spots.len() == 0);
            return;
        }
        let hazard_rooms = 1 + (rng.next_u64() % 2) as usize;
        let mut guaranteed_water = false;
        let mut kh: usize = 0;
        while kh < hazard_rooms
            invariant
                kh <= hazard_rooms <= 2,
                self.wf(),
                self.same_frame(&start),
                start == *old(self),
                start.wf(),
                n == self.rooms@.len(),
                4 <= n <= MAX_ROOMS,
                to == set![Tile::Water, Tile::Spikes, Tile::Oil],
                changed_only(start.tiles@, self.tiles@, set![Tile::Floor], to),
                forall|x: int, y: int| #[trigger] self.tile_spec(x, y) != start.tile_spec(x, y) ==> middle_inner_spot(&start, x, y),
                !guaranteed_water ==> self.tiles@ == start.tiles@,
                guaranteed_water ==> 0 <= water_at < start.tiles@.len() && self.tiles@[water_at] != start.tiles@[water_at]
                    && self.tiles@[water_at] == Tile::Water,
                spots.len() <= 4 * kh,
                forall|i: int| 0 <= i < start.tiles@.len() && #[trigger] self.tiles@[i] != start.tiles@[i] ==> spots.contains(i),
            decreases hazard_rooms - kh,
        {
            kh += 1;
            let mut kk: usize = 0;
            while kk < 20
                invariant_except_break
                    spots.len() <= 4 * (kh - 1),
                invariant
                    kk <= 20,
                    1 <= kh <= 2,
                    self.wf(),
                    self.same_frame(&start),
                    start == *old(self),
                    start.wf(),
                    n == self.rooms@.len(),
                    4 <= n <= MAX_ROOMS,
                    to == set![Tile::Water, Tile::Spikes, Tile::Oil],
                    changed_only(start.tiles@, self.tiles@, set![Tile::Floor], to),
                    forall|x: int, y: int| #[trigger] self.tile_spec(x, y) != start.tile_spec(x, y) ==> middle_inner_spot(&start, x, y),
                    !guaranteed_water ==> self.tiles@ == start.tiles@,
                    guaranteed_water ==> 0 <= water_at < start.tiles@.len() && self.tiles@[water_at] != start.tiles@[water_at]
                        && self.tiles@[water_at] == Tile::Water,
                    forall|i: int| 0 <= i < start.tiles@.len() && #[trigger] self.tiles@[i] != start.tiles@[i] ==> spots.contains(i),
                ensures
                    spots.len() <= 4 * kh,
                decreases 20 - kk,
            {
                kk += 1;
                let pick = rng.range(1, n as i32 - 1) as usize;
                let room = self.rooms[pick];
                assert(room_inside(self.rooms@[pick as int], self.width as int, self.height as int));
                assert(room == start.rooms@[pick as int]);
                if self.room_has_feature(&room, true) {
                    continue;
                }
                let hazard_count = rng.range(2, 5);
                let mut placed: i32 = 0;
                let mut kj: usize = 0;
                while kj < 16
                    invariant_except_break
                        placed < hazard_count,
                    invariant
                        kj <= 16,
                        self.wf(),
                        self.same_frame(&start),
                        start == *old(self),
                        start.wf(),
                        n == self.rooms@.len(),
                        room_inside(room, self.width as int, self.height as int),
                        0 <= placed <= kj,
                        2 <= hazard_count <= 4,
                        placed <= hazard_count,
                        1 <= kh <= 2,
                        1 <= pick < n - 1,
                        room == start.rooms@[pick as int],
                        to == set![Tile::Water, Tile::Spikes, Tile::Oil],
                        changed_only(start.tiles@, self.tiles@, set![Tile::Floor], to),
                        forall|x: int, y: int| #[trigger] self.tile_spec(x, y) != start.tile_spec(x, y) ==> middle_inner_spot(&start, x, y),
                        !guaranteed_water ==> self.tiles@ == start.tiles@,
                        guaranteed_water ==> 0 <= water_at < start.tiles@.len() && self.tiles@[water_at] != start.tiles@[water_at]
                            && self.tiles@[water_at] == Tile::Water,
                        spots.len() <= 4 * (kh - 1) + placed,
                        forall|i: int| 0 <= i < start.tiles@.len() && #[trigger] self.tiles@[i] != start.tiles@[i] ==> spots.contains(i),
                    decreases 16 - kj,
                {
                    kj += 1;
                    let hx = rng.range(room.x + 1, room.x + room.w - 1);
                    let hy = rng.range(room.y + 1, room.y + room.h - 1);
                    if !self.in_bounds(hx, hy) {
                        continue;
                    }
                    proof {
                        lemma_at(self, hx as int, hy as int);
                    }
                    let idx = self.idx(hx, hy);
                    if self.tiles[idx] != Tile::Floor {
                        continue;
                    }
                    let t = if !guaranteed_water {
                        guaranteed_water = true;
                        proof {
                            water_at = idx as int;
                        }
                        Tile::Water
                    } else {
                        match rng.next_u64() % 3 {
                            0 => Tile::Spikes,
                            1 => Tile::Oil,
                            _ => Tile::Water,
                        }
                    };
                    let ghost before = self.tiles@;
                    let ghost before_lvl = *self;
                    self.tiles.set(idx, t);
                    proof {
                        assert(changed_only(before, self.tiles@, set![Tile::Floor], to));
                        lemma_changed_chain(start.tiles@, before, self.tiles@, set![Tile::Floor], to);
                        self.lemma_put_read(&before_lvl, hx as int, hy as int, t);
                        assert(middle_inner_spot(&start, hx as int, hy as int)) by {
                            assert(inner_spot(start.rooms@[pick as int], hx as int, hy as int));
                        }
                        let ghost old_spots = spots;
                        spots = spots.push(idx as int);
                        assert forall|i: int| 0 <= i < start.tiles@.len() && #[trigger] self.tiles@[i] != start.tiles@[i]
                            implies spots.contains(i) by {
                            if i != idx as int {
                                assert(before[i] != start.tiles@[i]);
                                assert(old_spots.contains(i));
                                let k = choose|k: int| 0 <= k < old_spots.len() && old_spots[k] == i;
                                assert(spots[k] == i);
                            } else {
                                assert(spots[spots.len() - 1] == i);
                            }
                        }
                    }
                    placed += 1;
                    if placed >= hazard_count {
                        break;
                    }
                }
                if placed > 0 {
                    break;
                }
            }
        }
        assert(forall|i: int| 0 <= i < old(self).tiles@.len() && #[trigger] self.tiles@[i] != old(self).tiles@[i] ==> spots.contains(i));
    }
}


/// Tiles a puzzle niche or puzzle room may lay over floor.
pub open spec fn puzzle_tiles() -> Set<Tile> {
    set![
        Tile::Wall,
        Tile::BrittleWall,
        Tile::DeepWater,
        Tile::Chest,
        Tile::Crate,
        Tile::Spikes,
        Tile::Oil,
        Tile::Seal(SealKind::Ember),
        Tile::Seal(SealKind::Tide),
        Tile::Seal(SealKind::Thorn),
        Tile::Seal(SealKind::Echo),
    ]
}

impl DungeonLevel {
    fn place_bridge_setup_in_room(&mut self, room: &Room, rng: &mut Rng) -> (placed: bool)
        requires
            old(self).wf(),
            room_inside(*room, old(self).width as int, old(self).height as int),
        ensures
            final(self).wf(),
            final(self).same_frame(old(self)),
            changed_only(old(self).tiles@, final(self).tiles@, set![Tile::Floor], set![Tile::Crate]),
            !placed ==> final(self).tiles@ == old(self).tiles@,
            forall|x: int, y: int|
                #[trigger] final(self).tile_spec(x, y) != old(self).tile_spec(x, y) ==> in_rect(
                    room.x as int,
                    room.y as int,
                    room.w as int,
                    room.h as int,
                    x,
                    y,
                ),
    {
        let mut water_tiles: Vec<(i32, i32)> = Vec::new();
        let mut y = room.y + 1;
        while y < room.y + room.h - 1
            invariant
                self.wf(),
                room_inside(*room, self.width as int, self.height as int),
                room.y + 1 <= y,
                forall|j: int|
                    0 <= j < water_tiles@.len() ==> self.in_bounds_spec(
                        (#[trigger] water_tiles@[j]).0 as int,
                        water_tiles@[j].1 as int,
                    ) && room.x + 1 <= water_tiles@[j].0 < room.x + room.w - 1 && room.y + 1 <= water_tiles@[j].1 < room.y
                        + room.h - 1,
                y - room.y - 1 <= MAX_SIDE,
                water_tiles@.len() <= (y - room.y - 1) * MAX_SIDE,
            decreases room.y + room.h - y,
        {
            let mut x = room.x + 1;
            while x < room.x + room.w - 1
                invariant
                    self.wf(),
                    room_inside(*room, self.width as int, self.height as int),
                    room.y + 1 <= y < room.y + room.h - 1,
                    room.x + 1 <= x,
                    forall|j: int|
                        0 <= j < water_tiles@.len() ==> self.in_bounds_spec(
                            (#[trigger] water_tiles@[j]).0 as int,
                            water_tiles@[j].1 as int,
                        ) && room.x + 1 <= water_tiles@[j].0 < room.x + room.w - 1 && room.y + 1 <= water_tiles@[j].1
                            < room.y + room.h - 1,
                    x - room.x - 1 <= MAX_SIDE,
                    water_tiles@.len() <= (y - room.y - 1) * MAX_SIDE + (x - room.x - 1),
                decreases room.x + room.w - x,
            {
                if self.tile(x, y) == Tile::Water {
                    water_tiles.push((x, y));
                }
                x += 1;
            }
            y += 1;
        }
        if water_tiles.len() == 0 {
            return false;
        }
        let ghost start = *self;
        let wlen = water_tiles.len();
        assert(wlen <= MAX_SIDE * MAX_SIDE + MAX_SIDE);
        let water_start = (rng.next_u64() as usize) % wlen;
        let dirs: [(i32, i32); 4] = [(1, 0), (-1, 0), (0, 1), (0, -1)];
        let mut water_offset: usize = 0;
        while water_offset < wlen
            invariant
                *self == start,
                start.wf(),
                start == *old(self),
                wlen == water_tiles@.len(),
                wlen <= MAX_SIDE * MAX_SIDE + MAX_SIDE,
                water_start < wlen,
                dirs@ == seq![(1i32, 0i32), (-1i32, 0i32), (0i32, 1i32), (0i32, -1i32)],
                forall|j: int|
                    0 <= j < water_tiles@.len() ==> self.in_bounds_spec(
                        (#[trigger] water_tiles@[j]).0 as int,
                        water_tiles@[j].1 as int,
                    ) && room.x + 1 <= water_tiles@[j].0 < room.x + room.w - 1 && room.y + 1 <= water_tiles@[j].1 < room.y
                        + room.h - 1,
            decreases wlen - water_offset,
        {
            let (wx, wy) = water_tiles[(water_start + water_offset) % wlen];
            let dir_start = (rng.next_u64() % 4) as usize;
            let mut dir_offset: usize = 0;
            while dir_offset < 4
                invariant
                    *self == start,
                    start.wf(),
                    start == *old(self),
                    dir_start < 4,
                    dirs@ == seq![(1i32, 0i32), (-1i32, 0i32), (0i32, 1i32), (0i32, -1i32)],
                    self.in_bounds_spec(wx as int, wy as int),
                    room.x + 1 <= wx < room.x + room.w - 1,
                    room.y + 1 <= wy < room.y + room.h - 1,
                decreases 4 - dir_offset,
            {
                let (dx, dy) = dirs[(dir_start + dir_offset) % 4];
                dir_offset += 1;
                let crate_x = wx - dx;
                let crate_y = wy - dy;
                let stand_x = crate_x - dx;
                let stand_y = crate_y - dy;
                if !self.in_bounds(crate_x, crate_y) || !self.in_bounds(stand_x, stand_y) {
                    continue;
                }
                if self.tile(crate_x, crate_y) != Tile::Floor {
                    continue;
                }
                let stand_tile = self.tile(stand_x, stand_y);
                if !stand_tile.is_walkable() || stand_tile == Tile::Water {
                    continue;
                }
                proof {
                    lemma_at(self, crate_x as int, crate_y as int);
                }
                let ghost before = *self;
                self.put(crate_x, crate_y, Tile::Crate);
                proof {
                    self.lemma_put_read(&before, crate_x as int, crate_y as int, Tile::Crate);
                }
                return true;
            }
            water_offset += 1;
        }
        false
    }

    fn place_bridge_setup(&mut self, rng: &mut Rng) -> (placed: bool)
        requires
            old(self).wf(),
        ensures
            final(self).wf(),
            final(self).same_frame(old(self)),
            changed_only(old(self).tiles@, final(self).tiles@, set![Tile::Floor], set![Tile::Crate]),
            forall|x: int, y: int|
                #[trigger] final(self).tile_spec(x, y) != old(self).tile_spec(x, y) ==> middle_room_tile(old(self), x, y),
    {
        let n = self.rooms.len();
        if n < 4 {
            return false;
        }
        let room_count = n - 2;
        let start_room = (rng.next_u64() as usize) % room_count;
        let mut offset: usize = 0;
        while offset < room_count
            invariant
                self.same_frame(old(self)),
                self.tiles@ == old(self).tiles@,
                n == self.rooms@.len(),
                4 <= n <= MAX_ROOMS,
                room_count == n - 2,
                start_room < room_count,
                self.wf(),
            decreases room_count - offset,
        {
            let room_idx = 1 + (start_room + offset) % room_count;
            let room = self.rooms[room_idx];
            assert(room_inside(self.rooms@[room_idx as int], self.width as int, self.height as int));
            proof {
                lemma_same_tiles(self, old(self));
            }
            if self.place_bridge_setup_in_room(&room, rng) {
                proof {
                    assert(room == old(self).rooms@[room_idx as int]);
                    assert forall|x: int, y: int| #[trigger] self.tile_spec(x, y) != old(self).tile_spec(x, y)
                        implies middle_room_tile(old(self), x, y) by {
                        assert(in_or_inner(old(self).rooms@[room_idx as int], x, y));
                    }
                }
                return true;
            }
            offset += 1;
        }
        false
    }

    /// Place smashable crates with supplies or trap gas.
    pub fn place_crates(&mut self, rng: &mut Rng)
        requires
            old(self).wf(),
        ensures
            final(self).wf(),
            final(self).same_frame(old(self)),
            changed_only(old(self).tiles@, final(self).tiles@, set![Tile::Floor], set![Tile::Crate]),
            old(self).rooms@.len() < 4 ==> final(self).tiles@ == old(self).tiles@,
            forall|x: int, y: int|
                #[trigger] final(self).tile_spec(x, y) != old(self).tile_spec(x, y) ==> middle_room_tile(old(self), x, y),
    {
        let n = self.rooms.len();
        if n < 4 {
            return;
        }
        let ghost start = *self;
        let _ = self.place_bridge_setup(rng);
        assert(forall|x: int, y: int| #[trigger] self.tile_spec(x, y) != start.tile_spec(x, y) ==> middle_room_tile(&start, x, y));
        let crate_rooms = 1 + (rng.next_u64() % 2) as usize;
        let mut kc: usize = 0;
        while kc < crate_rooms
            invariant
                kc <= crate_rooms,
                self.wf(),
                self.same_frame(&start),
                start == *old(self),
                start.wf(),
                n == self.rooms@.len(),
                4 <= n <= MAX_ROOMS,
                changed_only(start.tiles@, self.tiles@, set![Tile::Floor], set![Tile::Crate]),
                forall|x: int, y: int| #[trigger] self.tile_spec(x, y) != start.tile_spec(x, y) ==> middle_room_tile(&start, x, y),
            decreases crate_rooms - kc,
        {
            kc += 1;
            let mut kk: usize = 0;
            while kk < 20
                invariant
                    kk <= 20,
                    self.wf(),
                    self.same_frame(&start),
                    start == *old(self),
                    start.wf(),
                    n == self.rooms@.len(),
                    4 <= n <= MAX_ROOMS,
                    changed_only(start.tiles@, self.tiles@, set![Tile::Floor], set![Tile::Crate]),
                    forall|x: int, y: int| #[trigger] self.tile_spec(x, y) != start.tile_spec(x, y) ==> middle_room_tile(&start, x, y),
                decreases 20 - kk,
            {
                kk += 1;
                let pick = rng.range(1, n as i32 - 1) as usize;
                let room = self.rooms[pick];
                assert(room_inside(self.rooms@[pick as int], self.width as int, self.height as int));
                assert(room == start.rooms@[pick as int]);
                if self.room_has_feature(&room, true) {
                    continue;
                }
                let crate_count = rng.range(1, 3);
                let mut placed: i32 = 0;
                let mut kj: usize = 0;
                while kj < 12
                    invariant
                        kj <= 12,
                        0 <= placed <= kj,
                        self.wf(),
                        self.same_frame(&start),
                        start == *old(self),
                        start.wf(),
                        n == self.rooms@.len(),
                        room_inside(room, self.width as int, self.height as int),
                        1 <= pick < n - 1,
                        room == start.rooms@[pick as int],
                        changed_only(start.tiles@, self.tiles@, set![Tile::Floor], set![Tile::Crate]),
                        forall|x: int, y: int| #[trigger] self.tile_spec(x, y) != start.tile_spec(x, y) ==> middle_room_tile(&start, x, y),
                    decreases 12 - kj,
                {
                    kj += 1;
                    let cx = rng.range(room.x + 1, room.x + room.w - 1);
                    let cy = rng.range(room.y + 1, room.y + room.h - 1);
                    let ghost before = self.tiles@;
                    let ghost before_lvl = *self;
                    let done = self.put_on_floor(cx, cy, Tile::Crate);
                    proof {
                        lemma_changed_chain(start.tiles@, before, self.tiles@, set![Tile::Floor], set![Tile::Crate]);
                        if done {
                            self.lemma_put_read(&before_lvl, cx as int, cy as int, Tile::Crate);
                            assert(in_or_inner(start.rooms@[pick as int], cx as int, cy as int));
                        } else {
                            lemma_same_tiles(self, &before_lvl);
                        }
                    }
                    if done {
                        placed += 1;
                        if placed >= crate_count {
                            break;
                        }
                    }
                }
                if placed > 0 {
                    break;
                }
            }
        }
    }
}


/// Tiles a plain room consists of.
pub open spec fn plain_tile(t: Tile) -> bool {
    t == Tile::Floor || t == Tile::Corridor
}

impl DungeonLevel {
    pub open spec fn room_is_plain_spec(&self, room: Room) -> bool {
        forall|x: int, y: int|
            room.x <= x < room.x + room.w && room.y <= y < room.y + room.h ==> self.in_bounds_spec(x, y)
                && plain_tile(#[trigger] self.tile_spec(x, y))
    }

    fn room_is_plain(&self, room: &Room) -> (b: bool)
        requires
            self.wf(),
            room_inside(*room, self.width as int, self.height as int),
        ensures
            b == self.room_is_plain_spec(*room),
    {
        let mut y = room.y;
        while y < room.y + room.h
            invariant
                self.wf(),
                room_inside(*room, self.width as int, self.height as int),
                room.y <= y <= room.y + room.h,
                forall|ax: int, ay: int|
                    room.x <= ax < room.x + room.w && room.y <= ay < y ==> self.in_bounds_spec(ax, ay)
                        && plain_tile(#[trigger] self.tile_spec(ax, ay)),
            decreases room.y + room.h - y,
        {
            let mut x = room.x;
            while x < room.x + room.w
                invariant
                    self.wf(),
                    room_inside(*room, self.width as int, self.height as int),
                    room.y <= y < room.y + room.h,
                    room.x <= x <= room.x + room.w,
                    forall|ax: int, ay: int|
                        room.x <= ax < room.x + room.w && room.y <= ay < y ==> self.in_bounds_spec(ax, ay)
                            && plain_tile(#[trigger] self.tile_spec(ax, ay)),
                    forall|ax: int|
                        room.x <= ax < x ==> self.in_bounds_spec(ax, y as int) && plain_tile(
                            #[trigger] self.tile_spec(ax, y as int),
                        ),
                decreases room.x + room.w - x,
            {
                if !self.in_bounds(x, y) {
                    return false;
                }
                let t = self.tile(x, y);
                if !(t == Tile::Floor || t == Tile::Corridor) {
                    return false;
                }
                x += 1;
            }
            y += 1;
        }
        true
    }

    /// Writes `t` at a position whose tile was floor when `start` was taken.
    fn put_over_start_floor(&mut self, x: i32, y: i32, t: Tile, Ghost(start): Ghost<DungeonLevel>, Ghost(to): Ghost<Set<Tile>>)
        requires
            old(self).wf(),
            start.wf(),
            old(self).same_frame(&start),
            start.in_bounds_spec(x as int, y as int),
            start.tile_spec(x as int, y as int) == Tile::Floor,
            to.contains(t),
            changed_only(start.tiles@, old(self).tiles@, set![Tile::Floor], to),
        ensures
            final(self).wf(),
            final(self).same_frame(&start),
            changed_only(start.tiles@, final(self).tiles@, set![Tile::Floor], to),
            final(self).tiles@ == old(self).tiles@.update(start.at(x as int, y as int), t),
    {
        proof {
            lemma_at(&start, x as int, y as int);
        }
        let ghost before = self.tiles@;
        self.put(x, y, t);
        proof {
            lemma_write_floor(start.tiles@, before, start.at(x as int, y as int), t, to);
        }
    }

    fn try_place_puzzle_niche(
        &mut self,
        barrier_x: i32,
        barrier_y: i32,
        dx: i32,
        dy: i32,
        barrier_tile: Tile,
        with_crate: bool,
    ) -> (placed: bool)
        requires
            old(self).wf(),
            -2 * MAX_SIDE <= barrier_x <= 2 * MAX_SIDE,
            -2 * MAX_SIDE <= barrier_y <= 2 * MAX_SIDE,
            -1 <= dx <= 1,
            -1 <= dy <= 1,
            puzzle_tiles().contains(barrier_tile),
        ensures
            final(self).wf(),
            final(self).same_frame(old(self)),
            changed_only(old(self).tiles@, final(self).tiles@, set![Tile::Floor], puzzle_tiles()),
            !placed ==> final(self).tiles@ == old(self).tiles@,
    {
        let reward_x = barrier_x + dx;
        let reward_y = barrier_y + dy;
        let back_x = reward_x + dx;
        let back_y = reward_y + dy;
        let approach_x = barrier_x - dx;
        let approach_y = barrier_y - dy;
        let stand_x = approach_x - dx;
        let stand_y = approach_y - dy;
        let side_a = (-dy, dx);
        let side_b = (dy, -dx);

        let ba_x = barrier_x + side_a.0;
        let ba_y = barrier_y + side_a.1;
        let ra_x = reward_x + side_a.0;
        let ra_y = reward_y + side_a.1;
        let ka_x = back_x + side_a.0;
        let ka_y = back_y + side_a.1;
        let bb_x = barrier_x + side_b.0;
        let bb_y = barrier_y + side_b.1;
        let rb_x = reward_x + side_b.0;
        let rb_y = reward_y + side_b.1;
        let kb_x = back_x + side_b.0;
        let kb_y = back_y + side_b.1;
        let mut floor_positions: Vec<(i32, i32)> = vec![
            (barrier_x, barrier_y),
            (reward_x, reward_y),
            (back_x, back_y),
            (approach_x, approach_y),
            (ba_x, ba_y),
            (ra_x, ra_y),
            (ka_x, ka_y),
            (bb_x, bb_y),
            (rb_x, rb_y),
            (kb_x, kb_y),
        ];
        if with_crate {
            floor_positions.push((stand_x, stand_y));
        }
        let ghost fp = floor_positions@;
        let mut k: usize = 0;
        while k < floor_positions.len()
            invariant
                k <= floor_positions@.len(),
                self.wf(),
                fp == floor_positions@,
                forall|j: int|
                    0 <= j < k ==> self.in_bounds_spec((#[trigger] fp[j]).0 as int, fp[j].1 as int)
                        && self.tile_spec(fp[j].0 as int, fp[j].1 as int) == Tile::Floor,
            decreases floor_positions@.len() - k,
        {
            let (x, y) = floor_positions[k];
            if !self.in_bounds(x, y) || self.tile(x, y) != Tile::Floor {
                return false;
            }
            k += 1;
        }
        let ghost start = *self;
        let ghost to = puzzle_tiles();
        assert(fp[0] == (barrier_x, barrier_y));
        assert(fp[1] == (reward_x, reward_y));
        assert(fp[2] == (back_x, back_y));
        assert(fp[3] == (approach_x, approach_y));
        assert(fp[4] == (ba_x, ba_y));
        assert(fp[5] == (ra_x, ra_y));
        assert(fp[6] == (ka_x, ka_y));
        assert(fp[7] == (bb_x, bb_y));
        assert(fp[8] == (rb_x, rb_y));
        assert(fp[9] == (kb_x, kb_y));
        assert(changed_only(start.tiles@, self.tiles@, set![Tile::Floor], to));

        self.put_over_start_floor(back_x, back_y, Tile::Wall, Ghost(start), Ghost(to));
        self.put_over_start_floor(ba_x, ba_y, Tile::Wall, Ghost(start), Ghost(to));
        self.put_over_start_floor(ra_x, ra_y, Tile::Wall, Ghost(start), Ghost(to));
        self.put_over_start_floor(ka_x, ka_y, Tile::Wall, Ghost(start), Ghost(to));
        self.put_over_start_floor(bb_x, bb_y, Tile::Wall, Ghost(start), Ghost(to));
        self.put_over_start_floor(rb_x, rb_y, Tile::Wall, Ghost(start), Ghost(to));
        self.put_over_start_floor(kb_x, kb_y, Tile::Wall, Ghost(start), Ghost(to));
        self.put_over_start_floor(barrier_x, barrier_y, barrier_tile, Ghost(start), Ghost(to));
        self.put_over_start_floor(reward_x, reward_y, Tile::Chest, Ghost(start), Ghost(to));
        if with_crate {
            self.put_over_start_floor(approach_x, approach_y, Tile::Crate, Ghost(start), Ghost(to));
        }
        true
    }
}


impl DungeonLevel {
    /// A brittle wall sealing a chest into a wall niche.
    fn try_place_brittle_vault(&mut self, room: &Room, rng: &mut Rng) -> (placed: bool)
        requires
            old(self).wf(),
            room_inside(*room, old(self).width as int, old(self).height as int),
        ensures
            final(self).wf(),
            final(self).same_frame(old(self)),
            changed_only(old(self).tiles@, final(self).tiles@, set![Tile::Floor], puzzle_tiles()),
            !placed ==> final(self).tiles@ == old(self).tiles@,
    {
        let mut candidates: Vec<(i32, i32, i32, i32)> = Vec::new();
        if room.w >= 6 && room.h >= 5 {
            let y = rng.range(room.y + 2, room.y + room.h - 2);
            candidates.push((room.x + room.w - 4, y, 1, 0));
            candidates.push((room.x + 3, y, -1, 0));
        }
        if room.h >= 6 && room.w >= 5 {
            let x = rng.range(room.x + 2, room.x + room.w - 2);
            candidates.push((x, room.y + room.h - 4, 0, 1));
            candidates.push((x, room.y + 3, 0, -1));
        }
        if candidates.len() == 0 {
            return false;
        }
        let clen = candidates.len();
        let start = (rng.next_u64() as usize) % clen;
        let mut offset: usize = 0;
        while offset < clen
            invariant
                self.same_frame(old(self)),
                self.tiles@ == old(self).tiles@,
                self.wf(),
                clen == candidates@.len(),
                1 <= clen <= 4,
                start < clen,
                forall|j: int|
                    0 <= j < clen ==> -2 * MAX_SIDE <= (#[trigger] candidates@[j]).0 <= 2 * MAX_SIDE && -2
                        * MAX_SIDE <= candidates@[j].1 <= 2 * MAX_SIDE && -1 <= candidates@[j].2 <= 1 && -1
                        <= candidates@[j].3 <= 1,
            decreases clen - offset,
        {
            let (x, y, dx, dy) = candidates[(start + offset) % clen];
            if self.try_place_puzzle_niche(x, y, dx, dy, Tile::BrittleWall, false) {
                return true;
            }
            offset += 1;
        }
        false
    }
    /// Deep water guarding a chest, with a crate to bridge it.
    fn try_place_deep_water_cache(&mut self, room: &Room, rng: &mut Rng) -> (placed: bool)
        requires
            old(self).wf(),
            room_inside(*room, old(self).width as int, old(self).height as int),
        ensures
            final(self).wf(),
            final(self).same_frame(old(self)),
            changed_only(old(self).tiles@, final(self).tiles@, set![Tile::Floor], puzzle_tiles()),
            !placed ==> final(self).tiles@ == old(self).tiles@,
    {
        let mut candidates: Vec<(i32, i32, i32, i32)> = Vec::new();
        if room.w >= 7 && room.h >= 5 {
            let y = rng.range(room.y + 2, room.y + room.h - 2);
            candidates.push((room.x + room.w - 4, y, 1, 0));
            candidates.push((room.x + 3, y, -1, 0));
        }
        if room.h >= 7 && room.w >= 5 {
            let x = rng.range(room.x + 2, room.x + room.w - 2);
            candidates.push((x, room.y + room.h - 4, 0, 1));
            candidates.push((x, room.y + 3, 0, -1));
        }
        if candidates.len() == 0 {
            return false;
        }
        let clen = candidates.len();
        let start = (rng.next_u64() as usize) % clen;
        let mut offset: usize = 0;
        while offset < clen
            invariant
                self.same_frame(old(self)),
                self.tiles@ == old(self).tiles@,
                self.wf(),
                clen == candidates@.len(),
                1 <= clen <= 4,
                start < clen,
                forall|j: int|
                    0 <= j < clen ==> -2 * MAX_SIDE <= (#[trigger] candidates@[j]).0 <= 2 * MAX_SIDE && -2
                        * MAX_SIDE <= candidates@[j].1 <= 2 * MAX_SIDE && -1 <= candidates@[j].2 <= 1 && -1
                        <= candidates@[j].3 <= 1,
            decreases clen - offset,
        {
            let (x, y, dx, dy) = candidates[(start + offset) % clen];
            if self.try_place_puzzle_niche(x, y, dx, dy, Tile::DeepWater, true) {
                return true;
            }
            offset += 1;
        }
        false
    }

    /// Spike bridge: 3-wide spike corridor with a chest on the far side.
    fn try_place_spike_bridge(&mut self, room: &Room, rng: &mut Rng) -> (placed: bool)
        requires
            old(self).wf(),
            room_inside(*room, old(self).width as int, old(self).height as int),
        ensures
            final(self).wf(),
            final(self).same_frame(old(self)),
            changed_only(old(self).tiles@, final(self).tiles@, set![Tile::Floor], puzzle_tiles()),
            !placed ==> final(self).tiles@ == old(self).tiles@,
    {
        if room.w < 7 || room.h < 5 {
            return false;
        }
        let cy = rng.range(room.y + 1, room.y + room.h - 1);
        let sx = room.x + 2;
        let mut dx: i32 = 0;
        while dx < 3
            invariant
                0 <= dx <= 3,
                sx == room.x + 2,
                self.wf(),
                room_inside(*room, self.width as int, self.height as int),
                forall|j: int| 0 <= j < dx ==> self.in_bounds_spec(sx + j, cy as int) && #[trigger] self.tile_spec(sx + j, cy as int) == Tile::Floor,
            decreases 3 - dx,
        {
            let x = sx + dx;
            if !self.in_bounds(x, cy) || self.tile(x, cy) != Tile::Floor {
                return false;
            }
            dx += 1;
        }
        let reward_x = sx + 3;
        if !self.in_bounds(reward_x, cy) || self.tile(reward_x, cy) != Tile::Floor {
            return false;
        }
        let ghost start = *self;
        let ghost to = puzzle_tiles();
        assert(self.tile_spec(sx + 0, cy as int) == Tile::Floor);
        assert(self.tile_spec(sx + 1, cy as int) == Tile::Floor);
        assert(self.tile_spec(sx + 2, cy as int) == Tile::Floor);
        self.put_over_start_floor(sx, cy, Tile::Spikes, Ghost(start), Ghost(to));
        self.put_over_start_floor(sx + 1, cy, Tile::Spikes, Ghost(start), Ghost(to));
        self.put_over_start_floor(sx + 2, cy, Tile::Spikes, Ghost(start), Ghost(to));
        self.put_over_start_floor(reward_x, cy, Tile::Chest, Ghost(start), Ghost(to));
        true
    }

    /// Oil-fire trap: oil slick leading to a chest, ignitable by fire spell.
    fn try_place_oil_fire_trap(&mut self, room: &Room, rng: &mut Rng) -> (placed: bool)
        requires
            old(self).wf(),
            room_inside(*room, old(self).width as int, old(self).height as int),
        ensures
            final(self).wf(),
            final(self).same_frame(old(self)),
            changed_only(old(self).tiles@, final(self).tiles@, set![Tile::Floor], puzzle_tiles()),
            !placed ==> final(self).tiles@ == old(self).tiles@,
    {
        if room.w < 6 || room.h < 5 {
            return false;
        }
        let cy = rng.range(room.y + 1, room.y + room.h - 1);
        let sx = room.x + 2;
        let mut dx: i32 = 0;
        while dx < 3
            invariant
                0 <= dx <= 3,
                sx == room.x + 2,
                self.wf(),
                room_inside(*room, self.width as int, self.height as int),
                forall|j: int| 0 <= j < dx ==> self.in_bounds_spec(sx + j, cy as int) && #[trigger] self.tile_spec(sx + j, cy as int) == Tile::Floor,
            decreases 3 - dx,
        {
            let x = sx + dx;
            if !self.in_bounds(x, cy) || self.tile(x, cy) != Tile::Floor {
                return false;
            }
            dx += 1;
        }
        let ghost start = *self;
        let ghost to = puzzle_tiles();
        assert(self.tile_spec(sx + 0, cy as int) == Tile::Floor);
        assert(self.tile_spec(sx + 1, cy as int) == Tile::Floor);
        assert(self.tile_spec(sx + 2, cy as int) == Tile::Floor);
        self.put_over_start_floor(sx, cy, Tile::Oil, Ghost(start), Ghost(to));
        self.put_over_start_floor(sx + 1, cy, Tile::Oil, Ghost(start), Ghost(to));
        self.put_over_start_floor(sx + 2, cy, Tile::Chest, Ghost(start), Ghost(to));
        true
    }

    /// Seal chain: two seals placed near each other for cascading reshaping.
    fn try_place_seal_chain(&mut self, room: &Room, rng: &mut Rng) -> (placed: bool)
        requires
            old(self).wf(),
            room_inside(*room, old(self).width as int, old(self).height as int),
        ensures
            final(self).wf(),
            final(self).same_frame(old(self)),
            changed_only(old(self).tiles@, final(self).tiles@, set![Tile::Floor], puzzle_tiles()),
            !placed ==> final(self).tiles@ == old(self).tiles@,
    {
        if room.w < 6 || room.h < 5 {
            return false;
        }
        let cx = rng.range(room.x + 1, room.x + room.w - 3);
        let cy = rng.range(room.y + 1, room.y + room.h - 1);
        if !self.in_bounds(cx, cy) || self.tile(cx, cy) != Tile::Floor {
            return false;
        }
        if !self.in_bounds(cx + 2, cy) || self.tile(cx + 2, cy) != Tile::Floor {
            return false;
        }
        let mut rng_a = Rng::new(rng.next_u64());
        let kind_a = SealKind::random(&mut rng_a);
        let mut rng_b = Rng::new(rng.next_u64());
        let kind_b = SealKind::random(&mut rng_b);
        let ghost start = *self;
        let ghost to = puzzle_tiles();
        self.put_over_start_floor(cx, cy, Tile::Seal(kind_a), Ghost(start), Ghost(to));
        self.put_over_start_floor(cx + 2, cy, Tile::Seal(kind_b), Ghost(start), Ghost(to));
        true
    }

    fn place_puzzle_room_in_room(&mut self, room: &Room, rng: &mut Rng) -> (placed: bool)
        requires
            old(self).wf(),
            room_inside(*room, old(self).width as int, old(self).height as int),
        ensures
            final(self).wf(),
            final(self).same_frame(old(self)),
            changed_only(old(self).tiles@, final(self).tiles@, set![Tile::Floor], puzzle_tiles()),
            !placed ==> final(self).tiles@ == old(self).tiles@,
    {
        let variant_count: u64 = 5;
        let start = (rng.next_u64() % variant_count) as usize;
        let mut offset: usize = 0;
        while offset < 5
            invariant
                self.same_frame(old(self)),
                self.tiles@ == old(self).tiles@,
                self.wf(),
                room_inside(*room, self.width as int, self.height as int),
                start < 5,
            decreases 5 - offset,
        {
            let placed = match (start + offset) % 5 {
                0 => self.try_place_brittle_vault(room, rng),
                1 => self.try_place_deep_water_cache(room, rng),
                2 => self.try_place_spike_bridge(room, rng),
                3 => self.try_place_oil_fire_trap(room, rng),
                _ => self.try_place_seal_chain(room, rng),
            };
            if placed {
                return true;
            }
            offset += 1;
        }
        false
    }

    /// Lays out one or two optional puzzle niches in plain middle rooms.
    pub fn place_puzzle_rooms(&mut self, rng: &mut Rng)
        requires
            old(self).wf(),
        ensures
            final(self).wf(),
            final(self).same_frame(old(self)),
            changed_only(old(self).tiles@, final(self).tiles@, set![Tile::Floor], puzzle_tiles()),
            old(self).rooms@.len() < 4 ==> final(self).tiles@ == old(self).tiles@,
    {
        let n = self.rooms.len();
        if n < 4 {
            return;
        }
        let room_count = n - 2;
        let desired: usize = if room_count >= 4 && rng.next_u64() % 100 < 50 { 2 } else { 1 };
        let start_room = (rng.next_u64() as usize) % room_count;
        let ghost start = *self;
        let mut placed: usize = 0;
        let mut offset: usize = 0;
        while offset < room_count
            invariant
                self.wf(),
                self.same_frame(&start),
                start == *old(self),
                start.wf(),
                n == self.rooms@.len(),
                4 <= n <= MAX_ROOMS,
                room_count == n - 2,
                start_room < room_count,
                placed <= offset,
                offset <= room_count,
                changed_only(start.tiles@, self.tiles@, set![Tile::Floor], puzzle_tiles()),
            decreases room_count - offset,
        {
            let room_idx = 1 + (start_room + offset) % room_count;
            offset += 1;
            let room = self.rooms[room_idx];
            assert(room_inside(self.rooms@[room_idx as int], self.width as int, self.height as int));
            if !self.room_is_plain(&room) {
                continue;
            }
            let ghost before = self.tiles@;
            let done = self.place_puzzle_room_in_room(&room, rng);
            proof {
                lemma_changed_chain(start.tiles@, before, self.tiles@, set![Tile::Floor], puzzle_tiles());
            }
            if done {
                placed += 1;
                if placed >= desired {
                    break;
                }
            }
        }
    }
}


/// Tiles a secret chamber may lay over solid wall.
pub open spec fn secret_tiles() -> Set<Tile> {
    set![
        Tile::Floor,
        Tile::CrackedWall,
        Tile::Chest,
        Tile::Shrine,
        Tile::Forge,
        Tile::Altar(AltarKind::Jade),
        Tile::Altar(AltarKind::Gale),
        Tile::Altar(AltarKind::Mirror),
        Tile::Altar(AltarKind::Iron),
        Tile::Altar(AltarKind::Gold),
    ]
}

/// What a secret chamber may hold once furnished: floor and one feature.
pub open spec fn chamber_tiles() -> Set<Tile> {
    secret_tiles().remove(Tile::CrackedWall)
}

/// Whether `(x, y)` lies in the rectangle `[rx, rx + rw) × [ry, ry + rh)`.
pub open spec fn in_rect(rx: int, ry: int, rw: int, rh: int, x: int, y: int) -> bool {
    rx <= x < rx + rw && ry <= y < ry + rh
}

/// Whether `(x, y)` touches `r` from outside, corners included.
pub open spec fn beside_room(r: Room, x: int, y: int) -> bool {
    &&& r.x - 1 <= x <= r.x + r.w
    &&& r.y - 1 <= y <= r.y + r.h
    &&& !in_rect(r.x as int, r.y as int, r.w as int, r.h as int, x, y)
}

/// Whether `(x, y)` touches a room other than the first and the last.
pub open spec fn beside_middle_room(lvl: &DungeonLevel, x: int, y: int) -> bool {
    exists|i: int| 1 <= i < lvl.rooms@.len() - 1 && beside_room(#[trigger] lvl.rooms@[i], x, y)
}

/// `b` is `a` with a chamber `[sx, sx + sw) × [sy, sy + sh)` carved out of
/// solid wall (its one-tile ring included), the door `(dx, dy)` on that ring
/// turned into a cracked wall, the chamber holding only floor and features,
/// and every other tile as it was. The rest of the ring stays wall, so the
/// door is the one way in.
pub open spec fn secret_chamber(a: &DungeonLevel, b: &DungeonLevel, sx: int, sy: int, sw: int, sh: int, dx: int, dy: int) -> bool {
    &&& 4 <= sw <= 6
    &&& 4 <= sh <= 6
    &&& a.solid_wall_spec(sx - 1, sy - 1, sw + 2, sh + 2)
    &&& sx - 1 <= dx <= sx + sw
    &&& sy - 1 <= dy <= sy + sh
    &&& !in_rect(sx, sy, sw, sh, dx, dy)
    &&& b.tile_spec(dx, dy) == Tile::CrackedWall
    &&& forall|x: int, y: int|
        in_rect(sx, sy, sw, sh, x, y) ==> chamber_tiles().contains(#[trigger] b.tile_spec(x, y))
    &&& forall|x: int, y: int|
        !in_rect(sx, sy, sw, sh, x, y) && !(x == dx && y == dy) ==> #[trigger] b.tile_spec(x, y) == a.tile_spec(x, y)
}

/// A chamber of `sw` by `sh` at `(sx, sy)` fits: it and its ring are solid wall.
pub open spec fn site_wall(lvl: &DungeonLevel, sx: int, sy: int, sw: int, sh: int) -> bool {
    lvl.solid_wall_spec(sx - 1, sy - 1, sw + 2, sh + 2)
}

/// A chamber of `sw` by `sh` fits above or below `r`, centred on the door
/// column `dx`.
pub open spec fn row_site(lvl: &DungeonLevel, r: Room, sw: int, sh: int, dx: int) -> bool {
    site_wall(lvl, dx - sw / 2, r.y - 1 - sh, sw, sh) || site_wall(lvl, dx - sw / 2, r.y + r.h + 1, sw, sh)
}

/// A chamber of `sw` by `sh` fits left or right of `r`, centred on the door
/// row `dy`.
pub open spec fn column_site(lvl: &DungeonLevel, r: Room, sw: int, sh: int, dy: int) -> bool {
    site_wall(lvl, r.x - 1 - sw, dy - sh / 2, sw, sh) || site_wall(lvl, r.x + r.w + 1, dy - sh / 2, sw, sh)
}

/// A chamber of `sw` by `sh` fits against one side of `r`, at a door that is
/// not a corner of that side.
pub open spec fn edge_site(lvl: &DungeonLevel, r: Room, sw: int, sh: int) -> bool {
    ||| exists|dx: int| r.x + 1 <= dx < r.x + r.w - 1 && #[trigger] row_site(lvl, r, sw, sh, dx)
    ||| exists|dy: int| r.y + 1 <= dy < r.y + r.h - 1 && #[trigger] column_site(lvl, r, sw, sh, dy)
}

/// Some middle room has a side where a chamber of 4 or 5 by 4 or 5 fits.
pub open spec fn has_secret_site(lvl: &DungeonLevel) -> bool {
    exists|i: int, sw: int, sh: int|
        1 <= i < lvl.rooms@.len() - 1 && 4 <= sw <= 5 && 4 <= sh <= 5 && #[trigger] edge_site(lvl, lvl.rooms@[i], sw, sh)
}

/// Coordinate form of `changed_only`: every in-bounds tile that differs went
/// from a tile in `from` to a tile in `to`.
pub open spec fn changed_only_xy(a: &DungeonLevel, b: &DungeonLevel, from: Set<Tile>, to: Set<Tile>) -> bool {
    forall|x: int, y: int|
        a.in_bounds_spec(x, y) && #[trigger] b.tile_spec(x, y) != a.tile_spec(x, y) ==> from.contains(
            a.tile_spec(x, y),
        ) && to.contains(b.tile_spec(x, y))
}

pub proof fn lemma_xy_to_index(a: &DungeonLevel, b: &DungeonLevel, from: Set<Tile>, to: Set<Tile>)
    requires
        a.wf(),
        b.wf(),
        b.same_frame(a),
        changed_only_xy(a, b, from, to),
    ensures
        changed_only(a.tiles@, b.tiles@, from, to),
{
    assert forall|i: int| 0 <= i < a.tiles@.len() && #[trigger] b.tiles@[i] != a.tiles@[i] implies from.contains(
        a.tiles@[i],
    ) && to.contains(b.tiles@[i]) by {
        lemma_index_coords(i, a.width as int, a.height as int);
        let x = i % (a.width as int);
        let y = i / (a.width as int);
        assert(a.in_bounds_spec(x, y));
        assert(b.tile_spec(x, y) != a.tile_spec(x, y));
    }
}

/// Clamp `v` into `[lo, hi]` (with `lo <= hi`).
fn clamp_i32(v: i32, lo: i32, hi: i32) -> (r: i32)
    requires
        lo <= hi,
    ensures
        r == if v < lo { lo } else if v > hi { hi } else { v },
{
    if v < lo {
        lo
    } else if v > hi {
        hi
    } else {
        v
    }
}

impl DungeonLevel {
    /// Writes over in-bounds tiles and reads back, tracking coordinate-level change.
    proof fn lemma_put_xy(&self, before: &DungeonLevel, start: &DungeonLevel, x: int, y: int, t: Tile, to: Set<Tile>)
        requires
            before.wf(),
            start.wf(),
            before.same_frame(start),
            before.in_bounds_spec(x, y),
            self.same_frame(before),
            self.tiles@ == before.tiles@.update(before.at(x, y), t),
            changed_only_xy(start, before, set![Tile::Wall], to),
            start.tile_spec(x, y) == Tile::Wall,
            to.contains(t),
        ensures
            changed_only_xy(start, self, set![Tile::Wall], to),
    {
        self.lemma_put_read(before, x, y, t);
    }

    fn place_secret_room_feature(&mut self, room_x: i32, room_y: i32, room_w: i32, room_h: i32, rng: &mut Rng, Ghost(start): Ghost<DungeonLevel>)
        requires
            old(self).wf(),
            start.wf(),
            old(self).same_frame(&start),
            1 <= room_x,
            1 <= room_y,
            4 <= room_w <= 6,
            4 <= room_h <= 6,
            room_x + room_w < old(self).width,
            room_y + room_h < old(self).height,
            forall|px: int, py: int|
                room_x <= px < room_x + room_w && room_y <= py < room_y + room_h ==> #[trigger] start.tile_spec(px, py)
                    == Tile::Wall,
            changed_only_xy(&start, old(self), set![Tile::Wall], secret_tiles()),
            forall|px: int, py: int|
                in_rect(room_x as int, room_y as int, room_w as int, room_h as int, px, py)
                    ==> #[trigger] old(self).tile_spec(px, py) == Tile::Floor,
        ensures
            final(self).wf(),
            final(self).same_frame(&start),
            changed_only_xy(&start, final(self), set![Tile::Wall], secret_tiles()),
            forall|px: int, py: int|
                !in_rect(room_x as int, room_y as int, room_w as int, room_h as int, px, py)
                    ==> #[trigger] final(self).tile_spec(px, py) == old(self).tile_spec(px, py),
            forall|px: int, py: int|
                in_rect(room_x as int, room_y as int, room_w as int, room_h as int, px, py)
                    ==> chamber_tiles().contains(#[trigger] final(self).tile_spec(px, py)),
    {
        let ghost orig = *self;
        assert(chamber_tiles().contains(Tile::Floor));
        let cx = room_x + room_w / 2;
        let cy = room_y + room_h / 2;
        match rng.next_u64() % 4 {
            0 => {
                let offs: [i32; 3] = [0, -1, 1];
                let mut k: usize = 0;
                while k < 3
                    invariant
                        self.wf(),
                        start.wf(),
                        self.same_frame(&start),
                        offs@ == seq![0i32, -1i32, 1i32],
                        room_x <= cx - 1 && cx + 1 < room_x + room_w,
                        1 <= room_x,
                        room_x + room_w < self.width,
                        room_y <= cy < room_y + room_h,
                        forall|px: int, py: int|
                            room_x <= px < room_x + room_w && room_y <= py < room_y + room_h ==> #[trigger] start.tile_spec(px, py)
                                == Tile::Wall,
                        changed_only_xy(&start, self, set![Tile::Wall], secret_tiles()),
                        orig == *old(self),
                        room_y <= cy < room_y + room_h,
                        forall|px: int, py: int|
                            !in_rect(room_x as int, room_y as int, room_w as int, room_h as int, px, py)
                                ==> #[trigger] self.tile_spec(px, py) == orig.tile_spec(px, py),
                        forall|px: int, py: int|
                            in_rect(room_x as int, room_y as int, room_w as int, room_h as int, px, py)
                                ==> chamber_tiles().contains(#[trigger] self.tile_spec(px, py)),
                    decreases 3 - k,
                {
                    let tx = cx + offs[k];
                    let ty = cy;
                    k += 1;
                    if self.in_bounds(tx, ty) && self.tile(tx, ty) == Tile::Floor {
                        let ghost before = *self;
                        self.put(tx, ty, Tile::Chest);
                        proof {
                            self.lemma_put_xy(&before, &start, tx as int, ty as int, Tile::Chest, secret_tiles());
                            self.lemma_put_read(&before, tx as int, ty as int, Tile::Chest);
                            assert(chamber_tiles().contains(Tile::Chest));
                        }
                    }
                }
            },
            1 => {
                let kind = AltarKind::random(rng);
                let ghost before = *self;
                self.put(cx, cy, Tile::Altar(kind));
                proof {
                    self.lemma_put_xy(&before, &start, cx as int, cy as int, Tile::Altar(kind), secret_tiles());
                    self.lemma_put_read(&before, cx as int, cy as int, Tile::Altar(kind));
                    assert(chamber_tiles().contains(Tile::Altar(kind)));
                }
            },
            2 => {
                let ghost before = *self;
                self.put(cx, cy, Tile::Shrine);
                proof {
                    self.lemma_put_xy(&before, &start, cx as int, cy as int, Tile::Shrine, secret_tiles());
                    self.lemma_put_read(&before, cx as int, cy as int, Tile::Shrine);
                    assert(chamber_tiles().contains(Tile::Shrine));
                }
            },
            _ => {
                let ghost before = *self;
                self.put(cx, cy, Tile::Forge);
                proof {
                    self.lemma_put_xy(&before, &start, cx as int, cy as int, Tile::Forge, secret_tiles());
                    self.lemma_put_read(&before, cx as int, cy as int, Tile::Forge);
                    assert(chamber_tiles().contains(Tile::Forge));
                }
            },
        }
    }

    fn try_place_secret_room_candidate(
        &mut self,
        secret_x: i32,
        secret_y: i32,
        secret_w: i32,
        secret_h: i32,
        door_x: i32,
        door_y: i32,
        rng: &mut Rng,
    ) -> (placed: bool)
        requires
            old(self).wf(),
            -2 * MAX_SIDE <= secret_x <= 2 * MAX_SIDE,
            -2 * MAX_SIDE <= secret_y <= 2 * MAX_SIDE,
            4 <= secret_w <= 6,
            4 <= secret_h <= 6,
            secret_x - 1 <= door_x <= secret_x + secret_w,
            secret_y - 1 <= door_y <= secret_y + secret_h,
            !in_rect(secret_x as int, secret_y as int, secret_w as int, secret_h as int, door_x as int, door_y as int),
        ensures
            final(self).wf(),
            final(self).same_frame(old(self)),
            changed_only_xy(old(self), final(self), set![Tile::Wall], secret_tiles()),
            !placed ==> final(self).tiles@ == old(self).tiles@,
            placed == site_wall(old(self), secret_x as int, secret_y as int, secret_w as int, secret_h as int),
            placed ==> secret_chamber(
                old(self),
                final(self),
                secret_x as int,
                secret_y as int,
                secret_w as int,
                secret_h as int,
                door_x as int,
                door_y as int,
            ),
    {
        if secret_x < 1 || secret_y < 1 || secret_x + secret_w >= self.width - 1 || secret_y + secret_h
            >= self.height - 1 {
            return false;
        }
        if !self.area_is_solid_wall(secret_x - 1, secret_y - 1, secret_w + 2, secret_h + 2) {
            return false;
        }
        let ghost start = *self;
        self.carve_rect(secret_x, secret_y, secret_w, secret_h, Tile::Floor);
        assert(changed_only_xy(&start, self, set![Tile::Wall], secret_tiles()));
        let ghost before = *self;
        self.put(door_x, door_y, Tile::CrackedWall);
        proof {
            self.lemma_put_xy(&before, &start, door_x as int, door_y as int, Tile::CrackedWall, secret_tiles());
            self.lemma_put_read(&before, door_x as int, door_y as int, Tile::CrackedWall);
        }
        let ghost doored = *self;
        self.place_secret_room_feature(secret_x, secret_y, secret_w, secret_h, rng, Ghost(start));
        proof {
            assert forall|x: int, y: int|
                !in_rect(secret_x as int, secret_y as int, secret_w as int, secret_h as int, x, y) && !(x == door_x
                    && y == door_y) implies #[trigger] self.tile_spec(x, y) == start.tile_spec(x, y) by {
                assert(self.tile_spec(x, y) == doored.tile_spec(x, y));
                assert(doored.tile_spec(x, y) == before.tile_spec(x, y));
            }
            assert(self.tile_spec(door_x as int, door_y as int) == doored.tile_spec(door_x as int, door_y as int));
        }
        true
    }
}


/// Two levels of one frame with the same tiles read alike everywhere.
proof fn lemma_same_tiles(a: &DungeonLevel, b: &DungeonLevel)
    requires
        a.same_frame(b),
        a.tiles@ == b.tiles@,
    ensures
        forall|x: int, y: int| #[trigger] a.tile_spec(x, y) == b.tile_spec(x, y),
        forall|x: int, y: int, w: int, h: int| #[trigger] site_wall(a, x, y, w, h) == site_wall(b, x, y, w, h),
{
    assert forall|x: int, y: int| #[trigger] a.tile_spec(x, y) == b.tile_spec(x, y) by {}
    assert forall|x: int, y: int, w: int, h: int| #[trigger] site_wall(a, x, y, w, h) == site_wall(b, x, y, w, h) by {
        if site_wall(a, x, y, w, h) {
            assert forall|tx: int, ty: int| x - 1 <= tx < x - 1 + w + 2 && y - 1 <= ty < y - 1 + h + 2 implies #[trigger] b.tile_spec(tx, ty) == Tile::Wall by {
                assert(a.tile_spec(tx, ty) == Tile::Wall);
            }
        }
        if site_wall(b, x, y, w, h) {
            assert forall|tx: int, ty: int| x - 1 <= tx < x - 1 + w + 2 && y - 1 <= ty < y - 1 + h + 2 implies #[trigger] a.tile_spec(tx, ty) == Tile::Wall by {
                assert(b.tile_spec(tx, ty) == Tile::Wall);
            }
        }
    }
}

impl DungeonLevel {
    /// A chamber carved from `pre` is carved from any level that reads as `pre` does.
    proof fn lemma_chamber_from(&self, pre: &DungeonLevel, orig: &DungeonLevel, sx: int, sy: int, sw: int, sh: int, dx: int, dy: int)
        requires
            pre.same_frame(orig),
            pre.tiles@ == orig.tiles@,
            self.same_frame(pre),
            secret_chamber(pre, self, sx, sy, sw, sh, dx, dy),
        ensures
            secret_chamber(orig, self, sx, sy, sw, sh, dx, dy),
            self.tiles@ != orig.tiles@,
    {
        lemma_same_tiles(pre, orig);
        assert(site_wall(pre, sx, sy, sw, sh));
        assert(orig.tile_spec(dx, dy) == Tile::Wall);
        if self.tiles@ == orig.tiles@ {
            assert(self.tile_spec(dx, dy) == orig.tile_spec(dx, dy));
        }
    }
}

impl DungeonLevel {
    /// Hides one walled-off chamber behind a cracked wall next to a middle room.
    pub fn place_secret_room(&mut self, rng: &mut Rng)
        requires
            old(self).wf(),
        ensures
            final(self).wf(),
            final(self).same_frame(old(self)),
            changed_only_xy(old(self), final(self), set![Tile::Wall], secret_tiles()),
            changed_only(old(self).tiles@, final(self).tiles@, set![Tile::Wall], secret_tiles()),
            old(self).rooms@.len() < 4 ==> *final(self) == *old(self) && *final(rng) == *old(rng),
            final(self).tiles@ == old(self).tiles@ || exists|sx: int, sy: int, sw: int, sh: int, dx: int, dy: int|
                #[trigger] secret_chamber(old(self), final(self), sx, sy, sw, sh, dx, dy) && beside_middle_room(
                    old(self),
                    dx,
                    dy,
                ),
            old(self).rooms@.len() >= 4 && has_secret_site(old(self)) ==> final(self).tiles@ != old(self).tiles@,
    {
        let n = self.rooms.len();
        if n < 4 {
            return;
        }
        let mut attempt: usize = 0;
        while attempt < 24
            invariant
                self.wf(),
                self.same_frame(old(self)),
                self.tiles@ == old(self).tiles@,
                n == self.rooms@.len(),
                4 <= n <= MAX_ROOMS,
            decreases 24 - attempt,
        {
            attempt += 1;
            let room_idx = 1 + (rng.next_u64() as usize % (n - 2));
            let room = self.rooms[room_idx];
            assert(room_inside(self.rooms@[room_idx as int], self.width as int, self.height as int));
            let start_dir = (rng.next_u64() % 4) as usize;
            let mut dir_offset: usize = 0;
            while dir_offset < 4
                invariant
                    self.wf(),
                    self.same_frame(old(self)),
                    self.tiles@ == old(self).tiles@,
                    n == self.rooms@.len(),
                    4 <= n <= MAX_ROOMS,
                    room_inside(room, self.width as int, self.height as int),
                    start_dir < 4,
                    1 <= room_idx <= n - 2,
                    room == old(self).rooms@[room_idx as int],
                decreases 4 - dir_offset,
            {
                let secret_w = 4 + (rng.next_u64() % 3) as i32;
                let secret_h = 4 + (rng.next_u64() % 3) as i32;
                let max_x = if self.width - secret_w - 1 > 1 { self.width - secret_w - 1 } else { 1 };
                let max_y = if self.height - secret_h - 1 > 1 { self.height - secret_h - 1 } else { 1 };
                let dir = (start_dir + dir_offset) % 4;
                dir_offset += 1;
                let mut ok = false;
                let mut cand_x: i32 = 0;
                let mut cand_y: i32 = 0;
                let mut cand_dx: i32 = 0;
                let mut cand_dy: i32 = 0;
                if dir == 0 {
                    let door_x = rng.range(room.x + 1, room.x + room.w - 1);
                    let door_y = room.y - 1;
                    let secret_x = clamp_i32(door_x - secret_w / 2, 1, max_x);
                    let secret_y = door_y - secret_h;
                    if !(secret_y < 1 || door_x < secret_x || door_x >= secret_x + secret_w) {
                        ok = true;
                        cand_x = secret_x;
                        cand_y = secret_y;
                        cand_dx = door_x;
                        cand_dy = door_y;
                    }
                } else if dir == 1 {
                    let door_x = rng.range(room.x + 1, room.x + room.w - 1);
                    let door_y = room.y + room.h;
                    let secret_x = clamp_i32(door_x - secret_w / 2, 1, max_x);
                    let secret_y = door_y + 1;
                    if !(secret_y + secret_h >= self.height - 1 || door_x < secret_x || door_x >= secret_x
                        + secret_w) {
                        ok = true;
                        cand_x = secret_x;
                        cand_y = secret_y;
                        cand_dx = door_x;
                        cand_dy = door_y;
                    }
                } else if dir == 2 {
                    let door_x = room.x - 1;
                    let door_y = rng.range(room.y + 1, room.y + room.h - 1);
                    let secret_x = door_x - secret_w;
                    let secret_y = clamp_i32(door_y - secret_h / 2, 1, max_y);
                    if !(secret_x < 1 || door_y < secret_y || door_y >= secret_y + secret_h) {
                        ok = true;
                        cand_x = secret_x;
                        cand_y = secret_y;
                        cand_dx = door_x;
                        cand_dy = door_y;
                    }
                } else {
                    let door_x = room.x + room.w;
                    let door_y = rng.range(room.y + 1, room.y + room.h - 1);
                    let secret_x = door_x + 1;
                    let secret_y = clamp_i32(door_y - secret_h / 2, 1, max_y);
                    if !(secret_x + secret_w >= self.width - 1 || door_y < secret_y || door_y >= secret_y
                        + secret_h) {
                        ok = true;
                        cand_x = secret_x;
                        cand_y = secret_y;
                        cand_dx = door_x;
                        cand_dy = door_y;
                    }
                }
                if !ok {
                    continue;
                }
                let ghost pre = *self;
                if self.try_place_secret_room_candidate(cand_x, cand_y, secret_w, secret_h, cand_dx, cand_dy, rng) {
                    proof {
                        lemma_xy_to_index(old(self), self, set![Tile::Wall], secret_tiles());
                        self.lemma_chamber_from(&pre, old(self), cand_x as int, cand_y as int, secret_w as int, secret_h as int, cand_dx as int, cand_dy as int);
                        assert(beside_room(old(self).rooms@[room_idx as int], cand_dx as int, cand_dy as int));
                        assert(beside_middle_room(old(self), cand_dx as int, cand_dy as int));
                    }
                    return;
                }
            }
        }
        let sizes: [(i32, i32); 4] = [(4, 4), (5, 4), (4, 5), (5, 5)];
        let mut room_idx: usize = 1;
        while room_idx < n - 1
            invariant
                self.wf(),
                self.same_frame(old(self)),
                self.tiles@ == old(self).tiles@,
                n == self.rooms@.len(),
                4 <= n <= MAX_ROOMS,
                1 <= room_idx,
                sizes@ == seq![(4i32, 4i32), (5i32, 4i32), (4i32, 5i32), (5i32, 5i32)],
                room_idx <= n - 1,
                forall|i: int, w: int, h: int|
                    1 <= i < room_idx && 4 <= w <= 5 && 4 <= h <= 5 ==> !#[trigger] edge_site(old(self), old(self).rooms@[i], w, h),
            decreases n - room_idx,
        {
            let room = self.rooms[room_idx];
            assert(room_inside(self.rooms@[room_idx as int], self.width as int, self.height as int));
            room_idx += 1;
            let mut si: usize = 0;
            while si < 4
                invariant
                    self.wf(),
                    self.same_frame(old(self)),
                    self.tiles@ == old(self).tiles@,
                    n == self.rooms@.len(),
                    4 <= n <= MAX_ROOMS,
                    room_inside(room, self.width as int, self.height as int),
                    sizes@ == seq![(4i32, 4i32), (5i32, 4i32), (4i32, 5i32), (5i32, 5i32)],
                    2 <= room_idx <= n - 1,
                    room == old(self).rooms@[room_idx - 1],
                    si <= 4,
                    forall|i: int, w: int, h: int|
                        1 <= i < room_idx - 1 && 4 <= w <= 5 && 4 <= h <= 5 ==> !#[trigger] edge_site(old(self), old(self).rooms@[i], w, h),
                    forall|k: int| 0 <= k < si ==> !#[trigger] edge_site(old(self), room, sizes@[k].0 as int, sizes@[k].1 as int),
                decreases 4 - si,
            {
                let (secret_w, secret_h) = sizes[si];
                si += 1;
                let mut door_x = room.x + 1;
                while door_x < room.x + room.w - 1
                    invariant
                        self.wf(),
                        self.same_frame(old(self)),
                        self.tiles@ == old(self).tiles@,
                        n == self.rooms@.len(),
                        4 <= n <= MAX_ROOMS,
                        room_inside(room, self.width as int, self.height as int),
                        4 <= secret_w <= 5,
                        4 <= secret_h <= 5,
                        room.x + 1 <= door_x,
                        2 <= room_idx <= n - 1,
                        room == old(self).rooms@[room_idx - 1],
                        1 <= si <= 4,
                        sizes@ == seq![(4i32, 4i32), (5i32, 4i32), (4i32, 5i32), (5i32, 5i32)],
                        sizes@[si - 1] == (secret_w, secret_h),
                        forall|i: int, w: int, h: int|
                            1 <= i < room_idx - 1 && 4 <= w <= 5 && 4 <= h <= 5 ==> !#[trigger] edge_site(old(self), old(self).rooms@[i], w, h),
                        forall|k: int| 0 <= k < si - 1 ==> !#[trigger] edge_site(old(self), room, sizes@[k].0 as int, sizes@[k].1 as int),
                        forall|dx: int| room.x + 1 <= dx < door_x ==> !#[trigger] row_site(old(self), room, secret_w as int, secret_h as int, dx),
                    decreases room.x + room.w - door_x,
                {
                    proof {
                        lemma_same_tiles(self, old(self));
                    }
                    let secret_x = door_x - secret_w / 2;
                    let top_y = room.y - 1 - secret_h;
                    let ghost pre = *self;
                    if door_x >= secret_x && door_x < secret_x + secret_w && self.try_place_secret_room_candidate(
                        secret_x,
                        top_y,
                        secret_w,
                        secret_h,
                        door_x,
                        room.y - 1,
                        rng,
                    ) {
                        proof {
                            lemma_xy_to_index(old(self), self, set![Tile::Wall], secret_tiles());
                            self.lemma_chamber_from(&pre, old(self), (secret_x) as int, (top_y) as int, secret_w as int, secret_h as int, (door_x) as int, (room.y - 1) as int);
                            assert(beside_room(old(self).rooms@[room_idx - 1], (door_x) as int, (room.y - 1) as int));
                            assert(beside_middle_room(old(self), (door_x) as int, (room.y - 1) as int));
                        }
                        return;
                    }
                    let bottom_y = room.y + room.h + 1;
                    let ghost pre = *self;
                    if door_x >= secret_x && door_x < secret_x + secret_w && self.try_place_secret_room_candidate(
                        secret_x,
                        bottom_y,
                        secret_w,
                        secret_h,
                        door_x,
                        room.y + room.h,
                        rng,
                    ) {
                        proof {
                            lemma_xy_to_index(old(self), self, set![Tile::Wall], secret_tiles());
                            self.lemma_chamber_from(&pre, old(self), (secret_x) as int, (bottom_y) as int, secret_w as int, secret_h as int, (door_x) as int, (room.y + room.h) as int);
                            assert(beside_room(old(self).rooms@[room_idx - 1], (door_x) as int, (room.y + room.h) as int));
                            assert(beside_middle_room(old(self), (door_x) as int, (room.y + room.h) as int));
                        }
                        return;
                    }
                    door_x += 1;
                }
                let mut door_y = room.y + 1;
                while door_y < room.y + room.h - 1
                    invariant
                        self.wf(),
                        self.same_frame(old(self)),
                        self.tiles@ == old(self).tiles@,
                        n == self.rooms@.len(),
                        4 <= n <= MAX_ROOMS,
                        room_inside(room, self.width as int, self.height as int),
                        4 <= secret_w <= 5,
                        4 <= secret_h <= 5,
                        room.y + 1 <= door_y,
                        2 <= room_idx <= n - 1,
                        room == old(self).rooms@[room_idx - 1],
                        1 <= si <= 4,
                        sizes@ == seq![(4i32, 4i32), (5i32, 4i32), (4i32, 5i32), (5i32, 5i32)],
                        sizes@[si - 1] == (secret_w, secret_h),
                        forall|i: int, w: int, h: int|
                            1 <= i < room_idx - 1 && 4 <= w <= 5 && 4 <= h <= 5 ==> !#[trigger] edge_site(old(self), old(self).rooms@[i], w, h),
                        forall|k: int| 0 <= k < si - 1 ==> !#[trigger] edge_site(old(self), room, sizes@[k].0 as int, sizes@[k].1 as int),
                        forall|dx: int| room.x + 1 <= dx < room.x + room.w - 1 ==> !#[trigger] row_site(old(self), room, secret_w as int, secret_h as int, dx),
                        forall|dy: int| room.y + 1 <= dy < door_y ==> !#[trigger] column_site(old(self), room, secret_w as int, secret_h as int, dy),
                    decreases room.y + room.h - door_y,
                {
                    proof {
                        lemma_same_tiles(self, old(self));
                    }
                    let secret_y = door_y - secret_h / 2;
                    let left_x = room.x - 1 - secret_w;
                    let ghost pre = *self;
                    if door_y >= secret_y && door_y < secret_y + secret_h && self.try_place_secret_room_candidate(
                        left_x,
                        secret_y,
                        secret_w,
                        secret_h,
                        room.x - 1,
                        door_y,
                        rng,
                    ) {
                        proof {
                            lemma_xy_to_index(old(self), self, set![Tile::Wall], secret_tiles());
                            self.lemma_chamber_from(&pre, old(self), (left_x) as int, (secret_y) as int, secret_w as int, secret_h as int, (room.x - 1) as int, (door_y) as int);
                            assert(beside_room(old(self).rooms@[room_idx - 1], (room.x - 1) as int, (door_y) as int));
                            assert(beside_middle_room(old(self), (room.x - 1) as int, (door_y) as int));
                        }
                        return;
                    }
                    let right_x = room.x + room.w + 1;
                    let ghost pre = *self;
                    if door_y >= secret_y && door_y < secret_y + secret_h && self.try_place_secret_room_candidate(
                        right_x,
                        secret_y,
                        secret_w,
                        secret_h,
                        room.x + room.w,
                        door_y,
                        rng,
                    ) {
                        proof {
                            lemma_xy_to_index(old(self), self, set![Tile::Wall], secret_tiles());
                            self.lemma_chamber_from(&pre, old(self), (right_x) as int, (secret_y) as int, secret_w as int, secret_h as int, (room.x + room.w) as int, (door_y) as int);
                            assert(beside_room(old(self).rooms@[room_idx - 1], (room.x + room.w) as int, (door_y) as int));
                            assert(beside_middle_room(old(self), (room.x + room.w) as int, (door_y) as int));
                        }
                        return;
                    }
                    door_y += 1;
                }
                assert(!edge_site(old(self), room, secret_w as int, secret_h as int));
            }
            assert forall|w: int, h: int| 4 <= w <= 5 && 4 <= h <= 5 implies !#[trigger] edge_site(
                old(self),
                old(self).rooms@[room_idx - 1],
                w,
                h,
            ) by {
                if w == 4 && h == 4 {
                    assert(sizes@[0] == (4i32, 4i32));
                    assert(!edge_site(old(self), room, sizes@[0].0 as int, sizes@[0].1 as int));
                } else if w == 5 && h == 4 {
                    assert(sizes@[1] == (5i32, 4i32));
                    assert(!edge_site(old(self), room, sizes@[1].0 as int, sizes@[1].1 as int));
                } else if w == 4 && h == 5 {
                    assert(sizes@[2] == (4i32, 5i32));
                    assert(!edge_site(old(self), room, sizes@[2].0 as int, sizes@[2].1 as int));
                } else {
                    assert(sizes@[3] == (5i32, 5i32));
                    assert(!edge_site(old(self), room, sizes@[3].0 as int, sizes@[3].1 as int));
                }
            }
        }
        assert(!has_secret_site(old(self)));
    }
}


impl DungeonLevel {
    /// Every room keeps a one-tile margin inside the grid and is at least 4 by 4,
    /// as rooms carved by `generate` are.
    pub open spec fn furnishable(&self) -> bool {
        forall|i: int|
            0 <= i < self.rooms@.len() ==> {
                let r = #[trigger] self.rooms@[i];
                &&& 4 <= r.w
                &&& 4 <= r.h
                &&& 1 <= r.x
                &&& 1 <= r.y
                &&& r.x + r.w < self.width
                &&& r.y + r.h < self.height
            }
    }

    /// Place a companion NPC in a random middle room (~40% chance per floor).
    fn place_npcs(&mut self, rng: &mut Rng)
        requires
            old(self).wf(),
            old(self).furnishable(),
        ensures
            final(self).wf(),
            final(self).same_frame(old(self)),
            changed_only(
                old(self).tiles@,
                final(self).tiles@,
                set![Tile::Floor],
                set![Tile::Npc(0), Tile::Npc(1), Tile::Npc(2), Tile::Npc(3)],
            ),
    {
        let n = self.rooms.len();
        if n <= 3 {
            return;
        }
        if rng.next_u64() % 100 >= 40 {
            return;
        }
        let room_idx = 1 + (rng.next_u64() as usize % (n - 3));
        let room = self.rooms[room_idx];
        assert(room_inside(self.rooms@[room_idx as int], self.width as int, self.height as int));
        let npc_type = (rng.next_u64() % 4) as u8;
        let cx = room.x + room.w / 2;
        let cy = room.y + room.h / 2 + 1;
        let _ = self.put_on_floor(cx, cy, Tile::Npc(npc_type));
        proof {
            assert(set![Tile::Npc(npc_type)].subset_of(set![Tile::Npc(0), Tile::Npc(1), Tile::Npc(2), Tile::Npc(3)]));
        }
    }

    /// Place a tone shrine in a random middle room (~30% chance).
    fn place_shrines(&mut self, rng: &mut Rng)
        requires
            old(self).wf(),
            old(self).furnishable(),
        ensures
            final(self).wf(),
            final(self).same_frame(old(self)),
            changed_only(old(self).tiles@, final(self).tiles@, set![Tile::Floor], set![Tile::Shrine]),
    {
        let n = self.rooms.len();
        if n <= 3 {
            return;
        }
        if rng.next_u64() % 100 >= 30 {
            return;
        }
        let room_idx = 1 + (rng.next_u64() as usize % (n - 2));
        let room = self.rooms[room_idx];
        assert(room_inside(self.rooms@[room_idx as int], self.width as int, self.height as int));
        let cx = room.x + room.w / 2 - 1;
        let cy = room.y + room.h / 2;
        let _ = self.put_on_floor(cx, cy, Tile::Shrine);
    }

    /// Place a stroke-order shrine in a random middle room (~20% chance).
    fn place_stroke_shrines(&mut self, rng: &mut Rng)
        requires
            old(self).wf(),
            old(self).furnishable(),
        ensures
            final(self).wf(),
            final(self).same_frame(old(self)),
            changed_only(old(self).tiles@, final(self).tiles@, set![Tile::Floor], set![Tile::StrokeShrine]),
    {
        let n = self.rooms.len();
        if n <= 3 {
            return;
        }
        if rng.next_u64() % 100 >= 20 {
            return;
        }
        let room_idx = 1 + (rng.next_u64() as usize % (n - 2));
        let room = self.rooms[room_idx];
        assert(room_inside(self.rooms@[room_idx as int], self.width as int, self.height as int));
        let cx = room.x + room.w / 2 + 1;
        let cy = room.y + room.h / 2;
        let _ = self.put_on_floor(cx, cy, Tile::StrokeShrine);
    }

    /// Place a tone wall in a random middle room (~20% chance).
    fn place_tone_walls(&mut self, rng: &mut Rng)
        requires
            old(self).wf(),
            old(self).furnishable(),
        ensures
            final(self).wf(),
            final(self).same_frame(old(self)),
            changed_only(old(self).tiles@, final(self).tiles@, set![Tile::Floor], set![Tile::ToneWall]),
    {
        let n = self.rooms.len();
        if n <= 3 {
            return;
        }
        if rng.next_u64() % 100 >= 20 {
            return;
        }
        let room_idx = 1 + (rng.next_u64() as usize % (n - 2));
        let room = self.rooms[room_idx];
        assert(room_inside(self.rooms@[room_idx as int], self.width as int, self.height as int));
        let cx = room.x + room.w / 2;
        let cy = room.y + room.h / 2 + 1;
        let _ = self.put_on_floor(cx, cy, Tile::ToneWall);
    }

    /// Place a compound-word shrine in a random middle room (~20% chance).
    fn place_compound_shrines(&mut self, rng: &mut Rng)
        requires
            old(self).wf(),
            old(self).furnishable(),
        ensures
            final(self).wf(),
            final(self).same_frame(old(self)),
            changed_only(old(self).tiles@, final(self).tiles@, set![Tile::Floor], set![Tile::CompoundShrine]),
    {
        let n = self.rooms.len();
        if n <= 3 {
            return;
        }
        if rng.next_u64() % 100 >= 20 {
            return;
        }
        let room_idx = 1 + (rng.next_u64() as usize % (n - 2));
        let room = self.rooms[room_idx];
        assert(room_inside(self.rooms@[room_idx as int], self.width as int, self.height as int));
        let cx = room.x + room.w / 2 - 1;
        let cy = room.y + room.h / 2 + 1;
        let _ = self.put_on_floor(cx, cy, Tile::CompoundShrine);
    }

    /// Place a classifier shrine in a random middle room (~20% chance).
    fn place_classifier_shrines(&mut self, rng: &mut Rng)
        requires
            old(self).wf(),
            old(self).furnishable(),
        ensures
            final(self).wf(),
            final(self).same_frame(old(self)),
            changed_only(old(self).tiles@, final(self).tiles@, set![Tile::Floor], set![Tile::ClassifierShrine]),
    {
        let n = self.rooms.len();
        if n <= 3 {
            return;
        }
        if rng.next_u64() % 100 >= 20 {
            return;
        }
        let room_idx = 1 + (rng.next_u64() as usize % (n - 2));
        let room = self.rooms[room_idx];
        assert(room_inside(self.rooms@[room_idx as int], self.width as int, self.height as int));
        let cx = room.x + room.w / 2 + 1;
        let cy = room.y + room.h / 2 + 1;
        let _ = self.put_on_floor(cx, cy, Tile::ClassifierShrine);
    }

    /// Place an ink well in a random middle room (~18% chance).
    fn place_ink_wells(&mut self, rng: &mut Rng)
        requires
            old(self).wf(),
            old(self).furnishable(),
        ensures
            final(self).wf(),
            final(self).same_frame(old(self)),
            changed_only(old(self).tiles@, final(self).tiles@, set![Tile::Floor], set![Tile::InkWell]),
    {
        let n = self.rooms.len();
        if n <= 3 {
            return;
        }
        if rng.next_u64() % 100 >= 18 {
            return;
        }
        let room_idx = 1 + (rng.next_u64() as usize % (n - 2));
        let room = self.rooms[room_idx];
        assert(room_inside(self.rooms@[room_idx as int], self.width as int, self.height as int));
        let cx = room.x + room.w / 2 - 1;
        let cy = room.y + room.h / 2 - 1;
        let _ = self.put_on_floor(cx, cy, Tile::InkWell);
    }

    /// Place an ancestor shrine in a random middle room (~18% chance).
    fn place_ancestor_shrines(&mut self, rng: &mut Rng)
        requires
            old(self).wf(),
            old(self).furnishable(),
        ensures
            final(self).wf(),
            final(self).same_frame(old(self)),
            changed_only(old(self).tiles@, final(self).tiles@, set![Tile::Floor], set![Tile::AncestorShrine]),
    {
        let n = self.rooms.len();
        if n <= 3 {
            return;
        }
        if rng.next_u64() % 100 >= 18 {
            return;
        }
        let room_idx = 1 + (rng.next_u64() as usize % (n - 2));
        let room = self.rooms[room_idx];
        assert(room_inside(self.rooms@[room_idx as int], self.width as int, self.height as int));
        let cx = room.x + room.w / 2 + 1;
        let cy = room.y + room.h / 2 - 1;
        let _ = self.put_on_floor(cx, cy, Tile::AncestorShrine);
    }

    /// Place a translation altar in a random middle room (~18% chance).
    fn place_translation_altars(&mut self, rng: &mut Rng)
        requires
            old(self).wf(),
            old(self).furnishable(),
        ensures
            final(self).wf(),
            final(self).same_frame(old(self)),
            changed_only(old(self).tiles@, final(self).tiles@, set![Tile::Floor], set![Tile::TranslationAltar]),
    {
        let n = self.rooms.len();
        if n <= 3 {
            return;
        }
        if rng.next_u64() % 100 >= 18 {
            return;
        }
        let room_idx = 1 + (rng.next_u64() as usize % (n - 2));
        let room = self.rooms[room_idx];
        assert(room_inside(self.rooms@[room_idx as int], self.width as int, self.height as int));
        let cx = room.x + room.w / 2;
        let cy = room.y + room.h / 2 - 1;
        let _ = self.put_on_floor(cx, cy, Tile::TranslationAltar);
    }

    /// Place a radical garden in a random middle room (~18% chance).
    fn place_radical_gardens(&mut self, rng: &mut Rng)
        requires
            old(self).wf(),
            old(self).furnishable(),
        ensures
            final(self).wf(),
            final(self).same_frame(old(self)),
            changed_only(old(self).tiles@, final(self).tiles@, set![Tile::Floor], set![Tile::RadicalGarden]),
    {
        let n = self.rooms.len();
        if n <= 3 {
            return;
        }
        if rng.next_u64() % 100 >= 18 {
            return;
        }
        let room_idx = 1 + (rng.next_u64() as usize % (n - 2));
        let room = self.rooms[room_idx];
        assert(room_inside(self.rooms@[room_idx as int], self.width as int, self.height as int));
        let cx = room.x + room.w / 2 - 2;
        let cy = room.y + room.h / 2;
        let _ = self.put_on_floor(cx, cy, Tile::RadicalGarden);
    }

    /// Place a mirror pool in a random middle room (~15% chance).
    fn place_mirror_pools(&mut self, rng: &mut Rng)
        requires
            old(self).wf(),
            old(self).furnishable(),
        ensures
            final(self).wf(),
            final(self).same_frame(old(self)),
            changed_only(old(self).tiles@, final(self).tiles@, set![Tile::Floor], set![Tile::MirrorPool]),
    {
        let n = self.rooms.len();
        if n <= 3 {
            return;
        }
        if rng.next_u64() % 100 >= 15 {
            return;
        }
        let room_idx = 1 + (rng.next_u64() as usize % (n - 2));
        let room = self.rooms[room_idx];
        assert(room_inside(self.rooms@[room_idx as int], self.width as int, self.height as int));
        let cx = room.x + room.w / 2 + 2;
        let cy = room.y + room.h / 2;
        let _ = self.put_on_floor(cx, cy, Tile::MirrorPool);
    }

    /// Place a stone tutor in a random middle room (~18% chance).
    fn place_stone_tutors(&mut self, rng: &mut Rng)
        requires
            old(self).wf(),
            old(self).furnishable(),
        ensures
            final(self).wf(),
            final(self).same_frame(old(self)),
            changed_only(old(self).tiles@, final(self).tiles@, set![Tile::Floor], set![Tile::StoneTutor]),
    {
        let n = self.rooms.len();
        if n <= 3 {
            return;
        }
        if rng.next_u64() % 100 >= 18 {
            return;
        }
        let room_idx = 1 + (rng.next_u64() as usize % (n - 2));
        let room = self.rooms[room_idx];
        assert(room_inside(self.rooms@[room_idx as int], self.width as int, self.height as int));
        let cx = room.x + room.w / 2;
        let cy = room.y + room.h / 2 + 2;
        let _ = self.put_on_floor(cx, cy, Tile::StoneTutor);
    }

    /// Place a codex shrine in a random middle room (~15% chance).
    fn place_codex_shrines(&mut self, rng: &mut Rng)
        requires
            old(self).wf(),
            old(self).furnishable(),
        ensures
            final(self).wf(),
            final(self).same_frame(old(self)),
            changed_only(old(self).tiles@, final(self).tiles@, set![Tile::Floor], set![Tile::CodexShrine]),
    {
        let n = self.rooms.len();
        if n <= 3 {
            return;
        }
        if rng.next_u64() % 100 >= 15 {
            return;
        }
        let room_idx = 1 + (rng.next_u64() as usize % (n - 2));
        let room = self.rooms[room_idx];
        assert(room_inside(self.rooms@[room_idx as int], self.width as int, self.height as int));
        let cx = room.x + room.w / 2 - 1;
        let cy = room.y + room.h / 2 + 1;
        let _ = self.put_on_floor(cx, cy, Tile::CodexShrine);
    }
}


/// Altar tiles of every kind.
pub open spec fn altar_tiles() -> Set<Tile> {
    set![
        Tile::Altar(AltarKind::Jade),
        Tile::Altar(AltarKind::Gale),
        Tile::Altar(AltarKind::Mirror),
        Tile::Altar(AltarKind::Iron),
        Tile::Altar(AltarKind::Gold),
    ]
}

/// An altar can stand in `r`: no feature stands in it and its centre is floor.
pub open spec fn altar_site(lvl: &DungeonLevel, r: Room) -> bool {
    !lvl.room_has_feature_spec(r, true) && lvl.tile_spec(r.center_spec().0, r.center_spec().1) == Tile::Floor
}

/// Seal tiles of every kind.
pub open spec fn seal_tiles() -> Set<Tile> {
    set![
        Tile::Seal(SealKind::Ember),
        Tile::Seal(SealKind::Tide),
        Tile::Seal(SealKind::Thorn),
        Tile::Seal(SealKind::Echo),
    ]
}

impl DungeonLevel {
    /// Gives roughly 30% of the middle rooms an environment modifier.
    fn assign_room_modifiers(&mut self, rng: &mut Rng)
        requires
            old(self).wf(),
        ensures
            final(self).wf(),
            final(self).width == old(self).width,
            final(self).height == old(self).height,
            final(self).tiles@ == old(self).tiles@,
            final(self).visible@ == old(self).visible@,
            final(self).revealed@ == old(self).revealed@,
            final(self).rooms@.len() == old(self).rooms@.len(),
            forall|i: int|
                0 <= i < old(self).rooms@.len() ==> {
                    let a = #[trigger] final(self).rooms@[i];
                    let b = old(self).rooms@[i];
                    &&& a.x == b.x && a.y == b.y && a.w == b.w && a.h == b.h && a.special == b.special
                    &&& (i == 0 || i == old(self).rooms@.len() - 1) ==> a == b
                },
    {
        let n = self.rooms.len();
        if n <= 2 {
            return;
        }
        let mut i: usize = 1;
        while i < n - 1
            invariant
                1 <= i <= n - 1,
                n == old(self).rooms@.len(),
                self.wf(),
                self.width == old(self).width,
                self.height == old(self).height,
                self.tiles@ == old(self).tiles@,
                self.visible@ == old(self).visible@,
                self.revealed@ == old(self).revealed@,
                self.rooms@.len() == n,
                forall|j: int|
                    0 <= j < n ==> {
                        let a = #[trigger] self.rooms@[j];
                        let b = old(self).rooms@[j];
                        &&& a.x == b.x && a.y == b.y && a.w == b.w && a.h == b.h && a.special == b.special
                        &&& (j == 0 || j >= i) ==> a == b
                    },
            decreases n - 1 - i,
        {
            if rng.next_u64() % 100 < 30 {
                let m = match rng.next_u64() % 6 {
                    0 => RoomModifier::Dark,
                    1 => RoomModifier::Arcane,
                    2 => RoomModifier::Cursed,
                    3 => RoomModifier::Garden,
                    4 => RoomModifier::Frozen,
                    _ => RoomModifier::Infernal,
                };
                let mut r = self.rooms[i];
                r.modifier = Some(m);
                self.rooms.set(i, r);
            }
            i += 1;
        }
    }

    /// Turns some floor beside deep water into word bridges.
    fn place_word_bridges(&mut self, rng: &mut Rng)
        requires
            old(self).wf(),
        ensures
            final(self).wf(),
            final(self).same_frame(old(self)),
            changed_only(old(self).tiles@, final(self).tiles@, set![Tile::Floor], set![Tile::WordBridge]),
    {
        let ghost start = *self;
        let len = self.tiles.len();
        let w = self.width as usize;
        let dirs: [(i32, i32); 4] = [(0, -1), (0, 1), (-1, 0), (1, 0)];
        let mut i: usize = 0;
        while i < len
            invariant
                self.wf(),
                self.same_frame(&start),
                start == *old(self),
                start.wf(),
                len == self.tiles@.len(),
                w as int == self.width,
                dirs@ == seq![(0i32, -1i32), (0i32, 1i32), (-1i32, 0i32), (1i32, 0i32)],
                changed_only(start.tiles@, self.tiles@, set![Tile::Floor], set![Tile::WordBridge]),
            decreases len - i,
        {
            if self.tiles[i] == Tile::DeepWater {
                proof {
                    lemma_index_coords(i as int, self.width as int, self.height as int);
                }
                let x = (i % w) as i32;
                let y = (i / w) as i32;
                let mut k: usize = 0;
                while k < 4
                    invariant
                        self.wf(),
                        self.same_frame(&start),
                        start == *old(self),
                        start.wf(),
                        len == self.tiles@.len(),
                        0 <= x < self.width,
                        0 <= y < self.height,
                        dirs@ == seq![(0i32, -1i32), (0i32, 1i32), (-1i32, 0i32), (1i32, 0i32)],
                        changed_only(start.tiles@, self.tiles@, set![Tile::Floor], set![Tile::WordBridge]),
                    decreases 4 - k,
                {
                    let (dx, dy) = dirs[k];
                    k += 1;
                    let nx = x + dx;
                    let ny = y + dy;
                    if self.in_bounds(nx, ny) {
                        proof {
                            lemma_at(self, nx as int, ny as int);
                        }
                        let ni = self.idx(nx, ny);
                        if self.tiles[ni] == Tile::Floor && rng.next_u64() % 100 < 8 {
                            let ghost before = self.tiles@;
                            self.tiles.set(ni, Tile::WordBridge);
                            proof {
                                assert(changed_only(before, self.tiles@, set![Tile::Floor], set![Tile::WordBridge]));
                                lemma_changed_chain(
                                    start.tiles@,
                                    before,
                                    self.tiles@,
                                    set![Tile::Floor],
                                    set![Tile::WordBridge],
                                );
                            }
                            break;
                        }
                    }
                }
            }
            i += 1;
        }
    }

    /// Bars one doorway of a later room with a locked door (~12% chance).
    fn place_locked_doors(&mut self, rng: &mut Rng)
        requires
            old(self).wf(),
        ensures
            final(self).wf(),
            final(self).same_frame(old(self)),
            changed_only(
                old(self).tiles@,
                final(self).tiles@,
                set![Tile::Floor, Tile::Corridor],
                set![Tile::LockedDoor],
            ),
    {
        let n = self.rooms.len();
        if n <= 4 {
            return;
        }
        if rng.next_u64() % 100 >= 12 {
            return;
        }
        let room_idx = 2 + (rng.next_u64() as usize % (n - 3));
        let room = self.rooms[room_idx];
        assert(room_inside(self.rooms@[room_idx as int], self.width as int, self.height as int));
        let doorways: [(i32, i32); 4] = [
            (room.x + room.w / 2, room.y),
            (room.x + room.w / 2, room.y + room.h - 1),
            (room.x, room.y + room.h / 2),
            (room.x + room.w - 1, room.y + room.h / 2),
        ];
        let mut k: usize = 0;
        while k < 4
            invariant
                self.wf(),
                self.same_frame(old(self)),
                self.tiles@ == old(self).tiles@,
                doorways@.len() == 4,
            decreases 4 - k,
        {
            let (dx, dy) = doorways[k];
            k += 1;
            if self.in_bounds(dx, dy) {
                proof {
                    lemma_at(self, dx as int, dy as int);
                }
                let di = self.idx(dx, dy);
                if self.tiles[di] == Tile::Floor || self.tiles[di] == Tile::Corridor {
                    self.tiles.set(di, Tile::LockedDoor);
                    return;
                }
            }
        }
    }

    /// Hides one to three cursed floor tiles in middle rooms.
    fn place_cursed_floors(&mut self, rng: &mut Rng)
        requires
            old(self).wf(),
        ensures
            final(self).wf(),
            final(self).same_frame(old(self)),
            changed_only(old(self).tiles@, final(self).tiles@, set![Tile::Floor], set![Tile::CursedFloor]),
    {
        let ghost start = *self;
        let n = self.rooms.len();
        if n <= 3 {
            return;
        }
        let count = 1 + (rng.next_u64() as usize % 3);
        let mut k: usize = 0;
        while k < count
            invariant
                self.wf(),
                self.same_frame(&start),
                start == *old(self),
                start.wf(),
                n == self.rooms@.len(),
                4 <= n <= MAX_ROOMS,
                changed_only(start.tiles@, self.tiles@, set![Tile::Floor], set![Tile::CursedFloor]),
            decreases count - k,
        {
            k += 1;
            let room_idx = 1 + (rng.next_u64() as usize % (n - 2));
            let room = self.rooms[room_idx];
            assert(room_inside(self.rooms@[room_idx as int], self.width as int, self.height as int));
            let mw = if room.w - 2 > 1 { room.w - 2 } else { 1 };
            let mh = if room.h - 2 > 1 { room.h - 2 } else { 1 };
            let raw_x = #[verifier::truncate] (rng.next_u64() as i32);
            let rx = room.x + 1 + raw_x % mw;
            let raw_y = #[verifier::truncate] (rng.next_u64() as i32);
            let ry = room.y + 1 + raw_y % mh;
            let ghost before = self.tiles@;
            let _ = self.put_on_floor(rx, ry, Tile::CursedFloor);
            proof {
                lemma_changed_chain(start.tiles@, before, self.tiles@, set![Tile::Floor], set![Tile::CursedFloor]);
            }
        }
    }

    /// Place a blessing altar in a quiet side room (~35% chance).
    pub fn place_altars(&mut self, rng: &mut Rng)
        requires
            old(self).wf(),
        ensures
            final(self).wf(),
            final(self).same_frame(old(self)),
            changed_only(old(self).tiles@, final(self).tiles@, set![Tile::Floor], altar_tiles()),
            old(self).rooms@.len() <= 3 || xorshift(old(rng)@) % 100 >= 35 ==> final(self).tiles@ == old(self).tiles@,
            final(self).tiles@ == old(self).tiles@ || exists|i: int, t: Tile|
                #![trigger old(self).rooms@[i], altar_tiles().contains(t)]
                1 <= i < old(self).rooms@.len() - 1 && altar_tiles().contains(t) && altar_site(old(self), old(self).rooms@[i])
                    && final(self).tiles@ == old(self).tiles@.update(
                    old(self).at(old(self).rooms@[i].center_spec().0, old(self).rooms@[i].center_spec().1),
                    t,
                ),
            old(self).rooms@.len() > 3 && xorshift(old(rng)@) % 100 < 35 ==> ({
                let r = old(self).rooms@[1 + ((xorshift(xorshift(old(rng)@)) as usize) % ((old(self).rooms@.len() - 2) as usize))];
                altar_site(old(self), r) ==> altar_tiles().contains(final(self).tile_spec(r.center_spec().0, r.center_spec().1))
            }),
    {
        let n = self.rooms.len();
        if n <= 3 {
            return;
        }
        let ghost rng0 = *rng;
        if rng.next_u64() % 100 >= 35 {
            return;
        }
        let ghost rng1 = *rng;
        let mut k: usize = 0;
        while k < 12
            invariant
                self.wf(),
                self.same_frame(old(self)),
                self.tiles@ == old(self).tiles@,
                n == self.rooms@.len(),
                4 <= n <= MAX_ROOMS,
                rng0 == *old(rng),
                rng1@ == xorshift(rng0@),
                xorshift(rng0@) % 100 < 35,
                k == 0 ==> rng@ == rng1@,
                k > 0 ==> !altar_site(old(self), old(self).rooms@[1 + ((xorshift(rng1@) as usize) % ((n - 2) as usize))]),
            decreases 12 - k,
        {
            proof {
                lemma_same_tiles(self, old(self));
                lemma_same_tiles(old(self), self);
            }
            let room_idx = 1 + (rng.next_u64() as usize % (n - 2));
            let room = self.rooms[room_idx];
            assert(room_inside(self.rooms@[room_idx as int], self.width as int, self.height as int));
            assert(room == old(self).rooms@[room_idx as int]);
            k += 1;
            if self.room_has_feature(&room, true) {
                continue;
            }
            let (ax, ay) = room.center();
            if !self.in_bounds(ax, ay) {
                continue;
            }
            if self.tile(ax, ay) == Tile::Floor {
                let kind = AltarKind::random(rng);
                proof {
                    lemma_at(self, ax as int, ay as int);
                }
                let ghost before = *self;
                self.put(ax, ay, Tile::Altar(kind));
                proof {
                    self.lemma_put_read(&before, ax as int, ay as int, Tile::Altar(kind));
                    assert(altar_tiles().contains(Tile::Altar(kind)));
                    assert(altar_site(old(self), old(self).rooms@[room_idx as int]));
                }
                return;
            }
        }
    }

    /// Place 1-2 script seals that reshape rooms when stepped on.
    pub fn place_seals(&mut self, rng: &mut Rng)
        requires
            old(self).wf(),
        ensures
            final(self).wf(),
            final(self).same_frame(old(self)),
            changed_only(old(self).tiles@, final(self).tiles@, set![Tile::Floor], seal_tiles()),
    {
        let ghost start = *self;
        let n = self.rooms.len();
        if n <= 3 {
            return;
        }
        let seal_count = 1 + (rng.next_u64() % 2) as usize;
        let mut used_rooms: Vec<usize> = Vec::new();
        let mut placed: usize = 0;
        let mut k: usize = 0;
        while k < 20
            invariant
                self.wf(),
                self.same_frame(&start),
                start == *old(self),
                start.wf(),
                n == self.rooms@.len(),
                4 <= n <= MAX_ROOMS,
                placed <= k,
                changed_only(start.tiles@, self.tiles@, set![Tile::Floor], seal_tiles()),
            decreases 20 - k,
        {
            k += 1;
            if placed >= seal_count {
                break;
            }
            let room_idx = 1 + (rng.next_u64() as usize % (n - 2));
            if contains_usize(&used_rooms, room_idx) {
                continue;
            }
            let room = self.rooms[room_idx];
            assert(room_inside(self.rooms@[room_idx as int], self.width as int, self.height as int));
            if self.room_has_feature(&room, true) {
                continue;
            }
            let (sx, sy) = room.center();
            if !self.in_bounds(sx, sy) {
                continue;
            }
            if self.tile(sx, sy) != Tile::Floor {
                continue;
            }
            let kind = SealKind::random(rng);
            proof {
                lemma_at(self, sx as int, sy as int);
            }
            let ghost before = self.tiles@;
            self.put(sx, sy, Tile::Seal(kind));
            proof {
                assert(changed_only(before, self.tiles@, set![Tile::Floor], seal_tiles()));
                lemma_changed_chain(start.tiles@, before, self.tiles@, set![Tile::Floor], seal_tiles());
            }
            used_rooms.push(room_idx);
            placed += 1;
        }
    }
}


/// The three rooms of the scripted tutorial floor.
pub open spec fn tutorial_rooms() -> Seq<Room> {
    seq![
        Room { x: 4, y: 18, w: 9, h: 9, modifier: None, special: None },
        Room { x: 16, y: 18, w: 9, h: 9, modifier: None, special: None },
        Room { x: 29, y: 18, w: 13, h: 9, modifier: None, special: None },
    ]
}

/// The tile the tutorial floor holds at `(x, y)`.
pub open spec fn tutorial_tile(x: int, y: int) -> Tile {
    if x == 8 && y == 20 {
        Tile::Sign(0)
    } else if x == 13 && y == 22 {
        Tile::Sign(1)
    } else if x == 30 && y == 20 {
        Tile::Sign(2)
    } else if x == 38 && y == 20 {
        Tile::Sign(3)
    } else if x == 32 && y == 22 {
        Tile::Forge
    } else if x == 39 && y == 22 {
        Tile::StairsDown
    } else if 18 <= y < 27 && ((4 <= x < 13) || (16 <= x < 25) || (29 <= x < 42)) {
        Tile::Floor
    } else if y == 22 && ((13 <= x <= 15) || (25 <= x <= 28)) {
        Tile::Corridor
    } else {
        Tile::Wall
    }
}

impl DungeonLevel {
    /// Lays a horizontal corridor over the wall tiles of row `y` between `x1` and `x2`.
    fn carve_corridor_row(&mut self, x1: i32, x2: i32, y: i32)
        requires
            old(self).wf(),
            0 <= x1 <= x2 < old(self).width,
            0 <= y < old(self).height,
        ensures
            final(self).wf(),
            final(self).same_frame(old(self)),
            forall|px: int, py: int|
                #[trigger] final(self).tile_spec(px, py) == if py == y && x1 <= px <= x2 && old(self).tile_spec(
                    px,
                    py,
                ) == Tile::Wall {
                    Tile::Corridor
                } else {
                    old(self).tile_spec(px, py)
                },
    {
        let ghost start = *self;
        let mut x = x1;
        while x <= x2
            invariant
                self.wf(),
                start.wf(),
                self.same_frame(&start),
                start == *old(self),
                0 <= x1 <= x <= x2 + 1,
                x2 < self.width,
                0 <= y < self.height,
                forall|px: int, py: int|
                    #[trigger] self.tile_spec(px, py) == if py == y && x1 <= px < x && start.tile_spec(px, py)
                        == Tile::Wall {
                        Tile::Corridor
                    } else {
                        start.tile_spec(px, py)
                    },
            decreases x2 + 1 - x,
        {
            if self.tile(x, y) == Tile::Wall {
                let ghost before = *self;
                self.put(x, y, Tile::Corridor);
                proof {
                    self.lemma_put_read(&before, x as int, y as int, Tile::Corridor);
                }
            }
            x += 1;
        }
    }

    /// Writes a tile at a position and states the read-back.
    fn put_xy(&mut self, x: i32, y: i32, t: Tile)
        requires
            old(self).wf(),
            old(self).in_bounds_spec(x as int, y as int),
        ensures
            final(self).wf(),
            final(self).same_frame(old(self)),
            forall|px: int, py: int|
                #[trigger] final(self).tile_spec(px, py) == if px == x && py == y {
                    t
                } else {
                    old(self).tile_spec(px, py)
                },
    {
        let ghost before = *self;
        self.put(x, y, t);
        proof {
            self.lemma_put_read(&before, x as int, y as int, t);
        }
    }

    /// Scripted tutorial floor used on the first run.
    pub fn tutorial(width: i32, height: i32) -> (level: Self)
        requires
            44 <= width <= MAX_SIDE,
            30 <= height <= MAX_SIDE,
        ensures
            level.wf(),
            level.width == width,
            level.height == height,
            level.rooms@ == tutorial_rooms(),
            forall|x: int, y: int|
                level.in_bounds_spec(x, y) ==> #[trigger] level.tile_spec(x, y) == tutorial_tile(x, y),
            forall|i: int| 0 <= i < level.visible@.len() ==> !(#[trigger] level.visible@[i]),
            forall|i: int| 0 <= i < level.revealed@.len() ==> !(#[trigger] level.revealed@[i]),
    {
        proof {
            lemma_grid_size(width as int, height as int);
        }
        let size = (width * height) as usize;
        let mut level = DungeonLevel {
            width,
            height,
            tiles: vec![Tile::Wall; size],
            rooms: vec![
                Room { x: 4, y: 18, w: 9, h: 9, modifier: None, special: None },
                Room { x: 16, y: 18, w: 9, h: 9, modifier: None, special: None },
                Room { x: 29, y: 18, w: 13, h: 9, modifier: None, special: None },
            ],
            visible: vec![false; size],
            revealed: vec![false; size],
        };
        assert(level.rooms@ =~= tutorial_rooms());
        assert(level.wf());
        assert forall|x: int, y: int| level.in_bounds_spec(x, y) implies #[trigger] level.tile_spec(x, y) == Tile::Wall by {
            lemma_at(&level, x, y);
        }
        level.carve_rect(4, 18, 9, 9, Tile::Floor);
        level.carve_rect(16, 18, 9, 9, Tile::Floor);
        level.carve_rect(29, 18, 13, 9, Tile::Floor);
        level.carve_corridor_row(13, 15, 22);
        level.carve_corridor_row(25, 28, 22);
        level.put_xy(8, 20, Tile::Sign(0));
        level.put_xy(13, 22, Tile::Sign(1));
        level.put_xy(30, 20, Tile::Sign(2));
        level.put_xy(38, 20, Tile::Sign(3));
        level.put_xy(32, 22, Tile::Forge);
        level.put_xy(39, 22, Tile::StairsDown);
        level
    }
}


fn abs_i32(v: i32) -> (r: i32)
    requires
        v > i32::MIN,
    ensures
        r == if v < 0 { -v } else { v as int },
{
    if v < 0 {
        -v
    } else {
        v
    }
}

fn max_i32(a: i32, b: i32) -> (r: i32)
    ensures
        r == if a >= b { a } else { b },
{
    if a >= b {
        a
    } else {
        b
    }
}

/// Whether `(x, y)` lies within four tiles of `room`.
pub open spec fn near_room(room: Room, x: int, y: int) -> bool {
    room.x - 4 <= x < room.x + room.w + 4 && room.y - 4 <= y < room.y + room.h + 4
}

/// Every tile away from `room` is as it was.
pub open spec fn confined(a: &DungeonLevel, b: &DungeonLevel, room: Room) -> bool {
    forall|x: int, y: int| !near_room(room, x, y) ==> #[trigger] b.tile_spec(x, y) == a.tile_spec(x, y)
}

impl DungeonLevel {
    /// Writes a tile near `room`, keeping the rest of the grid as it was.
    fn put_near(&mut self, x: i32, y: i32, t: Tile, Ghost(room): Ghost<Room>)
        requires
            old(self).wf(),
            old(self).in_bounds_spec(x as int, y as int),
            near_room(room, x as int, y as int),
        ensures
            final(self).wf(),
            final(self).same_frame(old(self)),
            final(self).tiles@ == old(self).tiles@.update(old(self).at(x as int, y as int), t),
            confined(old(self), final(self), room),
    {
        let ghost before = *self;
        self.put(x, y, t);
        proof {
            self.lemma_put_read(&before, x as int, y as int, t);
        }
    }
}

/// A form shrine's tile at `(x, y)`, given the tile `old` there: around the
/// centre `(cx, cy)`, a shrine at the centre, lava two west, a boulder two
/// east, water two north and a pressure plate two south, each written only
/// onto floor.
pub open spec fn form_shrine_tile(old: Tile, cx: int, cy: int, x: int, y: int) -> Tile {
    let mark = if x == cx && y == cy {
        Some(Tile::Shrine)
    } else if x == cx - 2 && y == cy {
        Some(Tile::Lava)
    } else if x == cx + 2 && y == cy {
        Some(Tile::Boulder)
    } else if x == cx && y == cy - 2 {
        Some(Tile::Water)
    } else if x == cx && y == cy + 2 {
        Some(Tile::PressurePlate)
    } else {
        None
    };
    match mark {
        Some(t) => if old == Tile::Floor { t } else { old },
        None => old,
    }
}

/// A class trial's tile at `(x, y)`, given the tile `old` there: pressure
/// plates two columns left and right of the centre `(cx, cy)`, one row above
/// and below it, and an iron altar at the centre, each written only onto
/// floor.
pub open spec fn class_trial_tile(old: Tile, cx: int, cy: int, x: int, y: int) -> Tile {
    let mark = if x == cx && y == cy {
        Some(Tile::Altar(AltarKind::Iron))
    } else if (x == cx - 2 || x == cx + 2) && (y == cy - 1 || y == cy + 1) {
        Some(Tile::PressurePlate)
    } else {
        None
    };
    match mark {
        Some(t) => if old == Tile::Floor { t } else { old },
        None => old,
    }
}

/// A prophecy room's tile at `(x, y)`, given the tile `old` there: murals
/// (bookshelves) along the rows just inside the top and bottom of `r`, then a
/// mirror pool at the centre `(cx, cy)`, each written only onto floor.
pub open spec fn prophecy_tile(old: Tile, r: Room, cx: int, cy: int, x: int, y: int) -> Tile {
    if (y == r.y + 1 || y == r.y + r.h - 2) && r.x + 1 <= x < r.x + r.w - 1 && old == Tile::Floor {
        Tile::Bookshelf
    } else if x == cx && y == cy && old == Tile::Floor {
        Tile::MirrorPool
    } else {
        old
    }
}

/// An ancestor tomb's tile at `(x, y)`, given the tile `old` there: a chest
/// at the centre `(cx, cy)`, a jade altar just north of it, and bookshelves on
/// the three middle columns of the rows just inside the top and bottom of `r`,
/// each written only onto floor.
pub open spec fn ancestor_tomb_tile(old: Tile, r: Room, cx: int, cy: int, x: int, y: int) -> Tile {
    if x == cx && y == cy && old == Tile::Floor {
        Tile::Chest
    } else if x == cx && y == cy - 1 && old == Tile::Floor {
        Tile::Altar(AltarKind::Jade)
    } else if cx - 1 <= x <= cx + 1 && (y == r.y + 1 || y == r.y + r.h - 2) && old == Tile::Floor {
        Tile::Bookshelf
    } else {
        old
    }
}

/// A demon seal's tile at `(x, y)` of `a`: the two tiles south of the centre
/// `(cx, cy)` cleared to floor, the demon at the centre, and lava on the
/// other tiles around it, demon and lava written only onto floor.
pub open spec fn demon_seal_tile(a: &DungeonLevel, cx: int, cy: int, x: int, y: int) -> Tile {
    let old = a.tile_spec(x, y);
    if x == cx && (y == cy + 1 || y == cy + 2) && a.in_bounds_spec(x, y) {
        Tile::Floor
    } else if x == cx && y == cy && old == Tile::Floor {
        Tile::Npc(3)
    } else if cx - 1 <= x <= cx + 1 && cy - 1 <= y <= cy + 1 && old == Tile::Floor {
        Tile::Lava
    } else {
        old
    }
}

/// A phoenix nest's tile at `(x, y)` of `a`: a spirit spring at the centre
/// `(cx, cy)` ringed by lava, a chest two east, all written only onto floor;
/// then the tiles two away along each axis cleared to floor unless they hold
/// a chest.
pub open spec fn phoenix_nest_tile(a: &DungeonLevel, cx: int, cy: int, x: int, y: int) -> Tile {
    let old = a.tile_spec(x, y);
    let path = ((x == cx - 2 || x == cx + 2) && y == cy) || (x == cx && (y == cy - 2 || y == cy + 2));
    if x == cx + 2 && y == cy && old == Tile::Floor {
        Tile::Chest
    } else if path && a.in_bounds_spec(x, y) && old != Tile::Chest {
        Tile::Floor
    } else if x == cx && y == cy && old == Tile::Floor {
        Tile::SpiritSpringTile
    } else if ((x == cx - 1 || x == cx + 1) && y == cy || x == cx && (y == cy - 1 || y == cy + 1)) && old == Tile::Floor {
        Tile::Lava
    } else {
        old
    }
}

/// A sealed memory's tile at `(x, y)`, given the tile `old` there: a shrine
/// at the centre `(cx, cy)`, water beside it on each side, and bookshelves on
/// the five tiles of the row two above it, each written only onto floor.
pub open spec fn sealed_memory_tile(old: Tile, cx: int, cy: int, x: int, y: int) -> Tile {
    let mark = if x == cx && y == cy {
        Some(Tile::Shrine)
    } else if (x == cx - 1 || x == cx + 1) && y == cy || x == cx && (y == cy - 1 || y == cy + 1) {
        Some(Tile::Water)
    } else if cx - 2 <= x <= cx + 2 && y == cy - 2 {
        Some(Tile::Bookshelf)
    } else {
        None
    };
    match mark {
        Some(t) => if old == Tile::Floor { t } else { old },
        None => old,
    }
}

impl DungeonLevel {
    /// Lays out the tiles of a special room inside `room`.
    fn generate_special_room(&mut self, kind: SpecialRoomKind, room: &Room, rng: &mut Rng)
        requires
            old(self).wf(),
            room_inside(*room, old(self).width as int, old(self).height as int),
        ensures
            final(self).wf(),
            final(self).same_frame(old(self)),
            confined(old(self), final(self), *room),
            kind == SpecialRoomKind::FormShrine ==> {
                &&& forall|x: int, y: int|
                    #[trigger] final(self).tile_spec(x, y) == form_shrine_tile(
                        old(self).tile_spec(x, y),
                        room.x + room.w / 2,
                        room.y + room.h / 2,
                        x,
                        y,
                    )
                &&& *final(rng) == *old(rng)
            },
            kind == SpecialRoomKind::ProphecyRoom ==> {
                &&& forall|x: int, y: int|
                    #[trigger] final(self).tile_spec(x, y) == prophecy_tile(
                        old(self).tile_spec(x, y),
                        *room,
                        room.x + room.w / 2,
                        room.y + room.h / 2,
                        x,
                        y,
                    )
                &&& *final(rng) == *old(rng)
            },
            kind == SpecialRoomKind::AncestorTomb ==> {
                &&& forall|x: int, y: int|
                    #[trigger] final(self).tile_spec(x, y) == ancestor_tomb_tile(
                        old(self).tile_spec(x, y),
                        *room,
                        room.x + room.w / 2,
                        room.y + room.h / 2,
                        x,
                        y,
                    )
                &&& *final(rng) == *old(rng)
            },
            kind == SpecialRoomKind::DemonSeal ==> {
                &&& forall|x: int, y: int|
                    #[trigger] final(self).tile_spec(x, y) == demon_seal_tile(
                        old(self),
                        room.x + room.w / 2,
                        room.y + room.h / 2,
                        x,
                        y,
                    )
                &&& *final(rng) == *old(rng)
            },
            kind == SpecialRoomKind::PhoenixNest ==> {
                &&& forall|x: int, y: int|
                    #[trigger] final(self).tile_spec(x, y) == phoenix_nest_tile(
                        old(self),
                        room.x + room.w / 2,
                        room.y + room.h / 2,
                        x,
                        y,
                    )
                &&& *final(rng) == *old(rng)
            },
            kind == SpecialRoomKind::SealedMemory ==> {
                &&& forall|x: int, y: int|
                    #[trigger] final(self).tile_spec(x, y) == sealed_memory_tile(
                        old(self).tile_spec(x, y),
                        room.x + room.w / 2,
                        room.y + room.h / 2,
                        x,
                        y,
                    )
                &&& *final(rng) == *old(rng)
            },
            kind == SpecialRoomKind::ClassTrial ==> {
                &&& forall|x: int, y: int|
                    #[trigger] final(self).tile_spec(x, y) == class_trial_tile(
                        old(self).tile_spec(x, y),
                        room.x + room.w / 2,
                        room.y + room.h / 2,
                        x,
                        y,
                    )
                &&& *final(rng) == *old(rng)
            },
    {
        let cx = room.x + room.w / 2;
        let cy = room.y + room.h / 2;
        match kind {
            SpecialRoomKind::TreasureVault => self.room_treasure_vault(room, rng, cx, cy),
            SpecialRoomKind::GoldMine => self.room_gold_mine(room, rng, cx, cy),
            SpecialRoomKind::AncestralHall => self.room_ancestral_hall(room, rng, cx, cy),
            SpecialRoomKind::HiddenCache => self.room_hidden_cache(room, rng, cx, cy),
            SpecialRoomKind::OfferingAltar => self.room_offering_altar(room, rng, cx, cy),
            SpecialRoomKind::LotusGarden => self.room_lotus_garden(room, rng, cx, cy),
            SpecialRoomKind::DragonHoard => self.room_dragon_hoard(room, rng, cx, cy),
            SpecialRoomKind::JadeVault => self.room_jade_vault(room, rng, cx, cy),
            SpecialRoomKind::RelicChamber => self.room_relic_chamber(room, rng, cx, cy),
            SpecialRoomKind::SpiritSpring => self.room_spirit_spring(room, rng, cx, cy),
            SpecialRoomKind::ArenaChallenge => self.room_arena_challenge(room, rng, cx, cy),
            SpecialRoomKind::EliteGuardPost => self.room_elite_guard_post(room, rng, cx, cy),
            SpecialRoomKind::TrapGauntlet => self.room_trap_gauntlet(room, rng, cx, cy),
            SpecialRoomKind::PoisonMaze => self.room_poison_maze(room, rng, cx, cy),
            SpecialRoomKind::BoulderPuzzle => self.room_boulder_puzzle(room, rng, cx, cy),
            SpecialRoomKind::MirrorRoom => self.room_mirror_room(room, rng, cx, cy),
            SpecialRoomKind::ElementalNexus => self.room_elemental_nexus(room, rng, cx, cy),
            SpecialRoomKind::GraveyardRise => self.room_graveyard_rise(room, rng, cx, cy),
            SpecialRoomKind::BanditAmbush => self.room_bandit_ambush(room, rng, cx, cy),
            SpecialRoomKind::DuelCircle => self.room_duel_circle(room, rng, cx, cy),
            SpecialRoomKind::Library => self.room_library(room, rng, cx, cy),
            SpecialRoomKind::CalligraphyHall => self.room_calligraphy_hall(room, rng, cx, cy),
            SpecialRoomKind::ScholarStudy => self.room_scholar_study(room, rng, cx, cy),
            SpecialRoomKind::OracleRoom => self.room_oracle_room(room, rng, cx, cy),
            SpecialRoomKind::InscriptionWall => self.room_inscription_wall(room, rng, cx, cy),
            SpecialRoomKind::MasterDojo => self.room_master_dojo(room, rng, cx, cy),
            SpecialRoomKind::MeditationChamber => self.room_meditation_chamber(room, rng, cx, cy),
            SpecialRoomKind::TranslationChallenge => self.room_translation_challenge(room, rng, cx, cy),
            SpecialRoomKind::AncientScroll => self.room_ancient_scroll(room, rng, cx, cy),
            SpecialRoomKind::WisdomWell => self.room_wisdom_well(room, rng, cx, cy),
            SpecialRoomKind::FloodedChamber => self.room_flooded_chamber(room, rng, cx, cy),
            SpecialRoomKind::FrozenCavern => self.room_frozen_cavern(room, rng, cx, cy),
            SpecialRoomKind::LavaCrossing => self.room_lava_crossing(room, rng, cx, cy),
            SpecialRoomKind::BambooForest => self.room_bamboo_forest(room, rng, cx, cy),
            SpecialRoomKind::WindTunnel => self.room_wind_tunnel(room, rng, cx, cy),
            SpecialRoomKind::CrystalCave => self.room_crystal_cave(room, rng, cx, cy),
            SpecialRoomKind::MushroomGrotto => self.room_mushroom_grotto(room, rng, cx, cy),
            SpecialRoomKind::UndergroundRiver => self.room_underground_river(room, rng, cx, cy),
            SpecialRoomKind::EchoingCavern => self.room_echoing_cavern(room, rng, cx, cy),
            SpecialRoomKind::ShadowRealm => self.room_shadow_realm(room, rng, cx, cy),
            SpecialRoomKind::WanderingMerchant => self.room_wandering_merchant(room, rng, cx, cy),
            SpecialRoomKind::HermitSage => self.room_hermit_sage(room, rng, cx, cy),
            SpecialRoomKind::PrisonerCell => self.room_prisoner_cell(room, rng, cx, cy),
            SpecialRoomKind::SpiritShrine => self.room_spirit_shrine(room, rng, cx, cy),
            SpecialRoomKind::TeaHouse => self.room_tea_house(room, rng, cx, cy),
            SpecialRoomKind::SmithyWorkshop => self.room_smithy_workshop(room, rng, cx, cy),
            SpecialRoomKind::AlchemyLab => self.room_alchemy_lab(room, rng, cx, cy),
            SpecialRoomKind::FortuneTeller => self.room_fortune_teller(room, rng, cx, cy),
            SpecialRoomKind::RefugeeCamp => self.room_refugee_camp(room, rng, cx, cy),
            SpecialRoomKind::DragonGate => self.room_dragon_gate(room, rng, cx, cy),
            SpecialRoomKind::GamblingDen => self.room_gambling_den(room, rng, cx, cy),
            SpecialRoomKind::BloodAltar => self.room_blood_altar(room, rng, cx, cy),
            SpecialRoomKind::CursedTreasure => self.room_cursed_treasure(room, rng, cx, cy),
            SpecialRoomKind::SoulForge => self.room_soul_forge(room, rng, cx, cy),
            SpecialRoomKind::WishingWell => self.room_wishing_well(room, rng, cx, cy),
            SpecialRoomKind::RuneGate => self.room_rune_gate(room, rng, cx, cy),
            SpecialRoomKind::MirrorMaze => self.room_mirror_maze(room, rng, cx, cy),
            SpecialRoomKind::WeightPuzzle => self.room_weight_puzzle(room, rng, cx, cy),
            SpecialRoomKind::ToneStaircase => self.room_tone_staircase(room, rng, cx, cy),
            SpecialRoomKind::ElementalLock => self.room_elemental_lock(room, rng, cx, cy),
            SpecialRoomKind::SurvivalPit => self.room_survival_pit(room, rng, cx, cy),
            SpecialRoomKind::TreasureRace => self.room_treasure_race(room, rng, cx, cy),
            SpecialRoomKind::CollapsingChamber => self.room_collapsing_chamber(room, rng, cx, cy),
            SpecialRoomKind::InkFlood => self.room_ink_flood(room, rng, cx, cy),
            SpecialRoomKind::FormShrine => self.room_form_shrine(room, rng, cx, cy),
            SpecialRoomKind::ClassTrial => self.room_class_trial(room, rng, cx, cy),
            SpecialRoomKind::RadicalFountain => self.room_radical_fountain(room, rng, cx, cy),
            SpecialRoomKind::AncestorTomb => self.room_ancestor_tomb(room, rng, cx, cy),
            SpecialRoomKind::ProphecyRoom => self.room_prophecy_room(room, rng, cx, cy),
            SpecialRoomKind::SealedMemory => self.room_sealed_memory(room, rng, cx, cy),
            SpecialRoomKind::DemonSeal => self.room_demon_seal(room, rng, cx, cy),
            SpecialRoomKind::PhoenixNest => self.room_phoenix_nest(room, rng, cx, cy),
            SpecialRoomKind::CalligraphyContest => self.room_calligraphy_contest(room, rng, cx, cy),
        }
    }

    #[verifier::loop_isolation(false)]
    fn room_treasure_vault(&mut self, room: &Room, rng: &mut Rng, cx: i32, cy: i32)
        requires
            old(self).wf(),
            room_inside(*room, old(self).width as int, old(self).height as int),
            cx == room.x + room.w / 2,
            cy == room.y + room.h / 2,
        ensures
            final(self).wf(),
            final(self).same_frame(old(self)),
            confined(old(self), final(self), *room),
    {
        // Gold piles scattered around the vault
        let row_start: i32 = room.y + 1;
        let row_end: i32 = room.y + room.h - 1;
        let mut row: i32 = row_start;
        while row < row_end
            invariant
                self.wf(),
                self.same_frame(old(self)),
                room_inside(*room, self.width as int, self.height as int),
                confined(old(self), self, *room),
                row == row_start || (row_start <= row && row <= row_end),
            decreases row_end - row,
        {
            let y = row;
            row = row + 1;
            let col_start: i32 = room.x + 1;
            let col_end: i32 = room.x + room.w - 1;
            let mut col: i32 = col_start;
            while col < col_end
                invariant
                    self.wf(),
                    self.same_frame(old(self)),
                    room_inside(*room, self.width as int, self.height as int),
                    confined(old(self), self, *room),
                    col == col_start || (col_start <= col && col <= col_end),
                decreases col_end - col,
            {
                let x = col;
                col = col + 1;
                if self.in_bounds(x, y) && rng.next_u64() % 7 == 0 {
                    if self.tile(x, y) == Tile::Floor {
                        self.put_near(x, y, Tile::GoldPile, Ghost(*room));
                    }
                }
            }
        }
        // Water moat around center treasure area
        let offsets = [(-2,-1),(-2,0),(-2,1),(2,-1),(2,0),(2,1),(-1,-2),(0,-2),(1,-2),(-1,2),(0,2),(1,2)];
        let mut oi: usize = 0;
        while oi < offsets.len()
            invariant
                self.wf(),
                self.same_frame(old(self)),
                room_inside(*room, self.width as int, self.height as int),
                confined(old(self), self, *room),
            decreases offsets.len() - oi,
        {
            let (dx, dy) = offsets[oi];
            oi += 1;
            let x = cx + dx;
            let y = cy + dy;
            if self.in_bounds(x, y) {
                if matches!(self.tile(x, y), Tile::Floor | Tile::GoldPile) {
                    self.put_near(x, y, Tile::Water, Ghost(*room));
                }
            }
        }
        // Crate barriers flanking the vault
        let offsets = [(-3,-1),(-3,0),(-3,1),(3,-1),(3,0),(3,1)];
        let mut oi: usize = 0;
        while oi < offsets.len()
            invariant
                self.wf(),
                self.same_frame(old(self)),
                room_inside(*room, self.width as int, self.height as int),
                confined(old(self), self, *room),
            decreases offsets.len() - oi,
        {
            let (dx, dy) = offsets[oi];
            oi += 1;
            let x = cx + dx;
            let y = cy + dy;
            if self.in_bounds(x, y) {
                if matches!(self.tile(x, y), Tile::Floor | Tile::GoldPile) {
                    self.put_near(x, y, Tile::Crate, Ghost(*room));
                }
            }
        }
        // 3 chests in center
        let step_start: i32 = -1;
        let step_end: i32 = 1;
        let mut step: i32 = step_start;
        while step <= step_end
            invariant
                self.wf(),
                self.same_frame(old(self)),
                room_inside(*room, self.width as int, self.height as int),
                confined(old(self), self, *room),
                step == step_start || (step_start <= step && step <= step_end + 1),
            decreases step_end + 1 - step,
        {
            let dx = step;
            step = step + 1;
            let x = cx + dx;
            if self.in_bounds(x, cy) {
                self.put_near(x, cy, Tile::Chest, Ghost(*room));
            }
        }
        // Locked door at room edge
        if self.in_bounds(room.x, cy) {
            if matches!(self.tile(room.x, cy), Tile::Floor | Tile::Corridor) {
                self.put_near(room.x, cy, Tile::LockedDoor, Ghost(*room));
            }
        }
    }

    #[verifier::loop_isolation(false)]
    fn room_gold_mine(&mut self, room: &Room, rng: &mut Rng, cx: i32, cy: i32)
        requires
            old(self).wf(),
            room_inside(*room, old(self).width as int, old(self).height as int),
            cx == room.x + room.w / 2,
            cy == room.y + room.h / 2,
        ensures
            final(self).wf(),
            final(self).same_frame(old(self)),
            confined(old(self), final(self), *room),
    {
        // Dense gold ore on walls (higher coverage)
        let col_start: i32 = room.x;
        let col_end: i32 = room.x + room.w;
        let mut col: i32 = col_start;
        while col < col_end
            invariant
                self.wf(),
                self.same_frame(old(self)),
                room_inside(*room, self.width as int, self.height as int),
                confined(old(self), self, *room),
                col == col_start || (col_start <= col && col <= col_end),
            decreases col_end - col,
        {
            let x = col;
            col = col + 1;
            let lines = [room.y, room.y + room.h - 1];
            let mut li: usize = 0;
            while li < lines.len()
                invariant
                    self.wf(),
                    self.same_frame(old(self)),
                    room_inside(*room, self.width as int, self.height as int),
                    confined(old(self), self, *room),
                decreases lines.len() - li,
            {
                let y = lines[li];
                li += 1;
                if self.in_bounds(x, y) && rng.next_u64() % 2 == 0 {
                    if self.tile(x, y) == Tile::Floor {
                        self.put_near(x, y, Tile::GoldOre, Ghost(*room));
                    }
                }
            }
        }
        let row_start: i32 = room.y;
        let row_end: i32 = room.y + room.h;
        let mut row: i32 = row_start;
        while row < row_end
            invariant
                self.wf(),
                self.same_frame(old(self)),
                room_inside(*room, self.width as int, self.height as int),
                confined(old(self), self, *room),
                row == row_start || (row_start <= row && row <= row_end),
            decreases row_end - row,
        {
            let y = row;
            row = row + 1;
            let lines = [room.x, room.x + room.w - 1];
            let mut li: usize = 0;
            while li < lines.len()
                invariant
                    self.wf(),
                    self.same_frame(old(self)),
                    room_inside(*room, self.width as int, self.height as int),
                    confined(old(self), self, *room),
                decreases lines.len() - li,
            {
                let x = lines[li];
                li += 1;
                if self.in_bounds(x, y) && rng.next_u64() % 2 == 0 {
                    if self.tile(x, y) == Tile::Floor {
                        self.put_near(x, y, Tile::GoldOre, Ghost(*room));
                    }
                }
            }
        }
        // Boulder support pillars
        let offsets = [(-2,-2),(2,-2),(-2,2),(2,2),(0,-2),(0,2)];
        let mut oi: usize = 0;
        while oi < offsets.len()
            invariant
                self.wf(),
                self.same_frame(old(self)),
                room_inside(*room, self.width as int, self.height as int),
                confined(old(self), self, *room),
            decreases offsets.len() - oi,
        {
            let (dx, dy) = offsets[oi];
            oi += 1;
            let x = cx + dx;
            let y = cy + dy;
            if self.in_bounds(x, y) {
                if self.tile(x, y) == Tile::Floor {
                    self.put_near(x, y, Tile::Boulder, Ghost(*room));
                }
            }
        }
        // Gold piles near veins
        let row_start: i32 = room.y + 1;
        let row_end: i32 = room.y + room.h - 1;
        let mut row: i32 = row_start;
        while row < row_end
            invariant
                self.wf(),
                self.same_frame(old(self)),
                room_inside(*room, self.width as int, self.height as int),
                confined(old(self), self, *room),
                row == row_start || (row_start <= row && row <= row_end),
            decreases row_end - row,
        {
            let y = row;
            row = row + 1;
            let col_start: i32 = room.x + 1;
            let col_end: i32 = room.x + room.w - 1;
            let mut col: i32 = col_start;
            while col < col_end
                invariant
                    self.wf(),
                    self.same_frame(old(self)),
                    room_inside(*room, self.width as int, self.height as int),
                    confined(old(self), self, *room),
                    col == col_start || (col_start <= col && col <= col_end),
                decreases col_end - col,
            {
                let x = col;
                col = col + 1;
                if self.in_bounds(x, y) && rng.next_u64() % 8 == 0 {
                    if self.tile(x, y) == Tile::Floor {
                        self.put_near(x, y, Tile::GoldPile, Ghost(*room));
                    }
                }
            }
        }
        // Crate (mine cart) at center
        if self.in_bounds(cx, cy) {
            if self.tile(cx, cy) == Tile::Floor {
                self.put_near(cx, cy, Tile::Crate, Ghost(*room));
            }
        }
    }

    #[verifier::loop_isolation(false)]
    fn room_ancestral_hall(&mut self, room: &Room, rng: &mut Rng, cx: i32, cy: i32)
        requires
            old(self).wf(),
            room_inside(*room, old(self).width as int, old(self).height as int),
            cx == room.x + room.w / 2,
            cy == room.y + room.h / 2,
        ensures
            final(self).wf(),
            final(self).same_frame(old(self)),
            confined(old(self), final(self), *room),
    {
        // Crystal candles along walls
        let row_start: i32 = room.y + 1;
        let row_end: i32 = room.y + room.h - 1;
        let mut row: i32 = row_start;
        while row < row_end
            invariant
                self.wf(),
                self.same_frame(old(self)),
                room_inside(*room, self.width as int, self.height as int),
                confined(old(self), self, *room),
                row == row_start || (row_start <= row && row <= row_end),
            decreases row_end - row,
        {
            let y = row;
            row = row + 1;
            if (y - room.y) % 3 == 1 {
                let lines = [room.x + 1, room.x + room.w - 2];
                let mut li: usize = 0;
                while li < lines.len()
                    invariant
                        self.wf(),
                        self.same_frame(old(self)),
                        room_inside(*room, self.width as int, self.height as int),
                        confined(old(self), self, *room),
                    decreases lines.len() - li,
                {
                    let x = lines[li];
                    li += 1;
                    if self.in_bounds(x, y) {
                        if self.tile(x, y) == Tile::Floor {
                            self.put_near(x, y, Tile::Crystal, Ghost(*room));
                        }
                    }
                }
            }
        }
        // Bookshelf pew rows on both sides of center aisle
        let row_start: i32 = room.y + 1;
        let row_end: i32 = room.y + room.h - 1;
        let mut row: i32 = row_start;
        while row < row_end
            invariant
                self.wf(),
                self.same_frame(old(self)),
                room_inside(*room, self.width as int, self.height as int),
                confined(old(self), self, *room),
                row == row_start || (row_start <= row && row <= row_end),
            decreases row_end - row,
        {
            let y = row;
            row = row + 1;
            if y != cy && (y - room.y) % 2 == 0 {
                let lines = [2, 3];
                let mut li: usize = 0;
                while li < lines.len()
                    invariant
                        self.wf(),
                        self.same_frame(old(self)),
                        room_inside(*room, self.width as int, self.height as int),
                        confined(old(self), self, *room),
                    decreases lines.len() - li,
                {
                    let x_off = lines[li];
                    li += 1;
                    let x_left = room.x + x_off;
                    let x_right = room.x + room.w - 1 - x_off;
                    if self.in_bounds(x_left, y) {
                        if self.tile(x_left, y) == Tile::Floor {
                            self.put_near(x_left, y, Tile::Bookshelf, Ghost(*room));
                        }
                    }
                    if self.in_bounds(x_right, y) {
                        if self.tile(x_right, y) == Tile::Floor {
                            self.put_near(x_right, y, Tile::Bookshelf, Ghost(*room));
                        }
                    }
                }
            }
        }
        // Water basin behind altar
        let step_start: i32 = -1;
        let step_end: i32 = 1;
        let mut step: i32 = step_start;
        while step <= step_end
            invariant
                self.wf(),
                self.same_frame(old(self)),
                room_inside(*room, self.width as int, self.height as int),
                confined(old(self), self, *room),
                step == step_start || (step_start <= step && step <= step_end + 1),
            decreases step_end + 1 - step,
        {
            let dx = step;
            step = step + 1;
            let x = cx + dx;
            let y = cy - 2;
            if self.in_bounds(x, y) {
                if self.tile(x, y) == Tile::Floor {
                    self.put_near(x, y, Tile::Water, Ghost(*room));
                }
            }
        }
        // Jade altar at center
        if self.in_bounds(cx, cy) {
            self.put_near(cx, cy, Tile::Altar(AltarKind::Jade), Ghost(*room));
        }
    }

    #[verifier::loop_isolation(false)]
    fn room_hidden_cache(&mut self, room: &Room, rng: &mut Rng, cx: i32, cy: i32)
        requires
            old(self).wf(),
            room_inside(*room, old(self).width as int, old(self).height as int),
            cx == room.x + room.w / 2,
            cy == room.y + room.h / 2,
        ensures
            final(self).wf(),
            final(self).same_frame(old(self)),
            confined(old(self), final(self), *room),
    {
        // Oil (dust) and mushroom (cobwebs) in neglected corners
        let offsets = [(1,1),(1,-1),(-1,1),(-1,-1)];
        let mut oi: usize = 0;
        while oi < offsets.len()
            invariant
                self.wf(),
                self.same_frame(old(self)),
                room_inside(*room, self.width as int, self.height as int),
                confined(old(self), self, *room),
            decreases offsets.len() - oi,
        {
            let (dx, dy) = offsets[oi];
            oi += 1;
            let x = cx + dx * 2;
            let y = cy + dy;
            if self.in_bounds(x, y) {
                if self.tile(x, y) == Tile::Floor {
                    self.put_near(x, y, Tile::Mushroom, Ghost(*room));
                }
            }
        }
        let offsets = [(1,0),(-1,0),(2,0),(-2,0)];
        let mut oi: usize = 0;
        while oi < offsets.len()
            invariant
                self.wf(),
                self.same_frame(old(self)),
                room_inside(*room, self.width as int, self.height as int),
                confined(old(self), self, *room),
            decreases offsets.len() - oi,
        {
            let (dx, _dy) = offsets[oi];
            oi += 1;
            let x = cx + dx;
            if self.in_bounds(x, cy) {
                if self.tile(x, cy) == Tile::Floor {
                    self.put_near(x, cy, Tile::Oil, Ghost(*room));
                }
            }
        }
        // Crate (old supplies)
        if self.in_bounds(cx + 1, cy - 1) {
            if self.tile(cx + 1, cy - 1) == Tile::Floor {
                self.put_near(cx + 1, cy - 1, Tile::Crate, Ghost(*room));
            }
        }
        // Chest at center
        if self.in_bounds(cx, cy) {
            self.put_near(cx, cy, Tile::Chest, Ghost(*room));
        }
        // Cracked wall entrance
        let wall_x = room.x;
        if self.in_bounds(wall_x, cy) {
            if self.tile(wall_x, cy) == Tile::Floor {
                self.put_near(wall_x, cy, Tile::CrackedWall, Ghost(*room));
            }
        }
        // More cracked walls for atmosphere
        if self.in_bounds(wall_x, cy - 1) {
            if self.tile(wall_x, cy - 1) == Tile::Floor {
                self.put_near(wall_x, cy - 1, Tile::CrackedWall, Ghost(*room));
            }
        }
    }

    #[verifier::loop_isolation(false)]
    fn room_offering_altar(&mut self, room: &Room, rng: &mut Rng, cx: i32, cy: i32)
        requires
            old(self).wf(),
            room_inside(*room, old(self).width as int, old(self).height as int),
            cx == room.x + room.w / 2,
            cy == room.y + room.h / 2,
        ensures
            final(self).wf(),
            final(self).same_frame(old(self)),
            confined(old(self), final(self), *room),
    {
        // Water purification basin
        let step_start: i32 = -1;
        let step_end: i32 = 1;
        let mut step: i32 = step_start;
        while step <= step_end
            invariant
                self.wf(),
                self.same_frame(old(self)),
                room_inside(*room, self.width as int, self.height as int),
                confined(old(self), self, *room),
                step == step_start || (step_start <= step && step <= step_end + 1),
            decreases step_end + 1 - step,
        {
            let dx = step;
            step = step + 1;
            let x = cx + dx;
            let y = cy + 2;
            if self.in_bounds(x, y) {
                if self.tile(x, y) == Tile::Floor {
                    self.put_near(x, y, Tile::Water, Ghost(*room));
                }
            }
        }
        // Crystal candles at diagonal positions
        let offsets = [(-1,-1),(1,-1),(-1,1),(1,1)];
        let mut oi: usize = 0;
        while oi < offsets.len()
            invariant
                self.wf(),
                self.same_frame(old(self)),
                room_inside(*room, self.width as int, self.height as int),
                confined(old(self), self, *room),
            decreases offsets.len() - oi,
        {
            let (dx, dy) = offsets[oi];
            oi += 1;
            let x = cx + dx;
            let y = cy + dy;
            if self.in_bounds(x, y) {
                if self.tile(x, y) == Tile::Floor {
                    self.put_near(x, y, Tile::Crystal, Ghost(*room));
                }
            }
        }
        // Mushroom incense at far positions
        let offsets = [(-2,-1),(2,-1)];
        let mut oi: usize = 0;
        while oi < offsets.len()
            invariant
                self.wf(),
                self.same_frame(old(self)),
                room_inside(*room, self.width as int, self.height as int),
                confined(old(self), self, *room),
            decreases offsets.len() - oi,
        {
            let (dx, dy) = offsets[oi];
            oi += 1;
            let x = cx + dx;
            let y = cy + dy;
            if self.in_bounds(x, y) {
                if self.tile(x, y) == Tile::Floor {
                    self.put_near(x, y, Tile::Mushroom, Ghost(*room));
                }
            }
        }
        // Gold pile offerings at cardinal positions
        let offsets = [(-1, 0), (1, 0), (0, -1), (0, 1)];
        let mut oi: usize = 0;
        while oi < offsets.len()
            invariant
                self.wf(),
                self.same_frame(old(self)),
                room_inside(*room, self.width as int, self.height as int),
                confined(old(self), self, *room),
            decreases offsets.len() - oi,
        {
            let (dx, dy) = offsets[oi];
            oi += 1;
            let x = cx + dx;
            let y = cy + dy;
            if self.in_bounds(x, y) {
                if self.tile(x, y) == Tile::Floor {
                    self.put_near(x, y, Tile::GoldPile, Ghost(*room));
                }
            }
        }
        // Central altar
        if self.in_bounds(cx, cy) {
            self.put_near(cx, cy, Tile::Altar(AltarKind::Gold), Ghost(*room));
        }
    }

    #[verifier::loop_isolation(false)]
    fn room_lotus_garden(&mut self, room: &Room, rng: &mut Rng, cx: i32, cy: i32)
        requires
            old(self).wf(),
            room_inside(*room, old(self).width as int, old(self).height as int),
            cx == room.x + room.w / 2,
            cy == room.y + room.h / 2,
        ensures
            final(self).wf(),
            final(self).same_frame(old(self)),
            confined(old(self), final(self), *room),
    {
        // Bamboo border along room edges
        let col_start: i32 = room.x + 1;
        let col_end: i32 = room.x + room.w - 1;
        let mut col: i32 = col_start;
        while col < col_end
            invariant
                self.wf(),
                self.same_frame(old(self)),
                room_inside(*room, self.width as int, self.height as int),
                confined(old(self), self, *room),
                col == col_start || (col_start <= col && col <= col_end),
            decreases col_end - col,
        {
            let x = col;
            col = col + 1;
            let lines = [room.y + 1, room.y + room.h - 2];
            let mut li: usize = 0;
            while li < lines.len()
                invariant
                    self.wf(),
                    self.same_frame(old(self)),
                    room_inside(*room, self.width as int, self.height as int),
                    confined(old(self), self, *room),
                decreases lines.len() - li,
            {
                let y = lines[li];
                li += 1;
                if self.in_bounds(x, y) && x != cx {
                    if self.tile(x, y) == Tile::Floor {
                        self.put_near(x, y, Tile::Bamboo, Ghost(*room));
                    }
                }
            }
        }
        let row_start: i32 = room.y + 2;
        let row_end: i32 = room.y + room.h - 2;
        let mut row: i32 = row_start;
        while row < row_end
            invariant
                self.wf(),
                self.same_frame(old(self)),
                room_inside(*room, self.width as int, self.height as int),
                confined(old(self), self, *room),
                row == row_start || (row_start <= row && row <= row_end),
            decreases row_end - row,
        {
            let y = row;
            row = row + 1;
            let lines = [room.x + 1, room.x + room.w - 2];
            let mut li: usize = 0;
            while li < lines.len()
                invariant
                    self.wf(),
                    self.same_frame(old(self)),
                    room_inside(*room, self.width as int, self.height as int),
                    confined(old(self), self, *room),
                decreases lines.len() - li,
            {
                let x = lines[li];
                li += 1;
                if self.in_bounds(x, y) && y != cy {
                    if self.tile(x, y) == Tile::Floor {
                        self.put_near(x, y, Tile::Bamboo, Ghost(*room));
                    }
                }
            }
        }
        // Water pond around center (2-tile radius)
        let step_start: i32 = -2i32;
        let step_end: i32 = 2;
        let mut step: i32 = step_start;
        while step <= step_end
            invariant
                self.wf(),
                self.same_frame(old(self)),
                room_inside(*room, self.width as int, self.height as int),
                confined(old(self), self, *room),
                step == step_start || (step_start <= step && step <= step_end + 1),
            decreases step_end + 1 - step,
        {
            let dy = step;
            step = step + 1;
            let step_start: i32 = -2i32;
            let step_end: i32 = 2;
            let mut step: i32 = step_start;
            while step <= step_end
                invariant
                    self.wf(),
                    self.same_frame(old(self)),
                    room_inside(*room, self.width as int, self.height as int),
                    confined(old(self), self, *room),
                    step == step_start || (step_start <= step && step <= step_end + 1),
                decreases step_end + 1 - step,
            {
                let dx = step;
                step = step + 1;
                if dx == 0 && dy == 0 { continue; }
                if abs_i32(dx) + abs_i32(dy) > 3 { continue; }
                let x = cx + dx;
                let y = cy + dy;
                if self.in_bounds(x, y) {
                    if self.tile(x, y) == Tile::Floor {
                        self.put_near(x, y, Tile::Water, Ghost(*room));
                    }
                }
            }
        }
        // Mushroom (lotus plants) near water
        let offsets = [(-2,-2),(2,-2),(-2,2),(2,2)];
        let mut oi: usize = 0;
        while oi < offsets.len()
            invariant
                self.wf(),
                self.same_frame(old(self)),
                room_inside(*room, self.width as int, self.height as int),
                confined(old(self), self, *room),
            decreases offsets.len() - oi,
        {
            let (dx, dy) = offsets[oi];
            oi += 1;
            let x = cx + dx;
            let y = cy + dy;
            if self.in_bounds(x, y) {
                if self.tile(x, y) == Tile::Floor {
                    self.put_near(x, y, Tile::Mushroom, Ghost(*room));
                }
            }
        }
        // Spirit spring at center
        if self.in_bounds(cx, cy) {
            self.put_near(cx, cy, Tile::SpiritSpringTile, Ghost(*room));
        }
    }

    #[verifier::loop_isolation(false)]
    fn room_dragon_hoard(&mut self, room: &Room, rng: &mut Rng, cx: i32, cy: i32)
        requires
            old(self).wf(),
            room_inside(*room, old(self).width as int, old(self).height as int),
            cx == room.x + room.w / 2,
            cy == room.y + room.h / 2,
        ensures
            final(self).wf(),
            final(self).same_frame(old(self)),
            confined(old(self), final(self), *room),
    {
        // Gold ore on walls
        let col_start: i32 = room.x;
        let col_end: i32 = room.x + room.w;
        let mut col: i32 = col_start;
        while col < col_end
            invariant
                self.wf(),
                self.same_frame(old(self)),
                room_inside(*room, self.width as int, self.height as int),
                confined(old(self), self, *room),
                col == col_start || (col_start <= col && col <= col_end),
            decreases col_end - col,
        {
            let x = col;
            col = col + 1;
            let lines = [room.y, room.y + room.h - 1];
            let mut li: usize = 0;
            while li < lines.len()
                invariant
                    self.wf(),
                    self.same_frame(old(self)),
                    room_inside(*room, self.width as int, self.height as int),
                    confined(old(self), self, *room),
                decreases lines.len() - li,
            {
                let y = lines[li];
                li += 1;
                if self.in_bounds(x, y) && rng.next_u64() % 2 == 0 {
                    if self.tile(x, y) == Tile::Floor {
                        self.put_near(x, y, Tile::GoldOre, Ghost(*room));
                    }
                }
            }
        }
        // Dense gold piles throughout
        let row_start: i32 = room.y + 1;
        let row_end: i32 = room.y + room.h - 1;
        let mut row: i32 = row_start;
        while row < row_end
            invariant
                self.wf(),
                self.same_frame(old(self)),
                room_inside(*room, self.width as int, self.height as int),
                confined(old(self), self, *room),
                row == row_start || (row_start <= row && row <= row_end),
            decreases row_end - row,
        {
            let y = row;
            row = row + 1;
            let col_start: i32 = room.x + 1;
            let col_end: i32 = room.x + room.w - 1;
            let mut col: i32 = col_start;
            while col < col_end
                invariant
                    self.wf(),
                    self.same_frame(old(self)),
                    room_inside(*room, self.width as int, self.height as int),
                    confined(old(self), self, *room),
                    col == col_start || (col_start <= col && col <= col_end),
                decreases col_end - col,
            {
                let x = col;
                col = col + 1;
                if self.in_bounds(x, y) && rng.next_u64() % 3 == 0 {
                    if self.tile(x, y) == Tile::Floor {
                        self.put_near(x, y, Tile::GoldPile, Ghost(*room));
                    }
                }
            }
        }
        // Crystal gems scattered
        let offsets = [(-2,0),(2,0),(0,-2),(0,2),(-1,-1),(1,1)];
        let mut oi: usize = 0;
        while oi < offsets.len()
            invariant
                self.wf(),
                self.same_frame(old(self)),
                room_inside(*room, self.width as int, self.height as int),
                confined(old(self), self, *room),
            decreases offsets.len() - oi,
        {
            let (dx, dy) = offsets[oi];
            oi += 1;
            let x = cx + dx;
            let y = cy + dy;
            if self.in_bounds(x, y) {
                if self.tile(x, y) == Tile::Floor {
                    self.put_near(x, y, Tile::Crystal, Ghost(*room));
                }
            }
        }
        // Crate treasure boxes at corners
        let offsets = [(-3,-2),(3,-2),(-3,2),(3,2)];
        let mut oi: usize = 0;
        while oi < offsets.len()
            invariant
                self.wf(),
                self.same_frame(old(self)),
                room_inside(*room, self.width as int, self.height as int),
                confined(old(self), self, *room),
            decreases offsets.len() - oi,
        {
            let (dx, dy) = offsets[oi];
            oi += 1;
            let x = cx + dx;
            let y = cy + dy;
            if self.in_bounds(x, y) {
                if matches!(self.tile(x, y), Tile::Floor | Tile::GoldPile) {
                    self.put_near(x, y, Tile::Crate, Ghost(*room));
                }
            }
        }
    }

    #[verifier::loop_isolation(false)]
    fn room_jade_vault(&mut self, room: &Room, rng: &mut Rng, cx: i32, cy: i32)
        requires
            old(self).wf(),
            room_inside(*room, old(self).width as int, old(self).height as int),
            cx == room.x + room.w / 2,
            cy == room.y + room.h / 2,
        ensures
            final(self).wf(),
            final(self).same_frame(old(self)),
            confined(old(self), final(self), *room),
    {
        // Crystal walls along full inner perimeter
        let col_start: i32 = room.x + 1;
        let col_end: i32 = room.x + room.w - 1;
        let mut col: i32 = col_start;
        while col < col_end
            invariant
                self.wf(),
                self.same_frame(old(self)),
                room_inside(*room, self.width as int, self.height as int),
                confined(old(self), self, *room),
                col == col_start || (col_start <= col && col <= col_end),
            decreases col_end - col,
        {
            let x = col;
            col = col + 1;
            let lines = [room.y + 1, room.y + room.h - 2];
            let mut li: usize = 0;
            while li < lines.len()
                invariant
                    self.wf(),
                    self.same_frame(old(self)),
                    room_inside(*room, self.width as int, self.height as int),
                    confined(old(self), self, *room),
                decreases lines.len() - li,
            {
                let y = lines[li];
                li += 1;
                if self.in_bounds(x, y) {
                    if self.tile(x, y) == Tile::Floor {
                        self.put_near(x, y, Tile::Crystal, Ghost(*room));
                    }
                }
            }
        }
        let row_start: i32 = room.y + 2;
        let row_end: i32 = room.y + room.h - 2;
        let mut row: i32 = row_start;
        while row < row_end
            invariant
                self.wf(),
                self.same_frame(old(self)),
                room_inside(*room, self.width as int, self.height as int),
                confined(old(self), self, *room),
                row == row_start || (row_start <= row && row <= row_end),
            decreases row_end - row,
        {
            let y = row;
            row = row + 1;
            let lines = [room.x + 1, room.x + room.w - 2];
            let mut li: usize = 0;
            while li < lines.len()
                invariant
                    self.wf(),
                    self.same_frame(old(self)),
                    room_inside(*room, self.width as int, self.height as int),
                    confined(old(self), self, *room),
                decreases lines.len() - li,
            {
                let x = lines[li];
                li += 1;
                if self.in_bounds(x, y) {
                    if self.tile(x, y) == Tile::Floor {
                        self.put_near(x, y, Tile::Crystal, Ghost(*room));
                    }
                }
            }
        }
        // Gold piles near chest
        let offsets = [(-1,0),(1,0),(0,-1),(0,1)];
        let mut oi: usize = 0;
        while oi < offsets.len()
            invariant
                self.wf(),
                self.same_frame(old(self)),
                room_inside(*room, self.width as int, self.height as int),
                confined(old(self), self, *room),
            decreases offsets.len() - oi,
        {
            let (dx, dy) = offsets[oi];
            oi += 1;
            let x = cx + dx;
            let y = cy + dy;
            if self.in_bounds(x, y) {
                if self.tile(x, y) == Tile::Floor {
                    self.put_near(x, y, Tile::GoldPile, Ghost(*room));
                }
            }
        }
        // Jade altar behind chest
        if self.in_bounds(cx, cy - 1) {
            self.put_near(cx, cy - 1, Tile::Altar(AltarKind::Jade), Ghost(*room));
        }
        // Chest in center
        if self.in_bounds(cx, cy) {
            self.put_near(cx, cy, Tile::Chest, Ghost(*room));
        }
        // Locked door at entry
        if self.in_bounds(room.x, cy) {
            if matches!(self.tile(room.x, cy), Tile::Floor | Tile::Corridor | Tile::Crystal) {
                self.put_near(room.x, cy, Tile::LockedDoor, Ghost(*room));
            }
        }
    }

    #[verifier::loop_isolation(false)]
    fn room_relic_chamber(&mut self, room: &Room, rng: &mut Rng, cx: i32, cy: i32)
        requires
            old(self).wf(),
            room_inside(*room, old(self).width as int, old(self).height as int),
            cx == room.x + room.w / 2,
            cy == room.y + room.h / 2,
        ensures
            final(self).wf(),
            final(self).same_frame(old(self)),
            confined(old(self), final(self), *room),
    {
        // Bookshelves (lore) on walls
        let row_start: i32 = room.y + 1;
        let row_end: i32 = room.y + room.h - 1;
        let mut row: i32 = row_start;
        while row < row_end
            invariant
                self.wf(),
                self.same_frame(old(self)),
                room_inside(*room, self.width as int, self.height as int),
                confined(old(self), self, *room),
                row == row_start || (row_start <= row && row <= row_end),
            decreases row_end - row,
        {
            let y = row;
            row = row + 1;
            if (y - room.y) % 2 == 1 {
                let lines = [room.x + 1, room.x + room.w - 2];
                let mut li: usize = 0;
                while li < lines.len()
                    invariant
                        self.wf(),
                        self.same_frame(old(self)),
                        room_inside(*room, self.width as int, self.height as int),
                        confined(old(self), self, *room),
                    decreases lines.len() - li,
                {
                    let x = lines[li];
                    li += 1;
                    if self.in_bounds(x, y) {
                        if self.tile(x, y) == Tile::Floor {
                            self.put_near(x, y, Tile::Bookshelf, Ghost(*room));
                        }
                    }
                }
            }
        }
        // Water purification pool at entry
        let step_start: i32 = -1;
        let step_end: i32 = 1;
        let mut step: i32 = step_start;
        while step <= step_end
            invariant
                self.wf(),
                self.same_frame(old(self)),
                room_inside(*room, self.width as int, self.height as int),
                confined(old(self), self, *room),
                step == step_start || (step_start <= step && step <= step_end + 1),
            decreases step_end + 1 - step,
        {
            let dx = step;
            step = step + 1;
            let x = cx + dx;
            let y = cy + 2;
            if self.in_bounds(x, y) {
                if self.tile(x, y) == Tile::Floor {
                    self.put_near(x, y, Tile::Water, Ghost(*room));
                }
            }
        }
        // Crystal lighting flanks
        let offsets = [(-2, 0), (2, 0)];
        let mut oi: usize = 0;
        while oi < offsets.len()
            invariant
                self.wf(),
                self.same_frame(old(self)),
                room_inside(*room, self.width as int, self.height as int),
                confined(old(self), self, *room),
            decreases offsets.len() - oi,
        {
            let (dx, dy) = offsets[oi];
            oi += 1;
            let x = cx + dx;
            let y = cy + dy;
            if self.in_bounds(x, y) {
                if self.tile(x, y) == Tile::Floor {
                    self.put_near(x, y, Tile::Crystal, Ghost(*room));
                }
            }
        }
        // Mirror altar backdrop
        if self.in_bounds(cx, cy - 1) {
            self.put_near(cx, cy - 1, Tile::Altar(AltarKind::Mirror), Ghost(*room));
        }
        // Chest (relic) at center
        if self.in_bounds(cx, cy) {
            self.put_near(cx, cy, Tile::Chest, Ghost(*room));
        }
    }

    #[verifier::loop_isolation(false)]
    fn room_spirit_spring(&mut self, room: &Room, rng: &mut Rng, cx: i32, cy: i32)
        requires
            old(self).wf(),
            room_inside(*room, old(self).width as int, old(self).height as int),
            cx == room.x + room.w / 2,
            cy == room.y + room.h / 2,
        ensures
            final(self).wf(),
            final(self).same_frame(old(self)),
            confined(old(self), final(self), *room),
    {
        // Bamboo accents at room edges
        let offsets = [(-3,-2),(-3,2),(3,-2),(3,2)];
        let mut oi: usize = 0;
        while oi < offsets.len()
            invariant
                self.wf(),
                self.same_frame(old(self)),
                room_inside(*room, self.width as int, self.height as int),
                confined(old(self), self, *room),
            decreases offsets.len() - oi,
        {
            let (dx, dy) = offsets[oi];
            oi += 1;
            let x = cx + dx;
            let y = cy + dy;
            if self.in_bounds(x, y) {
                if self.tile(x, y) == Tile::Floor {
                    self.put_near(x, y, Tile::Bamboo, Ghost(*room));
                }
            }
        }
        // Water ring (2-wide)
        let step_start: i32 = -2i32;
        let step_end: i32 = 2;
        let mut step: i32 = step_start;
        while step <= step_end
            invariant
                self.wf(),
                self.same_frame(old(self)),
                room_inside(*room, self.width as int, self.height as int),
                confined(old(self), self, *room),
                step == step_start || (step_start <= step && step <= step_end + 1),
            decreases step_end + 1 - step,
        {
            let dy = step;
            step = step + 1;
            let step_start: i32 = -2i32;
            let step_end: i32 = 2;
            let mut step: i32 = step_start;
            while step <= step_end
                invariant
                    self.wf(),
                    self.same_frame(old(self)),
                    room_inside(*room, self.width as int, self.height as int),
                    confined(old(self), self, *room),
                    step == step_start || (step_start <= step && step <= step_end + 1),
                decreases step_end + 1 - step,
            {
                let dx = step;
                step = step + 1;
                if dx == 0 && dy == 0 { continue; }
                let dist = max_i32(abs_i32(dx), abs_i32(dy));
                if dist >= 1 && dist <= 2 {
                    let x = cx + dx;
                    let y = cy + dy;
                    if self.in_bounds(x, y) {
                        if self.tile(x, y) == Tile::Floor {
                            self.put_near(x, y, Tile::Water, Ghost(*room));
                        }
                    }
                }
            }
        }
        // Crystal accents at compass points
        let offsets = [(-3,0),(3,0),(0,-3),(0,3)];
        let mut oi: usize = 0;
        while oi < offsets.len()
            invariant
                self.wf(),
                self.same_frame(old(self)),
                room_inside(*room, self.width as int, self.height as int),
                confined(old(self), self, *room),
            decreases offsets.len() - oi,
        {
            let (dx, dy) = offsets[oi];
            oi += 1;
            let x = cx + dx;
            let y = cy + dy;
            if self.in_bounds(x, y) {
                if self.tile(x, y) == Tile::Floor {
                    self.put_near(x, y, Tile::Crystal, Ghost(*room));
                }
            }
        }
        // Mushroom herbs near water
        let offsets = [(-2,-2),(2,-2),(-2,2),(2,2)];
        let mut oi: usize = 0;
        while oi < offsets.len()
            invariant
                self.wf(),
                self.same_frame(old(self)),
                room_inside(*room, self.width as int, self.height as int),
                confined(old(self), self, *room),
            decreases offsets.len() - oi,
        {
            let (dx, dy) = offsets[oi];
            oi += 1;
            let x = cx + dx;
            let y = cy + dy;
            if self.in_bounds(x, y) {
                if matches!(self.tile(x, y), Tile::Floor | Tile::Water) {
                    self.put_near(x, y, Tile::Mushroom, Ghost(*room));
                }
            }
        }
        // Spirit spring at center
        if self.in_bounds(cx, cy) {
            self.put_near(cx, cy, Tile::SpiritSpringTile, Ghost(*room));
        }
    }

    #[verifier::loop_isolation(false)]
    fn room_arena_challenge(&mut self, room: &Room, rng: &mut Rng, cx: i32, cy: i32)
        requires
            old(self).wf(),
            room_inside(*room, old(self).width as int, old(self).height as int),
            cx == room.x + room.w / 2,
            cy == room.y + room.h / 2,
        ensures
            final(self).wf(),
            final(self).same_frame(old(self)),
            confined(old(self), final(self), *room),
    {
        // Oil (sand/blood) scattered in center area
        let row_start: i32 = room.y + 2;
        let row_end: i32 = room.y + room.h - 2;
        let mut row: i32 = row_start;
        while row < row_end
            invariant
                self.wf(),
                self.same_frame(old(self)),
                room_inside(*room, self.width as int, self.height as int),
                confined(old(self), self, *room),
                row == row_start || (row_start <= row && row <= row_end),
            decreases row_end - row,
        {
            let y = row;
            row = row + 1;
            let col_start: i32 = room.x + 2;
            let col_end: i32 = room.x + room.w - 2;
            let mut col: i32 = col_start;
            while col < col_end
                invariant
                    self.wf(),
                    self.same_frame(old(self)),
                    room_inside(*room, self.width as int, self.height as int),
                    confined(old(self), self, *room),
                    col == col_start || (col_start <= col && col <= col_end),
                decreases col_end - col,
            {
                let x = col;
                col = col + 1;
                if self.in_bounds(x, y) && rng.next_u64() % 5 == 0 {
                    if self.tile(x, y) == Tile::Floor {
                        self.put_near(x, y, Tile::Oil, Ghost(*room));
                    }
                }
            }
        }
        // Spikes inner border
        let col_start: i32 = room.x + 1;
        let col_end: i32 = room.x + room.w - 1;
        let mut col: i32 = col_start;
        while col < col_end
            invariant
                self.wf(),
                self.same_frame(old(self)),
                room_inside(*room, self.width as int, self.height as int),
                confined(old(self), self, *room),
                col == col_start || (col_start <= col && col <= col_end),
            decreases col_end - col,
        {
            let x = col;
            col = col + 1;
            let lines = [room.y + 1, room.y + room.h - 2];
            let mut li: usize = 0;
            while li < lines.len()
                invariant
                    self.wf(),
                    self.same_frame(old(self)),
                    room_inside(*room, self.width as int, self.height as int),
                    confined(old(self), self, *room),
                decreases lines.len() - li,
            {
                let y = lines[li];
                li += 1;
                if self.in_bounds(x, y) {
                    if matches!(self.tile(x, y), Tile::Floor | Tile::Oil) {
                        self.put_near(x, y, Tile::Spikes, Ghost(*room));
                    }
                }
            }
        }
        let row_start: i32 = room.y + 1;
        let row_end: i32 = room.y + room.h - 1;
        let mut row: i32 = row_start;
        while row < row_end
            invariant
                self.wf(),
                self.same_frame(old(self)),
                room_inside(*room, self.width as int, self.height as int),
                confined(old(self), self, *room),
                row == row_start || (row_start <= row && row <= row_end),
            decreases row_end - row,
        {
            let y = row;
            row = row + 1;
            let lines = [room.x + 1, room.x + room.w - 2];
            let mut li: usize = 0;
            while li < lines.len()
                invariant
                    self.wf(),
                    self.same_frame(old(self)),
                    room_inside(*room, self.width as int, self.height as int),
                    confined(old(self), self, *room),
                decreases lines.len() - li,
            {
                let x = lines[li];
                li += 1;
                if self.in_bounds(x, y) {
                    if matches!(self.tile(x, y), Tile::Floor | Tile::Oil) {
                        self.put_near(x, y, Tile::Spikes, Ghost(*room));
                    }
                }
            }
        }
        // Boulder pillars at corners
        let offsets = [(-2,-2),(2,-2),(-2,2),(2,2)];
        let mut oi: usize = 0;
        while oi < offsets.len()
            invariant
                self.wf(),
                self.same_frame(old(self)),
                room_inside(*room, self.width as int, self.height as int),
                confined(old(self), self, *room),
            decreases offsets.len() - oi,
        {
            let (dx, dy) = offsets[oi];
            oi += 1;
            let x = cx + dx;
            let y = cy + dy;
            if self.in_bounds(x, y) {
                if matches!(self.tile(x, y), Tile::Floor | Tile::Oil) {
                    self.put_near(x, y, Tile::Boulder, Ghost(*room));
                }
            }
        }
        // Pressure plate arena markers
        let offsets = [(-1,0),(1,0),(0,-1),(0,1)];
        let mut oi: usize = 0;
        while oi < offsets.len()
            invariant
                self.wf(),
                self.same_frame(old(self)),
                room_inside(*room, self.width as int, self.height as int),
                confined(old(self), self, *room),
            decreases offsets.len() - oi,
        {
            let (dx, dy) = offsets[oi];
            oi += 1;
            let x = cx + dx * 2;
            let y = cy + dy * 2;
            if self.in_bounds(x, y) {
                if matches!(self.tile(x, y), Tile::Floor | Tile::Oil) {
                    self.put_near(x, y, Tile::PressurePlate, Ghost(*room));
                }
            }
        }
    }

    #[verifier::loop_isolation(false)]
    fn room_elite_guard_post(&mut self, room: &Room, rng: &mut Rng, cx: i32, cy: i32)
        requires
            old(self).wf(),
            room_inside(*room, old(self).width as int, old(self).height as int),
            cx == room.x + room.w / 2,
            cy == room.y + room.h / 2,
        ensures
            final(self).wf(),
            final(self).same_frame(old(self)),
            confined(old(self), final(self), *room),
    {
        // Spikes (caltrops) near entrance
        let lines = [-2, -1, 1, 2];
        let mut li: usize = 0;
        while li < lines.len()
            invariant
                self.wf(),
                self.same_frame(old(self)),
                room_inside(*room, self.width as int, self.height as int),
                confined(old(self), self, *room),
            decreases lines.len() - li,
        {
            let dx = lines[li];
            li += 1;
            let x = cx + dx;
            let y = cy - 2;
            if self.in_bounds(x, y) {
                if self.tile(x, y) == Tile::Floor {
                    self.put_near(x, y, Tile::Spikes, Ghost(*room));
                }
            }
        }
        // Crate barricades on sides
        let offsets = [(-2,-1),(-2,1),(2,-1),(2,1)];
        let mut oi: usize = 0;
        while oi < offsets.len()
            invariant
                self.wf(),
                self.same_frame(old(self)),
                room_inside(*room, self.width as int, self.height as int),
                confined(old(self), self, *room),
            decreases offsets.len() - oi,
        {
            let (dx, dy) = offsets[oi];
            oi += 1;
            let x = cx + dx;
            let y = cy + dy;
            if self.in_bounds(x, y) {
                if self.tile(x, y) == Tile::Floor {
                    self.put_near(x, y, Tile::Crate, Ghost(*room));
                }
            }
        }
        // Boulder obstacles
        let offsets = [(-3, 0), (3, 0)];
        let mut oi: usize = 0;
        while oi < offsets.len()
            invariant
                self.wf(),
                self.same_frame(old(self)),
                room_inside(*room, self.width as int, self.height as int),
                confined(old(self), self, *room),
            decreases offsets.len() - oi,
        {
            let (dx, dy) = offsets[oi];
            oi += 1;
            let x = cx + dx;
            let y = cy + dy;
            if self.in_bounds(x, y) {
                if self.tile(x, y) == Tile::Floor {
                    self.put_near(x, y, Tile::Boulder, Ghost(*room));
                }
            }
        }
        // Pressure plates alarm strip
        let col_start: i32 = room.x + 1;
        let col_end: i32 = room.x + room.w - 1;
        let mut col: i32 = col_start;
        while col < col_end
            invariant
                self.wf(),
                self.same_frame(old(self)),
                room_inside(*room, self.width as int, self.height as int),
                confined(old(self), self, *room),
                col == col_start || (col_start <= col && col <= col_end),
            decreases col_end - col,
        {
            let x = col;
            col = col + 1;
            if self.in_bounds(x, cy) && x != cx {
                if self.tile(x, cy) == Tile::Floor {
                    self.put_near(x, cy, Tile::PressurePlate, Ghost(*room));
                }
            }
        }
    }

    #[verifier::loop_isolation(false)]
    fn room_trap_gauntlet(&mut self, room: &Room, rng: &mut Rng, cx: i32, cy: i32)
        requires
            old(self).wf(),
            room_inside(*room, old(self).width as int, old(self).height as int),
            cx == room.x + room.w / 2,
            cy == room.y + room.h / 2,
        ensures
            final(self).wf(),
            final(self).same_frame(old(self)),
            confined(old(self), final(self), *room),
    {
        // Oil slicks between spike rows
        let row_start: i32 = room.y + 1;
        let row_end: i32 = room.y + room.h - 1;
        let mut row: i32 = row_start;
        while row < row_end
            invariant
                self.wf(),
                self.same_frame(old(self)),
                room_inside(*room, self.width as int, self.height as int),
                confined(old(self), self, *room),
                row == row_start || (row_start <= row && row <= row_end),
            decreases row_end - row,
        {
            let y = row;
            row = row + 1;
            let col_start: i32 = room.x + 1;
            let col_end: i32 = room.x + room.w - 1;
            let mut col: i32 = col_start;
            while col < col_end
                invariant
                    self.wf(),
                    self.same_frame(old(self)),
                    room_inside(*room, self.width as int, self.height as int),
                    confined(old(self), self, *room),
                    col == col_start || (col_start <= col && col <= col_end),
                decreases col_end - col,
            {
                let x = col;
                col = col + 1;
                if self.in_bounds(x, y) && (x + y) % 3 == 0 {
                    if self.tile(x, y) == Tile::Floor {
                        self.put_near(x, y, Tile::Oil, Ghost(*room));
                    }
                }
            }
        }
        // Dense spike checkerboard
        let row_start: i32 = room.y + 1;
        let row_end: i32 = room.y + room.h - 1;
        let mut row: i32 = row_start;
        while row < row_end
            invariant
                self.wf(),
                self.same_frame(old(self)),
                room_inside(*room, self.width as int, self.height as int),
                confined(old(self), self, *room),
                row == row_start || (row_start <= row && row <= row_end),
            decreases row_end - row,
        {
            let y = row;
            row = row + 1;
            let col_start: i32 = room.x + 1;
            let col_end: i32 = room.x + room.w - 1;
            let mut col: i32 = col_start;
            while col < col_end
                invariant
                    self.wf(),
                    self.same_frame(old(self)),
                    room_inside(*room, self.width as int, self.height as int),
                    confined(old(self), self, *room),
                    col == col_start || (col_start <= col && col <= col_end),
                decreases col_end - col,
            {
                let x = col;
                col = col + 1;
                if self.in_bounds(x, y) && (x + y) % 2 == 0 {
                    if self.tile(x, y) == Tile::Floor {
                        self.put_near(x, y, Tile::Spikes, Ghost(*room));
                    }
                }
            }
        }
        // Boulder safe spots for cover
        let offsets = [(0,-1),(0,1),(-2,0)];
        let mut oi: usize = 0;
        while oi < offsets.len()
            invariant
                self.wf(),
                self.same_frame(old(self)),
                room_inside(*room, self.width as int, self.height as int),
                confined(old(self), self, *room),
            decreases offsets.len() - oi,
        {
            let (dx, dy) = offsets[oi];
            oi += 1;
            let x = cx + dx;
            let y = cy + dy;
            if self.in_bounds(x, y) {
                self.put_near(x, y, Tile::Boulder, Ghost(*room));
            }
        }
        // Pressure plate triggers
        let offsets = [(-1,-2),(1,-2),(-1,2),(1,2)];
        let mut oi: usize = 0;
        while oi < offsets.len()
            invariant
                self.wf(),
                self.same_frame(old(self)),
                room_inside(*room, self.width as int, self.height as int),
                confined(old(self), self, *room),
            decreases offsets.len() - oi,
        {
            let (dx, dy) = offsets[oi];
            oi += 1;
            let x = cx + dx;
            let y = cy + dy;
            if self.in_bounds(x, y) {
                self.put_near(x, y, Tile::PressurePlate, Ghost(*room));
            }
        }
        // Chest reward at far end
        let rx = room.x + room.w - 2;
        if self.in_bounds(rx, cy) {
            self.put_near(rx, cy, Tile::Chest, Ghost(*room));
        }
    }

    #[verifier::loop_isolation(false)]
    fn room_poison_maze(&mut self, room: &Room, rng: &mut Rng, cx: i32, cy: i32)
        requires
            old(self).wf(),
            room_inside(*room, old(self).width as int, old(self).height as int),
            cx == room.x + room.w / 2,
            cy == room.y + room.h / 2,
        ensures
            final(self).wf(),
            final(self).same_frame(old(self)),
            confined(old(self), final(self), *room),
    {
        // Gas walls forming corridors (structured pattern)
        let row_start: i32 = room.y + 1;
        let row_end: i32 = room.y + room.h - 1;
        let mut row: i32 = row_start;
        while row < row_end
            invariant
                self.wf(),
                self.same_frame(old(self)),
                room_inside(*room, self.width as int, self.height as int),
                confined(old(self), self, *room),
                row == row_start || (row_start <= row && row <= row_end),
            decreases row_end - row,
        {
            let y = row;
            row = row + 1;
            let col_start: i32 = room.x + 1;
            let col_end: i32 = room.x + room.w - 1;
            let mut col: i32 = col_start;
            while col < col_end
                invariant
                    self.wf(),
                    self.same_frame(old(self)),
                    room_inside(*room, self.width as int, self.height as int),
                    confined(old(self), self, *room),
                    col == col_start || (col_start <= col && col <= col_end),
                decreases col_end - col,
            {
                let x = col;
                col = col + 1;
                if self.in_bounds(x, y) {
                    let rel_x = x - room.x;
                    let rel_y = y - room.y;
                    let is_wall = (rel_x % 3 != 0) && (rel_y % 3 != 0);
                    if is_wall {
                        if self.tile(x, y) == Tile::Floor {
                            self.put_near(x, y, Tile::PoisonGas, Ghost(*room));
                        }
                    }
                }
            }
        }
        // Mushroom patches in gas corridors
        let row_start: i32 = room.y + 1;
        let row_end: i32 = room.y + room.h - 1;
        let mut row: i32 = row_start;
        while row < row_end
            invariant
                self.wf(),
                self.same_frame(old(self)),
                room_inside(*room, self.width as int, self.height as int),
                confined(old(self), self, *room),
                row == row_start || (row_start <= row && row <= row_end),
            decreases row_end - row,
        {
            let y = row;
            row = row + 1;
            let col_start: i32 = room.x + 1;
            let col_end: i32 = room.x + room.w - 1;
            let mut col: i32 = col_start;
            while col < col_end
                invariant
                    self.wf(),
                    self.same_frame(old(self)),
                    room_inside(*room, self.width as int, self.height as int),
                    confined(old(self), self, *room),
                    col == col_start || (col_start <= col && col <= col_end),
                decreases col_end - col,
            {
                let x = col;
                col = col + 1;
                if self.in_bounds(x, y) && rng.next_u64() % 8 == 0 {
                    if self.tile(x, y) == Tile::PoisonGas {
                        self.put_near(x, y, Tile::Mushroom, Ghost(*room));
                    }
                }
            }
        }
        // Water safe zones at corners
        let offsets = [(-2,-2),(2,-2),(-2,2),(2,2)];
        let mut oi: usize = 0;
        while oi < offsets.len()
            invariant
                self.wf(),
                self.same_frame(old(self)),
                room_inside(*room, self.width as int, self.height as int),
                confined(old(self), self, *room),
            decreases offsets.len() - oi,
        {
            let (dx, dy) = offsets[oi];
            oi += 1;
            let x = cx + dx;
            let y = cy + dy;
            if self.in_bounds(x, y) {
                if self.tile(x, y) == Tile::PoisonGas {
                    self.put_near(x, y, Tile::Water, Ghost(*room));
                }
            }
        }
        // Chest reward at center
        if self.in_bounds(cx, cy) {
            self.put_near(cx, cy, Tile::Chest, Ghost(*room));
        }
    }

    #[verifier::loop_isolation(false)]
    fn room_boulder_puzzle(&mut self, room: &Room, rng: &mut Rng, cx: i32, cy: i32)
        requires
            old(self).wf(),
            room_inside(*room, old(self).width as int, old(self).height as int),
            cx == room.x + room.w / 2,
            cy == room.y + room.h / 2,
        ensures
            final(self).wf(),
            final(self).same_frame(old(self)),
            confined(old(self), final(self), *room),
    {
        // Pressure plates at puzzle positions
        let plate_positions = [
            (cx - 1, cy - 1), (cx + 1, cy - 1),
            (cx - 1, cy + 1), (cx + 1, cy + 1),
        ];
        let boulder_positions = [
            (cx - 1, cy), (cx + 1, cy),
            (cx, cy - 1), (cx, cy + 1),
        ];
        let picks = plate_positions;
        let mut pi: usize = 0;
        while pi < picks.len()
            invariant
                self.wf(),
                self.same_frame(old(self)),
                room_inside(*room, self.width as int, self.height as int),
                confined(old(self), self, *room),
            decreases picks.len() - pi,
        {
            let (px, py) = picks[pi];
            pi += 1;
            if self.in_bounds(px, py) {
                if self.tile(px, py) == Tile::Floor {
                    self.put_near(px, py, Tile::PressurePlate, Ghost(*room));
                }
            }
        }
        let picks = boulder_positions;
        let mut pi: usize = 0;
        while pi < picks.len()
            invariant
                self.wf(),
                self.same_frame(old(self)),
                room_inside(*room, self.width as int, self.height as int),
                confined(old(self), self, *room),
            decreases picks.len() - pi,
        {
            let (bx, by) = picks[pi];
            pi += 1;
            if self.in_bounds(bx, by) {
                if self.tile(bx, by) == Tile::Floor {
                    self.put_near(bx, by, Tile::Boulder, Ghost(*room));
                }
            }
        }
        // Crystal markers near plates
        let offsets = [(-2,-2),(2,-2),(-2,2),(2,2)];
        let mut oi: usize = 0;
        while oi < offsets.len()
            invariant
                self.wf(),
                self.same_frame(old(self)),
                room_inside(*room, self.width as int, self.height as int),
                confined(old(self), self, *room),
            decreases offsets.len() - oi,
        {
            let (dx, dy) = offsets[oi];
            oi += 1;
            let x = cx + dx;
            let y = cy + dy;
            if self.in_bounds(x, y) {
                if self.tile(x, y) == Tile::Floor {
                    self.put_near(x, y, Tile::Crystal, Ghost(*room));
                }
            }
        }
        // Cracked wall hints
        let lines = [room.x + 1, room.x + room.w - 2];
        let mut li: usize = 0;
        while li < lines.len()
            invariant
                self.wf(),
                self.same_frame(old(self)),
                room_inside(*room, self.width as int, self.height as int),
                confined(old(self), self, *room),
            decreases lines.len() - li,
        {
            let x = lines[li];
            li += 1;
            if self.in_bounds(x, cy) {
                if self.tile(x, cy) == Tile::Floor {
                    self.put_near(x, cy, Tile::CrackedWall, Ghost(*room));
                }
            }
        }
        // Oil ground texture
        let row_start: i32 = room.y + 1;
        let row_end: i32 = room.y + room.h - 1;
        let mut row: i32 = row_start;
        while row < row_end
            invariant
                self.wf(),
                self.same_frame(old(self)),
                room_inside(*room, self.width as int, self.height as int),
                confined(old(self), self, *room),
                row == row_start || (row_start <= row && row <= row_end),
            decreases row_end - row,
        {
            let y = row;
            row = row + 1;
            let col_start: i32 = room.x + 1;
            let col_end: i32 = room.x + room.w - 1;
            let mut col: i32 = col_start;
            while col < col_end
                invariant
                    self.wf(),
                    self.same_frame(old(self)),
                    room_inside(*room, self.width as int, self.height as int),
                    confined(old(self), self, *room),
                    col == col_start || (col_start <= col && col <= col_end),
                decreases col_end - col,
            {
                let x = col;
                col = col + 1;
                if self.in_bounds(x, y) && rng.next_u64() % 6 == 0 {
                    if self.tile(x, y) == Tile::Floor {
                        self.put_near(x, y, Tile::Oil, Ghost(*room));
                    }
                }
            }
        }
        // Chest reward at center
        if self.in_bounds(cx, cy) {
            self.put_near(cx, cy, Tile::Chest, Ghost(*room));
        }
    }

    #[verifier::loop_isolation(false)]
    fn room_mirror_room(&mut self, room: &Room, rng: &mut Rng, cx: i32, cy: i32)
        requires
            old(self).wf(),
            room_inside(*room, old(self).width as int, old(self).height as int),
            cx == room.x + room.w / 2,
            cy == room.y + room.h / 2,
        ensures
            final(self).wf(),
            final(self).same_frame(old(self)),
            confined(old(self), final(self), *room),
    {
        // Ice reflective floor sections
        let row_start: i32 = room.y + 1;
        let row_end: i32 = room.y + room.h - 1;
        let mut row: i32 = row_start;
        while row < row_end
            invariant
                self.wf(),
                self.same_frame(old(self)),
                room_inside(*room, self.width as int, self.height as int),
                confined(old(self), self, *room),
                row == row_start || (row_start <= row && row <= row_end),
            decreases row_end - row,
        {
            let y = row;
            row = row + 1;
            let col_start: i32 = room.x + 1;
            let col_end: i32 = room.x + room.w - 1;
            let mut col: i32 = col_start;
            while col < col_end
                invariant
                    self.wf(),
                    self.same_frame(old(self)),
                    room_inside(*room, self.width as int, self.height as int),
                    confined(old(self), self, *room),
                    col == col_start || (col_start <= col && col <= col_end),
                decreases col_end - col,
            {
                let x = col;
                col = col + 1;
                if self.in_bounds(x, y) && (x + y) % 3 == 0 {
                    if self.tile(x, y) == Tile::Floor {
                        self.put_near(x, y, Tile::Ice, Ghost(*room));
                    }
                }
            }
        }
        // Water accents at edges
        let offsets = [(-3,0),(3,0),(0,-3),(0,3)];
        let mut oi: usize = 0;
        while oi < offsets.len()
            invariant
                self.wf(),
                self.same_frame(old(self)),
                room_inside(*room, self.width as int, self.height as int),
                confined(old(self), self, *room),
            decreases offsets.len() - oi,
        {
            let (dx, dy) = offsets[oi];
            oi += 1;
            let x = cx + dx;
            let y = cy + dy;
            if self.in_bounds(x, y) {
                if matches!(self.tile(x, y), Tile::Floor | Tile::Ice) {
                    self.put_near(x, y, Tile::Water, Ghost(*room));
                }
            }
        }
        // Crystal walls forming diamond pattern
        let offsets = [(-2,0),(2,0),(0,-2),(0,2),(-1,-1),(1,-1),(-1,1),(1,1)];
        let mut oi: usize = 0;
        while oi < offsets.len()
            invariant
                self.wf(),
                self.same_frame(old(self)),
                room_inside(*room, self.width as int, self.height as int),
                confined(old(self), self, *room),
            decreases offsets.len() - oi,
        {
            let (dx, dy) = offsets[oi];
            oi += 1;
            let x = cx + dx;
            let y = cy + dy;
            if self.in_bounds(x, y) {
                self.put_near(x, y, Tile::Crystal, Ghost(*room));
            }
        }
        // Mirror pool at center
        if self.in_bounds(cx, cy) {
            self.put_near(cx, cy, Tile::MirrorPool, Ghost(*room));
        }
    }

    #[verifier::loop_isolation(false)]
    fn room_elemental_nexus(&mut self, room: &Room, rng: &mut Rng, cx: i32, cy: i32)
        requires
            old(self).wf(),
            room_inside(*room, old(self).width as int, old(self).height as int),
            cx == room.x + room.w / 2,
            cy == room.y + room.h / 2,
        ensures
            final(self).wf(),
            final(self).same_frame(old(self)),
            confined(old(self), final(self), *room),
    {
        // Elemental tiles around each altar
        // Water around Gale (west)
        let offsets = [(-3,-1),(-3,1),(-1,-1)];
        let mut oi: usize = 0;
        while oi < offsets.len()
            invariant
                self.wf(),
                self.same_frame(old(self)),
                room_inside(*room, self.width as int, self.height as int),
                confined(old(self), self, *room),
            decreases offsets.len() - oi,
        {
            let (dx, dy) = offsets[oi];
            oi += 1;
            let x = cx + dx;
            let y = cy + dy;
            if self.in_bounds(x, y) {
                if self.tile(x, y) == Tile::Floor {
                    self.put_near(x, y, Tile::Water, Ghost(*room));
                }
            }
        }
        // Lava around Iron (east)
        let offsets = [(3,-1),(3,1),(1,1)];
        let mut oi: usize = 0;
        while oi < offsets.len()
            invariant
                self.wf(),
                self.same_frame(old(self)),
                room_inside(*room, self.width as int, self.height as int),
                confined(old(self), self, *room),
            decreases offsets.len() - oi,
        {
            let (dx, dy) = offsets[oi];
            oi += 1;
            let x = cx + dx;
            let y = cy + dy;
            if self.in_bounds(x, y) {
                if self.tile(x, y) == Tile::Floor {
                    self.put_near(x, y, Tile::Lava, Ghost(*room));
                }
            }
        }
        // Ice around Mirror (north)
        let offsets = [(-1,-3),(1,-3),(-1,-1)];
        let mut oi: usize = 0;
        while oi < offsets.len()
            invariant
                self.wf(),
                self.same_frame(old(self)),
                room_inside(*room, self.width as int, self.height as int),
                confined(old(self), self, *room),
            decreases offsets.len() - oi,
        {
            let (dx, dy) = offsets[oi];
            oi += 1;
            let x = cx + dx;
            let y = cy + dy;
            if self.in_bounds(x, y) {
                if self.tile(x, y) == Tile::Floor {
                    self.put_near(x, y, Tile::Ice, Ghost(*room));
                }
            }
        }
        // Crystal around Gold (south)
        let offsets = [(-1,3),(1,3),(1,-1)];
        let mut oi: usize = 0;
        while oi < offsets.len()
            invariant
                self.wf(),
                self.same_frame(old(self)),
                room_inside(*room, self.width as int, self.height as int),
                confined(old(self), self, *room),
            decreases offsets.len() - oi,
        {
            let (dx, dy) = offsets[oi];
            oi += 1;
            let x = cx + dx;
            let y = cy + dy;
            if self.in_bounds(x, y) {
                if self.tile(x, y) == Tile::Floor {
                    self.put_near(x, y, Tile::Crystal, Ghost(*room));
                }
            }
        }
        // Bamboo around Jade (center)
        let offsets = [(-1,0),(1,0),(0,-1),(0,1)];
        let mut oi: usize = 0;
        while oi < offsets.len()
            invariant
                self.wf(),
                self.same_frame(old(self)),
                room_inside(*room, self.width as int, self.height as int),
                confined(old(self), self, *room),
            decreases offsets.len() - oi,
        {
            let (dx, dy) = offsets[oi];
            oi += 1;
            let x = cx + dx;
            let y = cy + dy;
            if self.in_bounds(x, y) {
                if self.tile(x, y) == Tile::Floor {
                    self.put_near(x, y, Tile::Bamboo, Ghost(*room));
                }
            }
        }
        // 5 elemental altars in cross pattern
        let positions = [
            (cx, cy, AltarKind::Jade),
            (cx - 2, cy, AltarKind::Gale),
            (cx + 2, cy, AltarKind::Iron),
            (cx, cy - 2, AltarKind::Mirror),
            (cx, cy + 2, AltarKind::Gold),
        ];
        let picks = positions;
        let mut pi: usize = 0;
        while pi < picks.len()
            invariant
                self.wf(),
                self.same_frame(old(self)),
                room_inside(*room, self.width as int, self.height as int),
                confined(old(self), self, *room),
            decreases picks.len() - pi,
        {
            let (x, y, kind) = picks[pi];
            pi += 1;
            if self.in_bounds(x, y) {
                self.put_near(x, y, Tile::Altar(kind), Ghost(*room));
            }
        }
    }

    #[verifier::loop_isolation(false)]
    fn room_graveyard_rise(&mut self, room: &Room, rng: &mut Rng, cx: i32, cy: i32)
        requires
            old(self).wf(),
            room_inside(*room, old(self).width as int, old(self).height as int),
            cx == room.x + room.w / 2,
            cy == room.y + room.h / 2,
        ensures
            final(self).wf(),
            final(self).same_frame(old(self)),
            confined(old(self), final(self), *room),
    {
        // Grid of spikes (tombstones) in rows
        let row_start: i32 = room.y + 1;
        let row_end: i32 = room.y + room.h - 1;
        let mut row: i32 = row_start;
        while row < row_end
            invariant
                self.wf(),
                self.same_frame(old(self)),
                room_inside(*room, self.width as int, self.height as int),
                confined(old(self), self, *room),
                row == row_start || (row_start <= row && row <= row_end),
            decreases row_end - row,
        {
            let y = row;
            row = row + 1;
            let col_start: i32 = room.x + 1;
            let col_end: i32 = room.x + room.w - 1;
            let mut col: i32 = col_start;
            while col < col_end
                invariant
                    self.wf(),
                    self.same_frame(old(self)),
                    room_inside(*room, self.width as int, self.height as int),
                    confined(old(self), self, *room),
                    col == col_start || (col_start <= col && col <= col_end),
                decreases col_end - col,
            {
                let x = col;
                col = col + 1;
                if self.in_bounds(x, y) && (x - room.x) % 2 == 1 && (y - room.y) % 2 == 1 {
                    if self.tile(x, y) == Tile::Floor {
                        self.put_near(x, y, Tile::Spikes, Ghost(*room));
                    }
                }
            }
        }
        // Oil (disturbed earth) between tombstones
        let row_start: i32 = room.y + 1;
        let row_end: i32 = room.y + room.h - 1;
        let mut row: i32 = row_start;
        while row < row_end
            invariant
                self.wf(),
                self.same_frame(old(self)),
                room_inside(*room, self.width as int, self.height as int),
                confined(old(self), self, *room),
                row == row_start || (row_start <= row && row <= row_end),
            decreases row_end - row,
        {
            let y = row;
            row = row + 1;
            let col_start: i32 = room.x + 1;
            let col_end: i32 = room.x + room.w - 1;
            let mut col: i32 = col_start;
            while col < col_end
                invariant
                    self.wf(),
                    self.same_frame(old(self)),
                    room_inside(*room, self.width as int, self.height as int),
                    confined(old(self), self, *room),
                    col == col_start || (col_start <= col && col <= col_end),
                decreases col_end - col,
            {
                let x = col;
                col = col + 1;
                if self.in_bounds(x, y) && rng.next_u64() % 5 == 0 {
                    if self.tile(x, y) == Tile::Floor {
                        self.put_near(x, y, Tile::Oil, Ghost(*room));
                    }
                }
            }
        }
        // Mushroom (dead flowers) near graves
        let offsets = [(-2,-2),(2,-2),(-2,2),(2,2),(0,0)];
        let mut oi: usize = 0;
        while oi < offsets.len()
            invariant
                self.wf(),
                self.same_frame(old(self)),
                room_inside(*room, self.width as int, self.height as int),
                confined(old(self), self, *room),
            decreases offsets.len() - oi,
        {
            let (dx, dy) = offsets[oi];
            oi += 1;
            let x = cx + dx;
            let y = cy + dy;
            if self.in_bounds(x, y) {
                if self.tile(x, y) == Tile::Floor {
                    self.put_near(x, y, Tile::Mushroom, Ghost(*room));
                }
            }
        }
        // CursedFloor path through cemetery
        let col_start: i32 = room.x + 1;
        let col_end: i32 = room.x + room.w - 1;
        let mut col: i32 = col_start;
        while col < col_end
            invariant
                self.wf(),
                self.same_frame(old(self)),
                room_inside(*room, self.width as int, self.height as int),
                confined(old(self), self, *room),
                col == col_start || (col_start <= col && col <= col_end),
            decreases col_end - col,
        {
            let x = col;
            col = col + 1;
            if self.in_bounds(x, cy) {
                if self.tile(x, cy) == Tile::Floor {
                    self.put_near(x, cy, Tile::CursedFloor, Ghost(*room));
                }
            }
        }
    }

    #[verifier::loop_isolation(false)]
    fn room_bandit_ambush(&mut self, room: &Room, rng: &mut Rng, cx: i32, cy: i32)
        requires
            old(self).wf(),
            room_inside(*room, old(self).width as int, old(self).height as int),
            cx == room.x + room.w / 2,
            cy == room.y + room.h / 2,
        ensures
            final(self).wf(),
            final(self).same_frame(old(self)),
            confined(old(self), final(self), *room),
    {
        // Oil (escape routes / slippery floor)
        let row_start: i32 = room.y + 1;
        let row_end: i32 = room.y + room.h - 1;
        let mut row: i32 = row_start;
        while row < row_end
            invariant
                self.wf(),
                self.same_frame(old(self)),
                room_inside(*room, self.width as int, self.height as int),
                confined(old(self), self, *room),
                row == row_start || (row_start <= row && row <= row_end),
            decreases row_end - row,
        {
            let y = row;
            row = row + 1;
            let col_start: i32 = room.x + 1;
            let col_end: i32 = room.x + room.w - 1;
            let mut col: i32 = col_start;
            while col < col_end
                invariant
                    self.wf(),
                    self.same_frame(old(self)),
                    room_inside(*room, self.width as int, self.height as int),
                    confined(old(self), self, *room),
                    col == col_start || (col_start <= col && col <= col_end),
                decreases col_end - col,
            {
                let x = col;
                col = col + 1;
                if self.in_bounds(x, y) && rng.next_u64() % 6 == 0 {
                    if self.tile(x, y) == Tile::Floor {
                        self.put_near(x, y, Tile::Oil, Ghost(*room));
                    }
                }
            }
        }
        // Crate hiding spots forming ambush positions
        let offsets = [(-2,-2),(2,-2),(-2,2),(2,2),(-3,0),(3,0),(0,-2),(0,2)];
        let mut oi: usize = 0;
        while oi < offsets.len()
            invariant
                self.wf(),
                self.same_frame(old(self)),
                room_inside(*room, self.width as int, self.height as int),
                confined(old(self), self, *room),
            decreases offsets.len() - oi,
        {
            let (dx, dy) = offsets[oi];
            oi += 1;
            let x = cx + dx;
            let y = cy + dy;
            if self.in_bounds(x, y) {
                if matches!(self.tile(x, y), Tile::Floor | Tile::Oil) {
                    self.put_near(x, y, Tile::Crate, Ghost(*room));
                }
            }
        }
        // Hidden traps near gold
        let offsets = [(-1,0),(1,0),(0,-1)];
        let mut oi: usize = 0;
        while oi < offsets.len()
            invariant
                self.wf(),
                self.same_frame(old(self)),
                room_inside(*room, self.width as int, self.height as int),
                confined(old(self), self, *room),
            decreases offsets.len() - oi,
        {
            let (dx, dy) = offsets[oi];
            oi += 1;
            let x = cx + dx;
            let y = cy + dy;
            if self.in_bounds(x, y) {
                let trap_type = (rng.next_u64() % 3) as u8;
                if matches!(self.tile(x, y), Tile::Floor | Tile::Oil) {
                    self.put_near(x, y, Tile::Trap(trap_type), Ghost(*room));
                }
            }
        }
        // Gold bait in center
        if self.in_bounds(cx, cy) {
            self.put_near(cx, cy, Tile::GoldPile, Ghost(*room));
        }
    }

    #[verifier::loop_isolation(false)]
    fn room_duel_circle(&mut self, room: &Room, rng: &mut Rng, cx: i32, cy: i32)
        requires
            old(self).wf(),
            room_inside(*room, old(self).width as int, old(self).height as int),
            cx == room.x + room.w / 2,
            cy == room.y + room.h / 2,
        ensures
            final(self).wf(),
            final(self).same_frame(old(self)),
            confined(old(self), final(self), *room),
    {
        // Oil (sand pit) inside circle
        let step_start: i32 = -1;
        let step_end: i32 = 1;
        let mut step: i32 = step_start;
        while step <= step_end
            invariant
                self.wf(),
                self.same_frame(old(self)),
                room_inside(*room, self.width as int, self.height as int),
                confined(old(self), self, *room),
                step == step_start || (step_start <= step && step <= step_end + 1),
            decreases step_end + 1 - step,
        {
            let dy = step;
            step = step + 1;
            let step_start: i32 = -1;
            let step_end: i32 = 1;
            let mut step: i32 = step_start;
            while step <= step_end
                invariant
                    self.wf(),
                    self.same_frame(old(self)),
                    room_inside(*room, self.width as int, self.height as int),
                    confined(old(self), self, *room),
                    step == step_start || (step_start <= step && step <= step_end + 1),
                decreases step_end + 1 - step,
            {
                let dx = step;
                step = step + 1;
                let x = cx + dx;
                let y = cy + dy;
                if self.in_bounds(x, y) {
                    if self.tile(x, y) == Tile::Floor {
                        self.put_near(x, y, Tile::Oil, Ghost(*room));
                    }
                }
            }
        }
        // Spikes outer boundary
        let offsets = [(-3,0),(3,0),(0,-3),(0,3),(-3,-1),(-3,1),(3,-1),(3,1)];
        let mut oi: usize = 0;
        while oi < offsets.len()
            invariant
                self.wf(),
                self.same_frame(old(self)),
                room_inside(*room, self.width as int, self.height as int),
                confined(old(self), self, *room),
            decreases offsets.len() - oi,
        {
            let (dx, dy) = offsets[oi];
            oi += 1;
            let x = cx + dx;
            let y = cy + dy;
            if self.in_bounds(x, y) {
                if self.tile(x, y) == Tile::Floor {
                    self.put_near(x, y, Tile::Spikes, Ghost(*room));
                }
            }
        }
        // Boulder pillars at far corners
        let offsets = [(-3,-2),(3,-2),(-3,2),(3,2)];
        let mut oi: usize = 0;
        while oi < offsets.len()
            invariant
                self.wf(),
                self.same_frame(old(self)),
                room_inside(*room, self.width as int, self.height as int),
                confined(old(self), self, *room),
            decreases offsets.len() - oi,
        {
            let (dx, dy) = offsets[oi];
            oi += 1;
            let x = cx + dx;
            let y = cy + dy;
            if self.in_bounds(x, y) {
                if self.tile(x, y) == Tile::Floor {
                    self.put_near(x, y, Tile::Boulder, Ghost(*room));
                }
            }
        }
        // Pressure plate ring
        let offsets = [(-2,0),(2,0),(0,-2),(0,2),(-1,-1),(1,-1),(-1,1),(1,1),];
        let mut oi: usize = 0;
        while oi < offsets.len()
            invariant
                self.wf(),
                self.same_frame(old(self)),
                room_inside(*room, self.width as int, self.height as int),
                confined(old(self), self, *room),
            decreases offsets.len() - oi,
        {
            let (dx, dy) = offsets[oi];
            oi += 1;
            let x = cx + dx;
            let y = cy + dy;
            if self.in_bounds(x, y) {
                self.put_near(x, y, Tile::PressurePlate, Ghost(*room));
            }
        }
    }

    #[verifier::loop_isolation(false)]
    fn room_library(&mut self, room: &Room, rng: &mut Rng, cx: i32, cy: i32)
        requires
            old(self).wf(),
            room_inside(*room, old(self).width as int, old(self).height as int),
            cx == room.x + room.w / 2,
            cy == room.y + room.h / 2,
        ensures
            final(self).wf(),
            final(self).same_frame(old(self)),
            confined(old(self), final(self), *room),
    {
        // Rows of bookshelves with center aisle
        let row_start: i32 = room.y + 1;
        let row_end: i32 = room.y + room.h - 1;
        let mut row: i32 = row_start;
        while row < row_end
            invariant
                self.wf(),
                self.same_frame(old(self)),
                room_inside(*room, self.width as int, self.height as int),
                confined(old(self), self, *room),
                row == row_start || (row_start <= row && row <= row_end),
            decreases row_end - row,
        {
            let y = row;
            row = row + 1;
            if (y - room.y) % 2 == 0 {
                let col_start: i32 = room.x + 1;
                let col_end: i32 = room.x + room.w - 1;
                let mut col: i32 = col_start;
                while col < col_end
                    invariant
                        self.wf(),
                        self.same_frame(old(self)),
                        room_inside(*room, self.width as int, self.height as int),
                        confined(old(self), self, *room),
                        col == col_start || (col_start <= col && col <= col_end),
                    decreases col_end - col,
                {
                    let x = col;
                    col = col + 1;
                    if x != cx && self.in_bounds(x, y) {
                        if self.tile(x, y) == Tile::Floor {
                            self.put_near(x, y, Tile::Bookshelf, Ghost(*room));
                        }
                    }
                }
            }
        }
        // Crystal lanterns at end of bookshelf rows
        let row_start: i32 = room.y + 1;
        let row_end: i32 = room.y + room.h - 1;
        let mut row: i32 = row_start;
        while row < row_end
            invariant
                self.wf(),
                self.same_frame(old(self)),
                room_inside(*room, self.width as int, self.height as int),
                confined(old(self), self, *room),
                row == row_start || (row_start <= row && row <= row_end),
            decreases row_end - row,
        {
            let y = row;
            row = row + 1;
            if (y - room.y) % 2 == 0 {
                let lines = [room.x + 1, room.x + room.w - 2];
                let mut li: usize = 0;
                while li < lines.len()
                    invariant
                        self.wf(),
                        self.same_frame(old(self)),
                        room_inside(*room, self.width as int, self.height as int),
                        confined(old(self), self, *room),
                    decreases lines.len() - li,
                {
                    let x = lines[li];
                    li += 1;
                    if self.in_bounds(x, y) {
                        if self.tile(x, y) == Tile::Bookshelf {
                            self.put_near(x, y, Tile::Crystal, Ghost(*room));
                        }
                    }
                }
            }
        }
        // Crate (reading desks) in aisle
        let row_start: i32 = room.y + 2;
        let row_end: i32 = room.y + room.h - 2;
        let mut row: i32 = row_start;
        while row < row_end
            invariant
                self.wf(),
                self.same_frame(old(self)),
                room_inside(*room, self.width as int, self.height as int),
                confined(old(self), self, *room),
                row == row_start || (row_start <= row && row <= row_end),
            decreases row_end - row,
        {
            let y = row;
            row = row + 1;
            if (y - room.y) % 4 == 1 && self.in_bounds(cx, y) {
                if self.tile(cx, y) == Tile::Floor {
                    self.put_near(cx, y, Tile::Crate, Ghost(*room));
                }
            }
        }
        // InkWell at study positions
        let offsets = [(-1, 1), (1, 1)];
        let mut oi: usize = 0;
        while oi < offsets.len()
            invariant
                self.wf(),
                self.same_frame(old(self)),
                room_inside(*room, self.width as int, self.height as int),
                confined(old(self), self, *room),
            decreases offsets.len() - oi,
        {
            let (dx, dy) = offsets[oi];
            oi += 1;
            let x = cx + dx;
            let y = cy + dy;
            if self.in_bounds(x, y) {
                if self.tile(x, y) == Tile::Floor {
                    self.put_near(x, y, Tile::InkWell, Ghost(*room));
                }
            }
        }
    }

    #[verifier::loop_isolation(false)]
    fn room_calligraphy_hall(&mut self, room: &Room, rng: &mut Rng, cx: i32, cy: i32)
        requires
            old(self).wf(),
            room_inside(*room, old(self).width as int, old(self).height as int),
            cx == room.x + room.w / 2,
            cy == room.y + room.h / 2,
        ensures
            final(self).wf(),
            final(self).same_frame(old(self)),
            confined(old(self), final(self), *room),
    {
        // Crystal lighting overhead
        let lines = [room.x + 1, room.x + room.w - 2];
        let mut li: usize = 0;
        while li < lines.len()
            invariant
                self.wf(),
                self.same_frame(old(self)),
                room_inside(*room, self.width as int, self.height as int),
                confined(old(self), self, *room),
            decreases lines.len() - li,
        {
            let x = lines[li];
            li += 1;
            if self.in_bounds(x, cy) {
                if self.tile(x, cy) == Tile::Floor {
                    self.put_near(x, cy, Tile::Crystal, Ghost(*room));
                }
            }
        }
        // Crate storage at corners
        let offsets = [(-3,-2),(3,-2),(-3,2),(3,2)];
        let mut oi: usize = 0;
        while oi < offsets.len()
            invariant
                self.wf(),
                self.same_frame(old(self)),
                room_inside(*room, self.width as int, self.height as int),
                confined(old(self), self, *room),
            decreases offsets.len() - oi,
        {
            let (dx, dy) = offsets[oi];
            oi += 1;
            let x = cx + dx;
            let y = cy + dy;
            if self.in_bounds(x, y) {
                if self.tile(x, y) == Tile::Floor {
                    self.put_near(x, y, Tile::Crate, Ghost(*room));
                }
            }
        }
        // Writing stations: bookshelf + inkwell pairs
        let lines = [-2, 0, 2];
        let mut li: usize = 0;
        while li < lines.len()
            invariant
                self.wf(),
                self.same_frame(old(self)),
                room_inside(*room, self.width as int, self.height as int),
                confined(old(self), self, *room),
            decreases lines.len() - li,
        {
            let dx = lines[li];
            li += 1;
            let x = cx + dx;
            if self.in_bounds(x, cy) {
                if self.tile(x, cy) == Tile::Floor {
                    self.put_near(x, cy, Tile::Bookshelf, Ghost(*room));
                }
            }
            if self.in_bounds(x, cy + 1) {
                if self.tile(x, cy + 1) == Tile::Floor {
                    self.put_near(x, cy + 1, Tile::InkWell, Ghost(*room));
                }
            }
        }
        // Additional bookshelf rows
        let lines = [-2, 0, 2];
        let mut li: usize = 0;
        while li < lines.len()
            invariant
                self.wf(),
                self.same_frame(old(self)),
                room_inside(*room, self.width as int, self.height as int),
                confined(old(self), self, *room),
            decreases lines.len() - li,
        {
            let dx = lines[li];
            li += 1;
            let x = cx + dx;
            if self.in_bounds(x, cy - 1) {
                if self.tile(x, cy - 1) == Tile::Floor {
                    self.put_near(x, cy - 1, Tile::Bookshelf, Ghost(*room));
                }
            }
        }
    }

    #[verifier::loop_isolation(false)]
    fn room_scholar_study(&mut self, room: &Room, rng: &mut Rng, cx: i32, cy: i32)
        requires
            old(self).wf(),
            room_inside(*room, old(self).width as int, old(self).height as int),
            cx == room.x + room.w / 2,
            cy == room.y + room.h / 2,
        ensures
            final(self).wf(),
            final(self).same_frame(old(self)),
            confined(old(self), final(self), *room),
    {
        // Bookshelves on north and south walls
        let col_start: i32 = room.x + 1;
        let col_end: i32 = room.x + room.w - 1;
        let mut col: i32 = col_start;
        while col < col_end
            invariant
                self.wf(),
                self.same_frame(old(self)),
                room_inside(*room, self.width as int, self.height as int),
                confined(old(self), self, *room),
                col == col_start || (col_start <= col && col <= col_end),
            decreases col_end - col,
        {
            let x = col;
            col = col + 1;
            let lines = [room.y + 1, room.y + room.h - 2];
            let mut li: usize = 0;
            while li < lines.len()
                invariant
                    self.wf(),
                    self.same_frame(old(self)),
                    room_inside(*room, self.width as int, self.height as int),
                    confined(old(self), self, *room),
                decreases lines.len() - li,
            {
                let y = lines[li];
                li += 1;
                if self.in_bounds(x, y) {
                    if self.tile(x, y) == Tile::Floor {
                        self.put_near(x, y, Tile::Bookshelf, Ghost(*room));
                    }
                }
            }
        }
        // Crystal lamp
        if self.in_bounds(cx + 1, cy) {
            if self.tile(cx + 1, cy) == Tile::Floor {
                self.put_near(cx + 1, cy, Tile::Crystal, Ghost(*room));
            }
        }
        // InkWell at desk
        if self.in_bounds(cx - 1, cy) {
            if self.tile(cx - 1, cy) == Tile::Floor {
                self.put_near(cx - 1, cy, Tile::InkWell, Ghost(*room));
            }
        }
        // Crate (desk)
        if self.in_bounds(cx, cy + 1) {
            if self.tile(cx, cy + 1) == Tile::Floor {
                self.put_near(cx, cy + 1, Tile::Crate, Ghost(*room));
            }
        }
        // Codex shrine at center
        if self.in_bounds(cx, cy) {
            self.put_near(cx, cy, Tile::CodexShrine, Ghost(*room));
        }
    }

    #[verifier::loop_isolation(false)]
    fn room_oracle_room(&mut self, room: &Room, rng: &mut Rng, cx: i32, cy: i32)
        requires
            old(self).wf(),
            room_inside(*room, old(self).width as int, old(self).height as int),
            cx == room.x + room.w / 2,
            cy == room.y + room.h / 2,
        ensures
            final(self).wf(),
            final(self).same_frame(old(self)),
            confined(old(self), final(self), *room),
    {
        // Water border accents
        let offsets = [(-3,0),(3,0),(0,-3),(0,3)];
        let mut oi: usize = 0;
        while oi < offsets.len()
            invariant
                self.wf(),
                self.same_frame(old(self)),
                room_inside(*room, self.width as int, self.height as int),
                confined(old(self), self, *room),
            decreases offsets.len() - oi,
        {
            let (dx, dy) = offsets[oi];
            oi += 1;
            let x = cx + dx;
            let y = cy + dy;
            if self.in_bounds(x, y) {
                if self.tile(x, y) == Tile::Floor {
                    self.put_near(x, y, Tile::Water, Ghost(*room));
                }
            }
        }
        // Bamboo curtains at edges
        let offsets = [(-3,-2),(-3,2),(3,-2),(3,2)];
        let mut oi: usize = 0;
        while oi < offsets.len()
            invariant
                self.wf(),
                self.same_frame(old(self)),
                room_inside(*room, self.width as int, self.height as int),
                confined(old(self), self, *room),
            decreases offsets.len() - oi,
        {
            let (dx, dy) = offsets[oi];
            oi += 1;
            let x = cx + dx;
            let y = cy + dy;
            if self.in_bounds(x, y) {
                if self.tile(x, y) == Tile::Floor {
                    self.put_near(x, y, Tile::Bamboo, Ghost(*room));
                }
            }
        }
        // Mushroom (incense) at corners
        let offsets = [(-2,-2),(2,-2),(-2,2),(2,2)];
        let mut oi: usize = 0;
        while oi < offsets.len()
            invariant
                self.wf(),
                self.same_frame(old(self)),
                room_inside(*room, self.width as int, self.height as int),
                confined(old(self), self, *room),
            decreases offsets.len() - oi,
        {
            let (dx, dy) = offsets[oi];
            oi += 1;
            let x = cx + dx;
            let y = cy + dy;
            if self.in_bounds(x, y) {
                if self.tile(x, y) == Tile::Floor {
                    self.put_near(x, y, Tile::Mushroom, Ghost(*room));
                }
            }
        }
        // Crystal ring around mirror pool
        let offsets = [(-1,-1),(1,-1),(-1,1),(1,1),(-1,0),(1,0),(0,-1),(0,1)];
        let mut oi: usize = 0;
        while oi < offsets.len()
            invariant
                self.wf(),
                self.same_frame(old(self)),
                room_inside(*room, self.width as int, self.height as int),
                confined(old(self), self, *room),
            decreases offsets.len() - oi,
        {
            let (dx, dy) = offsets[oi];
            oi += 1;
            let x = cx + dx;
            let y = cy + dy;
            if self.in_bounds(x, y) {
                self.put_near(x, y, Tile::Crystal, Ghost(*room));
            }
        }
        // Mirror pool at center
        if self.in_bounds(cx, cy) {
            self.put_near(cx, cy, Tile::MirrorPool, Ghost(*room));
        }
    }

    #[verifier::loop_isolation(false)]
    fn room_inscription_wall(&mut self, room: &Room, rng: &mut Rng, cx: i32, cy: i32)
        requires
            old(self).wf(),
            room_inside(*room, old(self).width as int, old(self).height as int),
            cx == room.x + room.w / 2,
            cy == room.y + room.h / 2,
        ensures
            final(self).wf(),
            final(self).same_frame(old(self)),
            confined(old(self), final(self), *room),
    {
        // Full bookshelf walls on left and right
        let row_start: i32 = room.y + 1;
        let row_end: i32 = room.y + room.h - 1;
        let mut row: i32 = row_start;
        while row < row_end
            invariant
                self.wf(),
                self.same_frame(old(self)),
                room_inside(*room, self.width as int, self.height as int),
                confined(old(self), self, *room),
                row == row_start || (row_start <= row && row <= row_end),
            decreases row_end - row,
        {
            let y = row;
            row = row + 1;
            let lines = [room.x + 1, room.x + room.w - 2];
            let mut li: usize = 0;
            while li < lines.len()
                invariant
                    self.wf(),
                    self.same_frame(old(self)),
                    room_inside(*room, self.width as int, self.height as int),
                    confined(old(self), self, *room),
                decreases lines.len() - li,
            {
                let x = lines[li];
                li += 1;
                if self.in_bounds(x, y) {
                    if self.tile(x, y) == Tile::Floor {
                        self.put_near(x, y, Tile::Bookshelf, Ghost(*room));
                    }
                }
            }
        }
        // Crystal lighting
        let offsets = [(-2, -2), (2, -2), (-2, 2), (2, 2)];
        let mut oi: usize = 0;
        while oi < offsets.len()
            invariant
                self.wf(),
                self.same_frame(old(self)),
                room_inside(*room, self.width as int, self.height as int),
                confined(old(self), self, *room),
            decreases offsets.len() - oi,
        {
            let (dx, dy) = offsets[oi];
            oi += 1;
            let x = cx + dx;
            let y = cy + dy;
            if self.in_bounds(x, y) {
                if self.tile(x, y) == Tile::Floor {
                    self.put_near(x, y, Tile::Crystal, Ghost(*room));
                }
            }
        }
        // InkWell for practice
        if self.in_bounds(cx + 1, cy) {
            if self.tile(cx + 1, cy) == Tile::Floor {
                self.put_near(cx + 1, cy, Tile::InkWell, Ghost(*room));
            }
        }
        // Radical garden at center
        if self.in_bounds(cx, cy) {
            self.put_near(cx, cy, Tile::RadicalGarden, Ghost(*room));
        }
    }

    #[verifier::loop_isolation(false)]
    fn room_master_dojo(&mut self, room: &Room, rng: &mut Rng, cx: i32, cy: i32)
        requires
            old(self).wf(),
            room_inside(*room, old(self).width as int, old(self).height as int),
            cx == room.x + room.w / 2,
            cy == room.y + room.h / 2,
        ensures
            final(self).wf(),
            final(self).same_frame(old(self)),
            confined(old(self), final(self), *room),
    {
        // Oil (training mat) in center area
        let step_start: i32 = -1;
        let step_end: i32 = 1;
        let mut step: i32 = step_start;
        while step <= step_end
            invariant
                self.wf(),
                self.same_frame(old(self)),
                room_inside(*room, self.width as int, self.height as int),
                confined(old(self), self, *room),
                step == step_start || (step_start <= step && step <= step_end + 1),
            decreases step_end + 1 - step,
        {
            let dy = step;
            step = step + 1;
            let step_start: i32 = -1;
            let step_end: i32 = 1;
            let mut step: i32 = step_start;
            while step <= step_end
                invariant
                    self.wf(),
                    self.same_frame(old(self)),
                    room_inside(*room, self.width as int, self.height as int),
                    confined(old(self), self, *room),
                    step == step_start || (step_start <= step && step <= step_end + 1),
                decreases step_end + 1 - step,
            {
                let dx = step;
                step = step + 1;
                let x = cx + dx;
                let y = cy + dy;
                if self.in_bounds(x, y) {
                    if self.tile(x, y) == Tile::Floor {
                        self.put_near(x, y, Tile::Oil, Ghost(*room));
                    }
                }
            }
        }
        // Crate (weapon rack) at side
        let offsets = [(-3, -1), (-3, 0), (-3, 1)];
        let mut oi: usize = 0;
        while oi < offsets.len()
            invariant
                self.wf(),
                self.same_frame(old(self)),
                room_inside(*room, self.width as int, self.height as int),
                confined(old(self), self, *room),
            decreases offsets.len() - oi,
        {
            let (dx, dy) = offsets[oi];
            oi += 1;
            let x = cx + dx;
            let y = cy + dy;
            if self.in_bounds(x, y) {
                if self.tile(x, y) == Tile::Floor {
                    self.put_near(x, y, Tile::Crate, Ghost(*room));
                }
            }
        }
        // Boulder (heavy bag) obstacles
        let offsets = [(3, -1), (3, 1)];
        let mut oi: usize = 0;
        while oi < offsets.len()
            invariant
                self.wf(),
                self.same_frame(old(self)),
                room_inside(*room, self.width as int, self.height as int),
                confined(old(self), self, *room),
            decreases offsets.len() - oi,
        {
            let (dx, dy) = offsets[oi];
            oi += 1;
            let x = cx + dx;
            let y = cy + dy;
            if self.in_bounds(x, y) {
                if self.tile(x, y) == Tile::Floor {
                    self.put_near(x, y, Tile::Boulder, Ghost(*room));
                }
            }
        }
        // Pressure plates (training dummies)
        let offsets = [(-2, -1), (2, -1), (-2, 1), (2, 1), (0, -2), (0, 2)];
        let mut oi: usize = 0;
        while oi < offsets.len()
            invariant
                self.wf(),
                self.same_frame(old(self)),
                room_inside(*room, self.width as int, self.height as int),
                confined(old(self), self, *room),
            decreases offsets.len() - oi,
        {
            let (dx, dy) = offsets[oi];
            oi += 1;
            let x = cx + dx;
            let y = cy + dy;
            if self.in_bounds(x, y) {
                self.put_near(x, y, Tile::PressurePlate, Ghost(*room));
            }
        }
    }

    #[verifier::loop_isolation(false)]
    fn room_meditation_chamber(&mut self, room: &Room, rng: &mut Rng, cx: i32, cy: i32)
        requires
            old(self).wf(),
            room_inside(*room, old(self).width as int, old(self).height as int),
            cx == room.x + room.w / 2,
            cy == room.y + room.h / 2,
        ensures
            final(self).wf(),
            final(self).same_frame(old(self)),
            confined(old(self), final(self), *room),
    {
        // Bamboo border accents
        let offsets = [(-3,-2),(-3,2),(3,-2),(3,2),(-3,0),(3,0)];
        let mut oi: usize = 0;
        while oi < offsets.len()
            invariant
                self.wf(),
                self.same_frame(old(self)),
                room_inside(*room, self.width as int, self.height as int),
                confined(old(self), self, *room),
            decreases offsets.len() - oi,
        {
            let (dx, dy) = offsets[oi];
            oi += 1;
            let x = cx + dx;
            let y = cy + dy;
            if self.in_bounds(x, y) {
                if self.tile(x, y) == Tile::Floor {
                    self.put_near(x, y, Tile::Bamboo, Ghost(*room));
                }
            }
        }
        // Mushroom (incense) at corners
        let offsets = [(-2,-2),(2,-2),(-2,2),(2,2)];
        let mut oi: usize = 0;
        while oi < offsets.len()
            invariant
                self.wf(),
                self.same_frame(old(self)),
                room_inside(*room, self.width as int, self.height as int),
                confined(old(self), self, *room),
            decreases offsets.len() - oi,
        {
            let (dx, dy) = offsets[oi];
            oi += 1;
            let x = cx + dx;
            let y = cy + dy;
            if self.in_bounds(x, y) {
                if self.tile(x, y) == Tile::Floor {
                    self.put_near(x, y, Tile::Mushroom, Ghost(*room));
                }
            }
        }
        // Water at cardinal positions
        let offsets = [(-1, 0), (1, 0), (0, -1), (0, 1)];
        let mut oi: usize = 0;
        while oi < offsets.len()
            invariant
                self.wf(),
                self.same_frame(old(self)),
                room_inside(*room, self.width as int, self.height as int),
                confined(old(self), self, *room),
            decreases offsets.len() - oi,
        {
            let (dx, dy) = offsets[oi];
            oi += 1;
            let x = cx + dx;
            let y = cy + dy;
            if self.in_bounds(x, y) {
                if self.tile(x, y) == Tile::Floor {
                    self.put_near(x, y, Tile::Water, Ghost(*room));
                }
            }
        }
        // Crystal candles at diagonal positions
        let offsets = [(-1,-1),(1,-1),(-1,1),(1,1)];
        let mut oi: usize = 0;
        while oi < offsets.len()
            invariant
                self.wf(),
                self.same_frame(old(self)),
                room_inside(*room, self.width as int, self.height as int),
                confined(old(self), self, *room),
            decreases offsets.len() - oi,
        {
            let (dx, dy) = offsets[oi];
            oi += 1;
            let x = cx + dx;
            let y = cy + dy;
            if self.in_bounds(x, y) {
                if self.tile(x, y) == Tile::Floor {
                    self.put_near(x, y, Tile::Crystal, Ghost(*room));
                }
            }
        }
        // Spirit spring at center
        if self.in_bounds(cx, cy) {
            self.put_near(cx, cy, Tile::SpiritSpringTile, Ghost(*room));
        }
    }

    #[verifier::loop_isolation(false)]
    fn room_translation_challenge(&mut self, room: &Room, rng: &mut Rng, cx: i32, cy: i32)
        requires
            old(self).wf(),
            room_inside(*room, old(self).width as int, old(self).height as int),
            cx == room.x + room.w / 2,
            cy == room.y + room.h / 2,
        ensures
            final(self).wf(),
            final(self).same_frame(old(self)),
            confined(old(self), final(self), *room),
    {
        // Bookshelves (reference texts) behind altars
        let step_start: i32 = -2;
        let step_end: i32 = 2;
        let mut step: i32 = step_start;
        while step <= step_end
            invariant
                self.wf(),
                self.same_frame(old(self)),
                room_inside(*room, self.width as int, self.height as int),
                confined(old(self), self, *room),
                step == step_start || (step_start <= step && step <= step_end + 1),
            decreases step_end + 1 - step,
        {
            let dx = step;
            step = step + 1;
            let x = cx + dx;
            if self.in_bounds(x, cy - 1) {
                if self.tile(x, cy - 1) == Tile::Floor {
                    self.put_near(x, cy - 1, Tile::Bookshelf, Ghost(*room));
                }
            }
        }
        // Crystal lighting
        let offsets = [(-2, 0), (2, 0)];
        let mut oi: usize = 0;
        while oi < offsets.len()
            invariant
                self.wf(),
                self.same_frame(old(self)),
                room_inside(*room, self.width as int, self.height as int),
                confined(old(self), self, *room),
            decreases offsets.len() - oi,
        {
            let (dx, dy) = offsets[oi];
            oi += 1;
            let x = cx + dx;
            let y = cy + dy;
            if self.in_bounds(x, y) {
                if self.tile(x, y) == Tile::Floor {
                    self.put_near(x, y, Tile::Crystal, Ghost(*room));
                }
            }
        }
        // InkWell at translation stations
        let step_start: i32 = -1;
        let step_end: i32 = 1;
        let mut step: i32 = step_start;
        while step <= step_end
            invariant
                self.wf(),
                self.same_frame(old(self)),
                room_inside(*room, self.width as int, self.height as int),
                confined(old(self), self, *room),
                step == step_start || (step_start <= step && step <= step_end + 1),
            decreases step_end + 1 - step,
        {
            let dx = step;
            step = step + 1;
            let x = cx + dx;
            if self.in_bounds(x, cy + 1) {
                if self.tile(x, cy + 1) == Tile::Floor {
                    self.put_near(x, cy + 1, Tile::InkWell, Ghost(*room));
                }
            }
        }
        // Translation altars in a row
        let step_start: i32 = -1;
        let step_end: i32 = 1;
        let mut step: i32 = step_start;
        while step <= step_end
            invariant
                self.wf(),
                self.same_frame(old(self)),
                room_inside(*room, self.width as int, self.height as int),
                confined(old(self), self, *room),
                step == step_start || (step_start <= step && step <= step_end + 1),
            decreases step_end + 1 - step,
        {
            let dx = step;
            step = step + 1;
            let x = cx + dx;
            if self.in_bounds(x, cy) {
                self.put_near(x, cy, Tile::TranslationAltar, Ghost(*room));
            }
        }
    }

    #[verifier::loop_isolation(false)]
    fn room_ancient_scroll(&mut self, room: &Room, rng: &mut Rng, cx: i32, cy: i32)
        requires
            old(self).wf(),
            room_inside(*room, old(self).width as int, old(self).height as int),
            cx == room.x + room.w / 2,
            cy == room.y + room.h / 2,
        ensures
            final(self).wf(),
            final(self).same_frame(old(self)),
            confined(old(self), final(self), *room),
    {
        // Mushroom (cobwebs) in corners
        let offsets = [(-2,-1),(2,-1),(-2,1),(2,1)];
        let mut oi: usize = 0;
        while oi < offsets.len()
            invariant
                self.wf(),
                self.same_frame(old(self)),
                room_inside(*room, self.width as int, self.height as int),
                confined(old(self), self, *room),
            decreases offsets.len() - oi,
        {
            let (dx, dy) = offsets[oi];
            oi += 1;
            let x = cx + dx;
            let y = cy + dy;
            if self.in_bounds(x, y) {
                if self.tile(x, y) == Tile::Floor {
                    self.put_near(x, y, Tile::Mushroom, Ghost(*room));
                }
            }
        }
        // Crystal lighting
        let offsets = [(-1, 0), (1, 0)];
        let mut oi: usize = 0;
        while oi < offsets.len()
            invariant
                self.wf(),
                self.same_frame(old(self)),
                room_inside(*room, self.width as int, self.height as int),
                confined(old(self), self, *room),
            decreases offsets.len() - oi,
        {
            let (dx, dy) = offsets[oi];
            oi += 1;
            let x = cx + dx;
            let y = cy + dy;
            if self.in_bounds(x, y) {
                if self.tile(x, y) == Tile::Floor {
                    self.put_near(x, y, Tile::Crystal, Ghost(*room));
                }
            }
        }
        // Cracked wall (age damage)
        if self.in_bounds(room.x + 1, cy + 1) {
            if self.tile(room.x + 1, cy + 1) == Tile::Floor {
                self.put_near(room.x + 1, cy + 1, Tile::CrackedWall, Ghost(*room));
            }
        }
        // Bookshelf alcove (expanded)
        let step_start: i32 = -1;
        let step_end: i32 = 1;
        let mut step: i32 = step_start;
        while step <= step_end
            invariant
                self.wf(),
                self.same_frame(old(self)),
                room_inside(*room, self.width as int, self.height as int),
                confined(old(self), self, *room),
                step == step_start || (step_start <= step && step <= step_end + 1),
            decreases step_end + 1 - step,
        {
            let dx = step;
            step = step + 1;
            let x = cx + dx;
            let lines = [cy - 1, cy - 2];
            let mut li: usize = 0;
            while li < lines.len()
                invariant
                    self.wf(),
                    self.same_frame(old(self)),
                    room_inside(*room, self.width as int, self.height as int),
                    confined(old(self), self, *room),
                decreases lines.len() - li,
            {
                let y = lines[li];
                li += 1;
                if self.in_bounds(x, y) {
                    if self.tile(x, y) == Tile::Floor {
                        self.put_near(x, y, Tile::Bookshelf, Ghost(*room));
                    }
                }
            }
        }
        // Chest (scroll) at center
        if self.in_bounds(cx, cy) {
            self.put_near(cx, cy, Tile::Chest, Ghost(*room));
        }
    }

    #[verifier::loop_isolation(false)]
    fn room_wisdom_well(&mut self, room: &Room, rng: &mut Rng, cx: i32, cy: i32)
        requires
            old(self).wf(),
            room_inside(*room, old(self).width as int, old(self).height as int),
            cx == room.x + room.w / 2,
            cy == room.y + room.h / 2,
        ensures
            final(self).wf(),
            final(self).same_frame(old(self)),
            confined(old(self), final(self), *room),
    {
        // Bookshelf (wisdom texts) at walls
        let offsets = [(-3, -1), (-3, 0), (-3, 1)];
        let mut oi: usize = 0;
        while oi < offsets.len()
            invariant
                self.wf(),
                self.same_frame(old(self)),
                room_inside(*room, self.width as int, self.height as int),
                confined(old(self), self, *room),
            decreases offsets.len() - oi,
        {
            let (dx, dy) = offsets[oi];
            oi += 1;
            let x = cx + dx;
            let y = cy + dy;
            if self.in_bounds(x, y) {
                if self.tile(x, y) == Tile::Floor {
                    self.put_near(x, y, Tile::Bookshelf, Ghost(*room));
                }
            }
        }
        // Crystal markers around well
        let offsets = [(-2,-2),(2,-2),(-2,2),(2,2)];
        let mut oi: usize = 0;
        while oi < offsets.len()
            invariant
                self.wf(),
                self.same_frame(old(self)),
                room_inside(*room, self.width as int, self.height as int),
                confined(old(self), self, *room),
            decreases offsets.len() - oi,
        {
            let (dx, dy) = offsets[oi];
            oi += 1;
            let x = cx + dx;
            let y = cy + dy;
            if self.in_bounds(x, y) {
                if self.tile(x, y) == Tile::Floor {
                    self.put_near(x, y, Tile::Crystal, Ghost(*room));
                }
            }
        }
        // Water ring around well
        let offsets = [(-1, 0), (1, 0), (0, -1), (0, 1),(-1,-1),(1,-1),(-1,1),(1,1)];
        let mut oi: usize = 0;
        while oi < offsets.len()
            invariant
                self.wf(),
                self.same_frame(old(self)),
                room_inside(*room, self.width as int, self.height as int),
                confined(old(self), self, *room),
            decreases offsets.len() - oi,
        {
            let (dx, dy) = offsets[oi];
            oi += 1;
            let x = cx + dx;
            let y = cy + dy;
            if self.in_bounds(x, y) {
                if self.tile(x, y) == Tile::Floor {
                    self.put_near(x, y, Tile::Water, Ghost(*room));
                }
            }
        }
        // Deep water well at center
        if self.in_bounds(cx, cy) {
            self.put_near(cx, cy, Tile::DeepWater, Ghost(*room));
        }
        // Stone tutor nearby
        if self.in_bounds(cx + 2, cy) {
            self.put_near(cx + 2, cy, Tile::StoneTutor, Ghost(*room));
        }
    }

    #[verifier::loop_isolation(false)]
    fn room_flooded_chamber(&mut self, room: &Room, rng: &mut Rng, cx: i32, cy: i32)
        requires
            old(self).wf(),
            room_inside(*room, old(self).width as int, old(self).height as int),
            cx == room.x + room.w / 2,
            cy == room.y + room.h / 2,
        ensures
            final(self).wf(),
            final(self).same_frame(old(self)),
            confined(old(self), final(self), *room),
    {
        // Most floor tiles become water, some deep water
        let row_start: i32 = room.y + 1;
        let row_end: i32 = room.y + room.h - 1;
        let mut row: i32 = row_start;
        while row < row_end
            invariant
                self.wf(),
                self.same_frame(old(self)),
                room_inside(*room, self.width as int, self.height as int),
                confined(old(self), self, *room),
                row == row_start || (row_start <= row && row <= row_end),
            decreases row_end - row,
        {
            let y = row;
            row = row + 1;
            let col_start: i32 = room.x + 1;
            let col_end: i32 = room.x + room.w - 1;
            let mut col: i32 = col_start;
            while col < col_end
                invariant
                    self.wf(),
                    self.same_frame(old(self)),
                    room_inside(*room, self.width as int, self.height as int),
                    confined(old(self), self, *room),
                    col == col_start || (col_start <= col && col <= col_end),
                decreases col_end - col,
            {
                let x = col;
                col = col + 1;
                if self.in_bounds(x, y) {
                    if self.tile(x, y) == Tile::Floor {
                        let new_tile = if rng.next_u64() % 5 == 0 {
                            Tile::DeepWater
                        } else {
                            Tile::Water
                        };
                        self.put_near(x, y, new_tile, Ghost(*room));
                    }
                }
            }
        }
        // Safe path through center row
        let col_start: i32 = room.x;
        let col_end: i32 = room.x + room.w;
        let mut col: i32 = col_start;
        while col < col_end
            invariant
                self.wf(),
                self.same_frame(old(self)),
                room_inside(*room, self.width as int, self.height as int),
                confined(old(self), self, *room),
                col == col_start || (col_start <= col && col <= col_end),
            decreases col_end - col,
        {
            let x = col;
            col = col + 1;
            if self.in_bounds(x, cy) {
                if matches!(self.tile(x, cy), Tile::Water | Tile::DeepWater) {
                    self.put_near(x, cy, Tile::Floor, Ghost(*room));
                }
            }
        }
        // Boulder stepping stones
        let offsets = [(-2,-2),(0,-2),(2,-2),(-2,2),(0,2),(2,2)];
        let mut oi: usize = 0;
        while oi < offsets.len()
            invariant
                self.wf(),
                self.same_frame(old(self)),
                room_inside(*room, self.width as int, self.height as int),
                confined(old(self), self, *room),
            decreases offsets.len() - oi,
        {
            let (dx, dy) = offsets[oi];
            oi += 1;
            let x = cx + dx;
            let y = cy + dy;
            if self.in_bounds(x, y) {
                if matches!(self.tile(x, y), Tile::Water | Tile::DeepWater) {
                    self.put_near(x, y, Tile::Boulder, Ghost(*room));
                }
            }
        }
        // Crystal cave formations
        let offsets = [(-3, 0), (3, 0)];
        let mut oi: usize = 0;
        while oi < offsets.len()
            invariant
                self.wf(),
                self.same_frame(old(self)),
                room_inside(*room, self.width as int, self.height as int),
                confined(old(self), self, *room),
            decreases offsets.len() - oi,
        {
            let (dx, dy) = offsets[oi];
            oi += 1;
            let x = cx + dx;
            let y = cy + dy;
            if self.in_bounds(x, y) {
                if matches!(self.tile(x, y), Tile::Water | Tile::DeepWater) {
                    self.put_near(x, y, Tile::Crystal, Ghost(*room));
                }
            }
        }
        // Mushroom (algae) patches
        let step_start: i32 = 0;
        let step_end: i32 = 3;
        let mut step: i32 = step_start;
        while step < step_end
            invariant
                self.wf(),
                self.same_frame(old(self)),
                room_inside(*room, self.width as int, self.height as int),
                confined(old(self), self, *room),
                step == step_start || (step_start <= step && step <= step_end),
            decreases step_end - step,
        {
            step = step + 1;
            let x = rng.range(room.x + 1, room.x + room.w - 1);
            let y = rng.range(room.y + 1, room.y + room.h - 1);
            if self.in_bounds(x, y) {
                if self.tile(x, y) == Tile::Water {
                    self.put_near(x, y, Tile::Mushroom, Ghost(*room));
                }
            }
        }
    }

    #[verifier::loop_isolation(false)]
    fn room_frozen_cavern(&mut self, room: &Room, rng: &mut Rng, cx: i32, cy: i32)
        requires
            old(self).wf(),
            room_inside(*room, old(self).width as int, old(self).height as int),
            cx == room.x + room.w / 2,
            cy == room.y + room.h / 2,
        ensures
            final(self).wf(),
            final(self).same_frame(old(self)),
            confined(old(self), final(self), *room),
    {
        // Ice tiles everywhere
        let row_start: i32 = room.y + 1;
        let row_end: i32 = room.y + room.h - 1;
        let mut row: i32 = row_start;
        while row < row_end
            invariant
                self.wf(),
                self.same_frame(old(self)),
                room_inside(*room, self.width as int, self.height as int),
                confined(old(self), self, *room),
                row == row_start || (row_start <= row && row <= row_end),
            decreases row_end - row,
        {
            let y = row;
            row = row + 1;
            let col_start: i32 = room.x + 1;
            let col_end: i32 = room.x + room.w - 1;
            let mut col: i32 = col_start;
            while col < col_end
                invariant
                    self.wf(),
                    self.same_frame(old(self)),
                    room_inside(*room, self.width as int, self.height as int),
                    confined(old(self), self, *room),
                    col == col_start || (col_start <= col && col <= col_end),
                decreases col_end - col,
            {
                let x = col;
                col = col + 1;
                if self.in_bounds(x, y) {
                    if self.tile(x, y) == Tile::Floor {
                        self.put_near(x, y, Tile::Ice, Ghost(*room));
                    }
                }
            }
        }
        // Crystal pillars
        let offsets = [(-2, -1), (2, -1), (-2, 1), (2, 1), (0, 0)];
        let mut oi: usize = 0;
        while oi < offsets.len()
            invariant
                self.wf(),
                self.same_frame(old(self)),
                room_inside(*room, self.width as int, self.height as int),
                confined(old(self), self, *room),
            decreases offsets.len() - oi,
        {
            let (dx, dy) = offsets[oi];
            oi += 1;
            let x = cx + dx;
            let y = cy + dy;
            if self.in_bounds(x, y) {
                if self.tile(x, y) == Tile::Ice {
                    self.put_near(x, y, Tile::Crystal, Ghost(*room));
                }
            }
        }
        // Boulder (frozen rocks)
        let offsets = [(-3, 0), (3, 0)];
        let mut oi: usize = 0;
        while oi < offsets.len()
            invariant
                self.wf(),
                self.same_frame(old(self)),
                room_inside(*room, self.width as int, self.height as int),
                confined(old(self), self, *room),
            decreases offsets.len() - oi,
        {
            let (dx, dy) = offsets[oi];
            oi += 1;
            let x = cx + dx;
            let y = cy + dy;
            if self.in_bounds(x, y) {
                if self.tile(x, y) == Tile::Ice {
                    self.put_near(x, y, Tile::Boulder, Ghost(*room));
                }
            }
        }
        // Water (frozen puddle edges)
        let offsets = [(-1,-2),(1,-2),(-1,2),(1,2)];
        let mut oi: usize = 0;
        while oi < offsets.len()
            invariant
                self.wf(),
                self.same_frame(old(self)),
                room_inside(*room, self.width as int, self.height as int),
                confined(old(self), self, *room),
            decreases offsets.len() - oi,
        {
            let (dx, dy) = offsets[oi];
            oi += 1;
            let x = cx + dx;
            let y = cy + dy;
            if self.in_bounds(x, y) {
                if self.tile(x, y) == Tile::Ice {
                    self.put_near(x, y, Tile::Water, Ghost(*room));
                }
            }
        }
    }

    #[verifier::loop_isolation(false)]
    fn room_lava_crossing(&mut self, room: &Room, rng: &mut Rng, cx: i32, cy: i32)
        requires
            old(self).wf(),
            room_inside(*room, old(self).width as int, old(self).height as int),
            cx == room.x + room.w / 2,
            cy == room.y + room.h / 2,
        ensures
            final(self).wf(),
            final(self).same_frame(old(self)),
            confined(old(self), final(self), *room),
    {
        // Lava floor
        let row_start: i32 = room.y + 1;
        let row_end: i32 = room.y + room.h - 1;
        let mut row: i32 = row_start;
        while row < row_end
            invariant
                self.wf(),
                self.same_frame(old(self)),
                room_inside(*room, self.width as int, self.height as int),
                confined(old(self), self, *room),
                row == row_start || (row_start <= row && row <= row_end),
            decreases row_end - row,
        {
            let y = row;
            row = row + 1;
            let col_start: i32 = room.x + 1;
            let col_end: i32 = room.x + room.w - 1;
            let mut col: i32 = col_start;
            while col < col_end
                invariant
                    self.wf(),
                    self.same_frame(old(self)),
                    room_inside(*room, self.width as int, self.height as int),
                    confined(old(self), self, *room),
                    col == col_start || (col_start <= col && col <= col_end),
                decreases col_end - col,
            {
                let x = col;
                col = col + 1;
                if self.in_bounds(x, y) {
                    if self.tile(x, y) == Tile::Floor {
                        self.put_near(x, y, Tile::Lava, Ghost(*room));
                    }
                }
            }
        }
        // Safe cross-shaped path
        let col_start: i32 = room.x;
        let col_end: i32 = room.x + room.w;
        let mut col: i32 = col_start;
        while col < col_end
            invariant
                self.wf(),
                self.same_frame(old(self)),
                room_inside(*room, self.width as int, self.height as int),
                confined(old(self), self, *room),
                col == col_start || (col_start <= col && col <= col_end),
            decreases col_end - col,
        {
            let x = col;
            col = col + 1;
            if self.in_bounds(x, cy) {
                if self.tile(x, cy) == Tile::Lava {
                    self.put_near(x, cy, Tile::Floor, Ghost(*room));
                }
            }
        }
        let row_start: i32 = room.y;
        let row_end: i32 = room.y + room.h;
        let mut row: i32 = row_start;
        while row < row_end
            invariant
                self.wf(),
                self.same_frame(old(self)),
                room_inside(*room, self.width as int, self.height as int),
                confined(old(self), self, *room),
                row == row_start || (row_start <= row && row <= row_end),
            decreases row_end - row,
        {
            let y = row;
            row = row + 1;
            if self.in_bounds(cx, y) {
                if self.tile(cx, y) == Tile::Lava {
                    self.put_near(cx, y, Tile::Floor, Ghost(*room));
                }
            }
        }
        // Boulder (heat-resistant rocks) on safe paths
        let offsets = [(-2, 0), (2, 0), (0, -2), (0, 2)];
        let mut oi: usize = 0;
        while oi < offsets.len()
            invariant
                self.wf(),
                self.same_frame(old(self)),
                room_inside(*room, self.width as int, self.height as int),
                confined(old(self), self, *room),
            decreases offsets.len() - oi,
        {
            let (dx, dy) = offsets[oi];
            oi += 1;
            let x = cx + dx;
            let y = cy + dy;
            if self.in_bounds(x, y) {
                if self.tile(x, y) == Tile::Floor {
                    self.put_near(x, y, Tile::Boulder, Ghost(*room));
                }
            }
        }
        // Gold ore (volcanic deposits) on walls
        let offsets = [(-3,-2),(3,-2),(-3,2),(3,2)];
        let mut oi: usize = 0;
        while oi < offsets.len()
            invariant
                self.wf(),
                self.same_frame(old(self)),
                room_inside(*room, self.width as int, self.height as int),
                confined(old(self), self, *room),
            decreases offsets.len() - oi,
        {
            let (dx, dy) = offsets[oi];
            oi += 1;
            let x = cx + dx;
            let y = cy + dy;
            if self.in_bounds(x, y) {
                if self.tile(x, y) == Tile::Lava {
                    self.put_near(x, y, Tile::GoldOre, Ghost(*room));
                }
            }
        }
        // Chest reward at far corner
        let rx = room.x + room.w - 2;
        let ry = room.y + 1;
        if self.in_bounds(rx, ry) {
            self.put_near(rx, ry, Tile::Chest, Ghost(*room));
        }
    }

    #[verifier::loop_isolation(false)]
    fn room_bamboo_forest(&mut self, room: &Room, rng: &mut Rng, cx: i32, cy: i32)
        requires
            old(self).wf(),
            room_inside(*room, old(self).width as int, old(self).height as int),
            cx == room.x + room.w / 2,
            cy == room.y + room.h / 2,
        ensures
            final(self).wf(),
            final(self).same_frame(old(self)),
            confined(old(self), final(self), *room),
    {
        // Dense bamboo with gaps for navigation
        let row_start: i32 = room.y + 1;
        let row_end: i32 = room.y + room.h - 1;
        let mut row: i32 = row_start;
        while row < row_end
            invariant
                self.wf(),
                self.same_frame(old(self)),
                room_inside(*room, self.width as int, self.height as int),
                confined(old(self), self, *room),
                row == row_start || (row_start <= row && row <= row_end),
            decreases row_end - row,
        {
            let y = row;
            row = row + 1;
            let col_start: i32 = room.x + 1;
            let col_end: i32 = room.x + room.w - 1;
            let mut col: i32 = col_start;
            while col < col_end
                invariant
                    self.wf(),
                    self.same_frame(old(self)),
                    room_inside(*room, self.width as int, self.height as int),
                    confined(old(self), self, *room),
                    col == col_start || (col_start <= col && col <= col_end),
                decreases col_end - col,
            {
                let x = col;
                col = col + 1;
                if self.in_bounds(x, y) && rng.next_u64() % 3 != 0 {
                    if self.tile(x, y) == Tile::Floor {
                        self.put_near(x, y, Tile::Bamboo, Ghost(*room));
                    }
                }
            }
        }
        // Ensure center is clear
        let step_start: i32 = -1;
        let step_end: i32 = 1;
        let mut step: i32 = step_start;
        while step <= step_end
            invariant
                self.wf(),
                self.same_frame(old(self)),
                room_inside(*room, self.width as int, self.height as int),
                confined(old(self), self, *room),
                step == step_start || (step_start <= step && step <= step_end + 1),
            decreases step_end + 1 - step,
        {
            let dy = step;
            step = step + 1;
            let step_start: i32 = -1;
            let step_end: i32 = 1;
            let mut step: i32 = step_start;
            while step <= step_end
                invariant
                    self.wf(),
                    self.same_frame(old(self)),
                    room_inside(*room, self.width as int, self.height as int),
                    confined(old(self), self, *room),
                    step == step_start || (step_start <= step && step <= step_end + 1),
                decreases step_end + 1 - step,
            {
                let dx = step;
                step = step + 1;
                let x = cx + dx;
                let y = cy + dy;
                if self.in_bounds(x, y) {
                    if self.tile(x, y) == Tile::Bamboo {
                        self.put_near(x, y, Tile::Floor, Ghost(*room));
                    }
                }
            }
        }
        // Ensure paths from edges to center
        let col_start: i32 = room.x;
        let col_end: i32 = room.x + room.w;
        let mut col: i32 = col_start;
        while col < col_end
            invariant
                self.wf(),
                self.same_frame(old(self)),
                room_inside(*room, self.width as int, self.height as int),
                confined(old(self), self, *room),
                col == col_start || (col_start <= col && col <= col_end),
            decreases col_end - col,
        {
            let x = col;
            col = col + 1;
            if self.in_bounds(x, cy) {
                if self.tile(x, cy) == Tile::Bamboo {
                    self.put_near(x, cy, Tile::Floor, Ghost(*room));
                }
            }
        }
        // Water stream along one axis
        let row_start: i32 = room.y + 2;
        let row_end: i32 = room.y + room.h - 2;
        let mut row: i32 = row_start;
        while row < row_end
            invariant
                self.wf(),
                self.same_frame(old(self)),
                room_inside(*room, self.width as int, self.height as int),
                confined(old(self), self, *room),
                row == row_start || (row_start <= row && row <= row_end),
            decreases row_end - row,
        {
            let y = row;
            row = row + 1;
            let x = cx - 2;
            if self.in_bounds(x, y) {
                if self.tile(x, y) == Tile::Bamboo {
                    self.put_near(x, y, Tile::Water, Ghost(*room));
                }
            }
        }
        // Mushroom undergrowth
        let offsets = [(-1,-2),(1,-2),(-1,2),(1,2)];
        let mut oi: usize = 0;
        while oi < offsets.len()
            invariant
                self.wf(),
                self.same_frame(old(self)),
                room_inside(*room, self.width as int, self.height as int),
                confined(old(self), self, *room),
            decreases offsets.len() - oi,
        {
            let (dx, dy) = offsets[oi];
            oi += 1;
            let x = cx + dx;
            let y = cy + dy;
            if self.in_bounds(x, y) {
                if self.tile(x, y) == Tile::Bamboo {
                    self.put_near(x, y, Tile::Mushroom, Ghost(*room));
                }
            }
        }
        // Crystal (lanterns/fireflies)
        let offsets = [(0,-2),(0,2)];
        let mut oi: usize = 0;
        while oi < offsets.len()
            invariant
                self.wf(),
                self.same_frame(old(self)),
                room_inside(*room, self.width as int, self.height as int),
                confined(old(self), self, *room),
            decreases offsets.len() - oi,
        {
            let (dx, dy) = offsets[oi];
            oi += 1;
            let x = cx + dx;
            let y = cy + dy;
            if self.in_bounds(x, y) {
                if matches!(self.tile(x, y), Tile::Floor | Tile::Bamboo) {
                    self.put_near(x, y, Tile::Crystal, Ghost(*room));
                }
            }
        }
    }

    #[verifier::loop_isolation(false)]
    fn room_wind_tunnel(&mut self, room: &Room, rng: &mut Rng, cx: i32, cy: i32)
        requires
            old(self).wf(),
            room_inside(*room, old(self).width as int, old(self).height as int),
            cx == room.x + room.w / 2,
            cy == room.y + room.h / 2,
        ensures
            final(self).wf(),
            final(self).same_frame(old(self)),
            confined(old(self), final(self), *room),
    {
        // Oil (wind streaks) along center
        let col_start: i32 = room.x + 1;
        let col_end: i32 = room.x + room.w - 1;
        let mut col: i32 = col_start;
        while col < col_end
            invariant
                self.wf(),
                self.same_frame(old(self)),
                room_inside(*room, self.width as int, self.height as int),
                confined(old(self), self, *room),
                col == col_start || (col_start <= col && col <= col_end),
            decreases col_end - col,
        {
            let x = col;
            col = col + 1;
            if self.in_bounds(x, cy) && x % 2 == 0 {
                if self.tile(x, cy) == Tile::Floor {
                    self.put_near(x, cy, Tile::Oil, Ghost(*room));
                }
            }
        }
        // Spike barriers on sides
        let col_start: i32 = room.x + 1;
        let col_end: i32 = room.x + room.w - 1;
        let mut col: i32 = col_start;
        while col < col_end
            invariant
                self.wf(),
                self.same_frame(old(self)),
                room_inside(*room, self.width as int, self.height as int),
                confined(old(self), self, *room),
                col == col_start || (col_start <= col && col <= col_end),
            decreases col_end - col,
        {
            let x = col;
            col = col + 1;
            let lines = [cy - 1, cy + 1];
            let mut li: usize = 0;
            while li < lines.len()
                invariant
                    self.wf(),
                    self.same_frame(old(self)),
                    room_inside(*room, self.width as int, self.height as int),
                    confined(old(self), self, *room),
                decreases lines.len() - li,
            {
                let y = lines[li];
                li += 1;
                if self.in_bounds(x, y) {
                    if self.tile(x, y) == Tile::Floor {
                        self.put_near(x, y, Tile::Spikes, Ghost(*room));
                    }
                }
            }
        }
        // Pressure plate wind triggers
        let lines = [-2, 0, 2];
        let mut li: usize = 0;
        while li < lines.len()
            invariant
                self.wf(),
                self.same_frame(old(self)),
                room_inside(*room, self.width as int, self.height as int),
                confined(old(self), self, *room),
            decreases lines.len() - li,
        {
            let dx = lines[li];
            li += 1;
            let x = cx + dx;
            if self.in_bounds(x, cy) {
                if matches!(self.tile(x, cy), Tile::Floor | Tile::Oil) {
                    self.put_near(x, cy, Tile::PressurePlate, Ghost(*room));
                }
            }
        }
        // Crystal wind chimes at walls
        let offsets = [(-3,-1),(3,-1),(-3,1),(3,1)];
        let mut oi: usize = 0;
        while oi < offsets.len()
            invariant
                self.wf(),
                self.same_frame(old(self)),
                room_inside(*room, self.width as int, self.height as int),
                confined(old(self), self, *room),
            decreases offsets.len() - oi,
        {
            let (dx, dy) = offsets[oi];
            oi += 1;
            let x = cx + dx;
            let y = cy + dy;
            if self.in_bounds(x, y) {
                if matches!(self.tile(x, y), Tile::Floor | Tile::Spikes) {
                    self.put_near(x, y, Tile::Crystal, Ghost(*room));
                }
            }
        }
    }

    #[verifier::loop_isolation(false)]
    fn room_crystal_cave(&mut self, room: &Room, rng: &mut Rng, cx: i32, cy: i32)
        requires
            old(self).wf(),
            room_inside(*room, old(self).width as int, old(self).height as int),
            cx == room.x + room.w / 2,
            cy == room.y + room.h / 2,
        ensures
            final(self).wf(),
            final(self).same_frame(old(self)),
            confined(old(self), final(self), *room),
    {
        // Water (cave pools) scattered
        let row_start: i32 = room.y + 1;
        let row_end: i32 = room.y + room.h - 1;
        let mut row: i32 = row_start;
        while row < row_end
            invariant
                self.wf(),
                self.same_frame(old(self)),
                room_inside(*room, self.width as int, self.height as int),
                confined(old(self), self, *room),
                row == row_start || (row_start <= row && row <= row_end),
            decreases row_end - row,
        {
            let y = row;
            row = row + 1;
            let col_start: i32 = room.x + 1;
            let col_end: i32 = room.x + room.w - 1;
            let mut col: i32 = col_start;
            while col < col_end
                invariant
                    self.wf(),
                    self.same_frame(old(self)),
                    room_inside(*room, self.width as int, self.height as int),
                    confined(old(self), self, *room),
                    col == col_start || (col_start <= col && col <= col_end),
                decreases col_end - col,
            {
                let x = col;
                col = col + 1;
                if self.in_bounds(x, y) && rng.next_u64() % 8 == 0 {
                    if self.tile(x, y) == Tile::Floor {
                        self.put_near(x, y, Tile::Water, Ghost(*room));
                    }
                }
            }
        }
        // Ice (cold spots)
        let offsets = [(-2,-2),(2,-2),(-2,2),(2,2)];
        let mut oi: usize = 0;
        while oi < offsets.len()
            invariant
                self.wf(),
                self.same_frame(old(self)),
                room_inside(*room, self.width as int, self.height as int),
                confined(old(self), self, *room),
            decreases offsets.len() - oi,
        {
            let (dx, dy) = offsets[oi];
            oi += 1;
            let x = cx + dx;
            let y = cy + dy;
            if self.in_bounds(x, y) {
                if self.tile(x, y) == Tile::Floor {
                    self.put_near(x, y, Tile::Ice, Ghost(*room));
                }
            }
        }
        // Mushroom (cave growth)
        let step_start: i32 = 0;
        let step_end: i32 = 3;
        let mut step: i32 = step_start;
        while step < step_end
            invariant
                self.wf(),
                self.same_frame(old(self)),
                room_inside(*room, self.width as int, self.height as int),
                confined(old(self), self, *room),
                step == step_start || (step_start <= step && step <= step_end),
            decreases step_end - step,
        {
            step = step + 1;
            let x = rng.range(room.x + 1, room.x + room.w - 1);
            let y = rng.range(room.y + 1, room.y + room.h - 1);
            if self.in_bounds(x, y) {
                if self.tile(x, y) == Tile::Floor {
                    self.put_near(x, y, Tile::Mushroom, Ghost(*room));
                }
            }
        }
        // Crystal formations (denser, with pattern)
        let row_start: i32 = room.y + 1;
        let row_end: i32 = room.y + room.h - 1;
        let mut row: i32 = row_start;
        while row < row_end
            invariant
                self.wf(),
                self.same_frame(old(self)),
                room_inside(*room, self.width as int, self.height as int),
                confined(old(self), self, *room),
                row == row_start || (row_start <= row && row <= row_end),
            decreases row_end - row,
        {
            let y = row;
            row = row + 1;
            let col_start: i32 = room.x + 1;
            let col_end: i32 = room.x + room.w - 1;
            let mut col: i32 = col_start;
            while col < col_end
                invariant
                    self.wf(),
                    self.same_frame(old(self)),
                    room_inside(*room, self.width as int, self.height as int),
                    confined(old(self), self, *room),
                    col == col_start || (col_start <= col && col <= col_end),
                decreases col_end - col,
            {
                let x = col;
                col = col + 1;
                if self.in_bounds(x, y) && rng.next_u64() % 5 == 0 {
                    if self.tile(x, y) == Tile::Floor {
                        self.put_near(x, y, Tile::Crystal, Ghost(*room));
                    }
                }
            }
        }
    }

    #[verifier::loop_isolation(false)]
    fn room_mushroom_grotto(&mut self, room: &Room, rng: &mut Rng, cx: i32, cy: i32)
        requires
            old(self).wf(),
            room_inside(*room, old(self).width as int, old(self).height as int),
            cx == room.x + room.w / 2,
            cy == room.y + room.h / 2,
        ensures
            final(self).wf(),
            final(self).same_frame(old(self)),
            confined(old(self), final(self), *room),
    {
        // Mushroom clusters scattered
        let row_start: i32 = room.y + 1;
        let row_end: i32 = room.y + room.h - 1;
        let mut row: i32 = row_start;
        while row < row_end
            invariant
                self.wf(),
                self.same_frame(old(self)),
                room_inside(*room, self.width as int, self.height as int),
                confined(old(self), self, *room),
                row == row_start || (row_start <= row && row <= row_end),
            decreases row_end - row,
        {
            let y = row;
            row = row + 1;
            let col_start: i32 = room.x + 1;
            let col_end: i32 = room.x + room.w - 1;
            let mut col: i32 = col_start;
            while col < col_end
                invariant
                    self.wf(),
                    self.same_frame(old(self)),
                    room_inside(*room, self.width as int, self.height as int),
                    confined(old(self), self, *room),
                    col == col_start || (col_start <= col && col <= col_end),
                decreases col_end - col,
            {
                let x = col;
                col = col + 1;
                if self.in_bounds(x, y) && rng.next_u64() % 4 == 0 {
                    if self.tile(x, y) == Tile::Floor {
                        self.put_near(x, y, Tile::Mushroom, Ghost(*room));
                    }
                }
            }
        }
        // Water puddles
        let step_start: i32 = 0;
        let step_end: i32 = 4;
        let mut step: i32 = step_start;
        while step < step_end
            invariant
                self.wf(),
                self.same_frame(old(self)),
                room_inside(*room, self.width as int, self.height as int),
                confined(old(self), self, *room),
                step == step_start || (step_start <= step && step <= step_end),
            decreases step_end - step,
        {
            step = step + 1;
            let x = rng.range(room.x + 1, room.x + room.w - 1);
            let y = rng.range(room.y + 1, room.y + room.h - 1);
            if self.in_bounds(x, y) {
                if self.tile(x, y) == Tile::Floor {
                    self.put_near(x, y, Tile::Water, Ghost(*room));
                }
            }
        }
        // Poison gas spore clouds near mushroom clusters
        let row_start: i32 = room.y + 1;
        let row_end: i32 = room.y + room.h - 1;
        let mut row: i32 = row_start;
        while row < row_end
            invariant
                self.wf(),
                self.same_frame(old(self)),
                room_inside(*room, self.width as int, self.height as int),
                confined(old(self), self, *room),
                row == row_start || (row_start <= row && row <= row_end),
            decreases row_end - row,
        {
            let y = row;
            row = row + 1;
            let col_start: i32 = room.x + 1;
            let col_end: i32 = room.x + room.w - 1;
            let mut col: i32 = col_start;
            while col < col_end
                invariant
                    self.wf(),
                    self.same_frame(old(self)),
                    room_inside(*room, self.width as int, self.height as int),
                    confined(old(self), self, *room),
                    col == col_start || (col_start <= col && col <= col_end),
                decreases col_end - col,
            {
                let x = col;
                col = col + 1;
                if self.in_bounds(x, y) && rng.next_u64() % 10 == 0 {
                    if self.tile(x, y) == Tile::Floor {
                        self.put_near(x, y, Tile::PoisonGas, Ghost(*room));
                    }
                }
            }
        }
        // Crystal bioluminescence
        let offsets = [(-2,0),(2,0),(0,-2),(0,2)];
        let mut oi: usize = 0;
        while oi < offsets.len()
            invariant
                self.wf(),
                self.same_frame(old(self)),
                room_inside(*room, self.width as int, self.height as int),
                confined(old(self), self, *room),
            decreases offsets.len() - oi,
        {
            let (dx, dy) = offsets[oi];
            oi += 1;
            let x = cx + dx;
            let y = cy + dy;
            if self.in_bounds(x, y) {
                if matches!(self.tile(x, y), Tile::Floor | Tile::Mushroom) {
                    self.put_near(x, y, Tile::Crystal, Ghost(*room));
                }
            }
        }
    }

    #[verifier::loop_isolation(false)]
    fn room_underground_river(&mut self, room: &Room, rng: &mut Rng, cx: i32, cy: i32)
        requires
            old(self).wf(),
            room_inside(*room, old(self).width as int, old(self).height as int),
            cx == room.x + room.w / 2,
            cy == room.y + room.h / 2,
        ensures
            final(self).wf(),
            final(self).same_frame(old(self)),
            confined(old(self), final(self), *room),
    {
        // River of water/deep water running through middle
        let col_start: i32 = room.x;
        let col_end: i32 = room.x + room.w;
        let mut col: i32 = col_start;
        while col < col_end
            invariant
                self.wf(),
                self.same_frame(old(self)),
                room_inside(*room, self.width as int, self.height as int),
                confined(old(self), self, *room),
                col == col_start || (col_start <= col && col <= col_end),
            decreases col_end - col,
        {
            let x = col;
            col = col + 1;
            let step_start: i32 = -1;
            let step_end: i32 = 1;
            let mut step: i32 = step_start;
            while step <= step_end
                invariant
                    self.wf(),
                    self.same_frame(old(self)),
                    room_inside(*room, self.width as int, self.height as int),
                    confined(old(self), self, *room),
                    step == step_start || (step_start <= step && step <= step_end + 1),
                decreases step_end + 1 - step,
            {
                let dy = step;
                step = step + 1;
                let y = cy + dy;
                if self.in_bounds(x, y) {
                    if self.tile(x, y) == Tile::Floor {
                        let new_tile = if dy == 0 {
                            Tile::DeepWater
                        } else {
                            Tile::Water
                        };
                        self.put_near(x, y, new_tile, Ghost(*room));
                    }
                }
            }
        }
        // Boulder (river rocks) in shallows
        let offsets = [(-3, -1), (-1, 1), (2, -1), (3, 1)];
        let mut oi: usize = 0;
        while oi < offsets.len()
            invariant
                self.wf(),
                self.same_frame(old(self)),
                room_inside(*room, self.width as int, self.height as int),
                confined(old(self), self, *room),
            decreases offsets.len() - oi,
        {
            let (dx, dy) = offsets[oi];
            oi += 1;
            let x = cx + dx;
            let y = cy + dy;
            if self.in_bounds(x, y) {
                if matches!(self.tile(x, y), Tile::Water | Tile::DeepWater) {
                    self.put_near(x, y, Tile::Boulder, Ghost(*room));
                }
            }
        }
        // Crystal cave formations on banks
        let offsets = [(-2, -2), (2, -2), (-2, 2), (2, 2)];
        let mut oi: usize = 0;
        while oi < offsets.len()
            invariant
                self.wf(),
                self.same_frame(old(self)),
                room_inside(*room, self.width as int, self.height as int),
                confined(old(self), self, *room),
            decreases offsets.len() - oi,
        {
            let (dx, dy) = offsets[oi];
            oi += 1;
            let x = cx + dx;
            let y = cy + dy;
            if self.in_bounds(x, y) {
                if self.tile(x, y) == Tile::Floor {
                    self.put_near(x, y, Tile::Crystal, Ghost(*room));
                }
            }
        }
        // Mushroom (riverside growth)
        let offsets = [(-1, -2), (1, -2), (-1, 2), (1, 2)];
        let mut oi: usize = 0;
        while oi < offsets.len()
            invariant
                self.wf(),
                self.same_frame(old(self)),
                room_inside(*room, self.width as int, self.height as int),
                confined(old(self), self, *room),
            decreases offsets.len() - oi,
        {
            let (dx, dy) = offsets[oi];
            oi += 1;
            let x = cx + dx;
            let y = cy + dy;
            if self.in_bounds(x, y) {
                if self.tile(x, y) == Tile::Floor {
                    self.put_near(x, y, Tile::Mushroom, Ghost(*room));
                }
            }
        }
        // Bridge crossing at center
        let step_start: i32 = -1;
        let step_end: i32 = 1;
        let mut step: i32 = step_start;
        while step <= step_end
            invariant
                self.wf(),
                self.same_frame(old(self)),
                room_inside(*room, self.width as int, self.height as int),
                confined(old(self), self, *room),
                step == step_start || (step_start <= step && step <= step_end + 1),
            decreases step_end + 1 - step,
        {
            let dy = step;
            step = step + 1;
            if self.in_bounds(cx, cy + dy) {
                self.put_near(cx, cy + dy, Tile::Bridge, Ghost(*room));
            }
        }
    }

    #[verifier::loop_isolation(false)]
    fn room_echoing_cavern(&mut self, room: &Room, rng: &mut Rng, cx: i32, cy: i32)
        requires
            old(self).wf(),
            room_inside(*room, old(self).width as int, old(self).height as int),
            cx == room.x + room.w / 2,
            cy == room.y + room.h / 2,
        ensures
            final(self).wf(),
            final(self).same_frame(old(self)),
            confined(old(self), final(self), *room),
    {
        // Water (sound-amplifying pools)
        let offsets = [(-2, -1), (2, -1), (-2, 1), (2, 1)];
        let mut oi: usize = 0;
        while oi < offsets.len()
            invariant
                self.wf(),
                self.same_frame(old(self)),
                room_inside(*room, self.width as int, self.height as int),
                confined(old(self), self, *room),
            decreases offsets.len() - oi,
        {
            let (dx, dy) = offsets[oi];
            oi += 1;
            let x = cx + dx;
            let y = cy + dy;
            if self.in_bounds(x, y) {
                if self.tile(x, y) == Tile::Floor {
                    self.put_near(x, y, Tile::Water, Ghost(*room));
                }
            }
        }
        // Boulder (echo-generating rock formations)
        let offsets = [(-1, -2), (1, -2), (-1, 2), (1, 2)];
        let mut oi: usize = 0;
        while oi < offsets.len()
            invariant
                self.wf(),
                self.same_frame(old(self)),
                room_inside(*room, self.width as int, self.height as int),
                confined(old(self), self, *room),
            decreases offsets.len() - oi,
        {
            let (dx, dy) = offsets[oi];
            oi += 1;
            let x = cx + dx;
            let y = cy + dy;
            if self.in_bounds(x, y) {
                if self.tile(x, y) == Tile::Floor {
                    self.put_near(x, y, Tile::Boulder, Ghost(*room));
                }
            }
        }
        // Ice patches (frozen condensation)
        let offsets = [(-1, 0), (1, 0), (0, -1), (0, 1)];
        let mut oi: usize = 0;
        while oi < offsets.len()
            invariant
                self.wf(),
                self.same_frame(old(self)),
                room_inside(*room, self.width as int, self.height as int),
                confined(old(self), self, *room),
            decreases offsets.len() - oi,
        {
            let (dx, dy) = offsets[oi];
            oi += 1;
            let x = cx + dx;
            let y = cy + dy;
            if self.in_bounds(x, y) {
                if self.tile(x, y) == Tile::Floor {
                    self.put_near(x, y, Tile::Ice, Ghost(*room));
                }
            }
        }
        // Crystal echo points at compass positions
        let offsets = [(-3, 0), (3, 0), (0, -3), (0, 3)];
        let mut oi: usize = 0;
        while oi < offsets.len()
            invariant
                self.wf(),
                self.same_frame(old(self)),
                room_inside(*room, self.width as int, self.height as int),
                confined(old(self), self, *room),
            decreases offsets.len() - oi,
        {
            let (dx, dy) = offsets[oi];
            oi += 1;
            let x = cx + dx;
            let y = cy + dy;
            if self.in_bounds(x, y) {
                self.put_near(x, y, Tile::Crystal, Ghost(*room));
            }
        }
    }

    #[verifier::loop_isolation(false)]
    fn room_shadow_realm(&mut self, room: &Room, rng: &mut Rng, cx: i32, cy: i32)
        requires
            old(self).wf(),
            room_inside(*room, old(self).width as int, old(self).height as int),
            cx == room.x + room.w / 2,
            cy == room.y + room.h / 2,
        ensures
            final(self).wf(),
            final(self).same_frame(old(self)),
            confined(old(self), final(self), *room),
    {
        // Oil (shadow puddles)
        let row_start: i32 = room.y + 1;
        let row_end: i32 = room.y + room.h - 1;
        let mut row: i32 = row_start;
        while row < row_end
            invariant
                self.wf(),
                self.same_frame(old(self)),
                room_inside(*room, self.width as int, self.height as int),
                confined(old(self), self, *room),
                row == row_start || (row_start <= row && row <= row_end),
            decreases row_end - row,
        {
            let y = row;
            row = row + 1;
            let col_start: i32 = room.x + 1;
            let col_end: i32 = room.x + room.w - 1;
            let mut col: i32 = col_start;
            while col < col_end
                invariant
                    self.wf(),
                    self.same_frame(old(self)),
                    room_inside(*room, self.width as int, self.height as int),
                    confined(old(self), self, *room),
                    col == col_start || (col_start <= col && col <= col_end),
                decreases col_end - col,
            {
                let x = col;
                col = col + 1;
                if self.in_bounds(x, y) && rng.next_u64() % 4 == 0 {
                    if self.tile(x, y) == Tile::Floor {
                        self.put_near(x, y, Tile::Oil, Ghost(*room));
                    }
                }
            }
        }
        // CursedFloor patches
        let offsets = [(-1,-1),(1,-1),(-1,1),(1,1),(0,0)];
        let mut oi: usize = 0;
        while oi < offsets.len()
            invariant
                self.wf(),
                self.same_frame(old(self)),
                room_inside(*room, self.width as int, self.height as int),
                confined(old(self), self, *room),
            decreases offsets.len() - oi,
        {
            let (dx, dy) = offsets[oi];
            oi += 1;
            let x = cx + dx;
            let y = cy + dy;
            if self.in_bounds(x, y) {
                if matches!(self.tile(x, y), Tile::Floor | Tile::Oil) {
                    self.put_near(x, y, Tile::CursedFloor, Ghost(*room));
                }
            }
        }
        // Crystal (dim lights at far edges)
        let offsets = [(-3,-2),(3,-2),(-3,2),(3,2)];
        let mut oi: usize = 0;
        while oi < offsets.len()
            invariant
                self.wf(),
                self.same_frame(old(self)),
                room_inside(*room, self.width as int, self.height as int),
                confined(old(self), self, *room),
            decreases offsets.len() - oi,
        {
            let (dx, dy) = offsets[oi];
            oi += 1;
            let x = cx + dx;
            let y = cy + dy;
            if self.in_bounds(x, y) {
                if matches!(self.tile(x, y), Tile::Floor | Tile::Oil) {
                    self.put_near(x, y, Tile::Crystal, Ghost(*room));
                }
            }
        }
        // Hidden traps
        let step_start: i32 = 0;
        let step_end: i32 = 5;
        let mut step: i32 = step_start;
        while step < step_end
            invariant
                self.wf(),
                self.same_frame(old(self)),
                room_inside(*room, self.width as int, self.height as int),
                confined(old(self), self, *room),
                step == step_start || (step_start <= step && step <= step_end),
            decreases step_end - step,
        {
            step = step + 1;
            let x = rng.range(room.x + 1, room.x + room.w - 1);
            let y = rng.range(room.y + 1, room.y + room.h - 1);
            if self.in_bounds(x, y) {
                if matches!(self.tile(x, y), Tile::Floor | Tile::Oil) {
                    let trap_type = (rng.next_u64() % 3) as u8;
                    self.put_near(x, y, Tile::Trap(trap_type), Ghost(*room));
                }
            }
        }
    }

    #[verifier::loop_isolation(false)]
    fn room_wandering_merchant(&mut self, room: &Room, rng: &mut Rng, cx: i32, cy: i32)
        requires
            old(self).wf(),
            room_inside(*room, old(self).width as int, old(self).height as int),
            cx == room.x + room.w / 2,
            cy == room.y + room.h / 2,
        ensures
            final(self).wf(),
            final(self).same_frame(old(self)),
            confined(old(self), final(self), *room),
    {
        // Bookshelf (wares display) at walls
        let offsets = [(-3,-1),(-3,0),(-3,1),(3,-1),(3,0),(3,1)];
        let mut oi: usize = 0;
        while oi < offsets.len()
            invariant
                self.wf(),
                self.same_frame(old(self)),
                room_inside(*room, self.width as int, self.height as int),
                confined(old(self), self, *room),
            decreases offsets.len() - oi,
        {
            let (dx, dy) = offsets[oi];
            oi += 1;
            let x = cx + dx;
            let y = cy + dy;
            if self.in_bounds(x, y) {
                if self.tile(x, y) == Tile::Floor {
                    self.put_near(x, y, Tile::Bookshelf, Ghost(*room));
                }
            }
        }
        // Gold pile (display items)
        let offsets = [(-1, 1), (1, 1)];
        let mut oi: usize = 0;
        while oi < offsets.len()
            invariant
                self.wf(),
                self.same_frame(old(self)),
                room_inside(*room, self.width as int, self.height as int),
                confined(old(self), self, *room),
            decreases offsets.len() - oi,
        {
            let (dx, dy) = offsets[oi];
            oi += 1;
            let x = cx + dx;
            let y = cy + dy;
            if self.in_bounds(x, y) {
                if self.tile(x, y) == Tile::Floor {
                    self.put_near(x, y, Tile::GoldPile, Ghost(*room));
                }
            }
        }
        // Crate inventory around shop
        let offsets = [(-1, -1), (1, -1), (-2, 0), (2, 0)];
        let mut oi: usize = 0;
        while oi < offsets.len()
            invariant
                self.wf(),
                self.same_frame(old(self)),
                room_inside(*room, self.width as int, self.height as int),
                confined(old(self), self, *room),
            decreases offsets.len() - oi,
        {
            let (dx, dy) = offsets[oi];
            oi += 1;
            let x = cx + dx;
            let y = cy + dy;
            if self.in_bounds(x, y) {
                if self.tile(x, y) == Tile::Floor {
                    self.put_near(x, y, Tile::Crate, Ghost(*room));
                }
            }
        }
        // Shop at center
        if self.in_bounds(cx, cy) {
            self.put_near(cx, cy, Tile::Shop, Ghost(*room));
        }
    }

    #[verifier::loop_isolation(false)]
    fn room_hermit_sage(&mut self, room: &Room, rng: &mut Rng, cx: i32, cy: i32)
        requires
            old(self).wf(),
            room_inside(*room, old(self).width as int, old(self).height as int),
            cx == room.x + room.w / 2,
            cy == room.y + room.h / 2,
        ensures
            final(self).wf(),
            final(self).same_frame(old(self)),
            confined(old(self), final(self), *room),
    {
        // Crystal lantern
        if self.in_bounds(cx + 2, cy) {
            if self.tile(cx + 2, cy) == Tile::Floor {
                self.put_near(cx + 2, cy, Tile::Crystal, Ghost(*room));
            }
        }
        // Mushroom (herb garden)
        let offsets = [(1, 1), (2, 1), (1, -1)];
        let mut oi: usize = 0;
        while oi < offsets.len()
            invariant
                self.wf(),
                self.same_frame(old(self)),
                room_inside(*room, self.width as int, self.height as int),
                confined(old(self), self, *room),
            decreases offsets.len() - oi,
        {
            let (dx, dy) = offsets[oi];
            oi += 1;
            let x = cx + dx;
            let y = cy + dy;
            if self.in_bounds(x, y) {
                if self.tile(x, y) == Tile::Floor {
                    self.put_near(x, y, Tile::Mushroom, Ghost(*room));
                }
            }
        }
        // Water (tea/medicine)
        if self.in_bounds(cx - 1, cy + 1) {
            if self.tile(cx - 1, cy + 1) == Tile::Floor {
                self.put_near(cx - 1, cy + 1, Tile::Water, Ghost(*room));
            }
        }
        // Bookshelves (study)
        let step_start: i32 = -1;
        let step_end: i32 = 1;
        let mut step: i32 = step_start;
        while step <= step_end
            invariant
                self.wf(),
                self.same_frame(old(self)),
                room_inside(*room, self.width as int, self.height as int),
                confined(old(self), self, *room),
                step == step_start || (step_start <= step && step <= step_end + 1),
            decreases step_end + 1 - step,
        {
            let dx = step;
            step = step + 1;
            let x = cx + dx;
            if self.in_bounds(x, cy - 1) {
                if self.tile(x, cy - 1) == Tile::Floor {
                    self.put_near(x, cy - 1, Tile::Bookshelf, Ghost(*room));
                }
            }
        }
        // Crate (storage)
        if self.in_bounds(cx - 2, cy) {
            if self.tile(cx - 2, cy) == Tile::Floor {
                self.put_near(cx - 2, cy, Tile::Crate, Ghost(*room));
            }
        }
        // Hermit NPC
        if self.in_bounds(cx, cy) {
            self.put_near(cx, cy, Tile::Npc(1), Ghost(*room));
        }
    }

    #[verifier::loop_isolation(false)]
    fn room_prisoner_cell(&mut self, room: &Room, rng: &mut Rng, cx: i32, cy: i32)
        requires
            old(self).wf(),
            room_inside(*room, old(self).width as int, old(self).height as int),
            cx == room.x + room.w / 2,
            cy == room.y + room.h / 2,
        ensures
            final(self).wf(),
            final(self).same_frame(old(self)),
            confined(old(self), final(self), *room),
    {
        // Spikes (chains on walls)
        let row_start: i32 = room.y + 1;
        let row_end: i32 = room.y + room.h - 1;
        let mut row: i32 = row_start;
        while row < row_end
            invariant
                self.wf(),
                self.same_frame(old(self)),
                room_inside(*room, self.width as int, self.height as int),
                confined(old(self), self, *room),
                row == row_start || (row_start <= row && row <= row_end),
            decreases row_end - row,
        {
            let y = row;
            row = row + 1;
            if self.in_bounds(room.x + room.w - 2, y) && y != cy {
                if self.tile(room.x + room.w - 2, y) == Tile::Floor {
                    self.put_near(room.x + room.w - 2, y, Tile::Spikes, Ghost(*room));
                }
            }
        }
        // Water puddle
        if self.in_bounds(cx + 1, cy + 1) {
            if self.tile(cx + 1, cy + 1) == Tile::Floor {
                self.put_near(cx + 1, cy + 1, Tile::Water, Ghost(*room));
            }
        }
        // Crate (bed/bench)
        if self.in_bounds(cx - 1, cy + 1) {
            if self.tile(cx - 1, cy + 1) == Tile::Floor {
                self.put_near(cx - 1, cy + 1, Tile::Crate, Ghost(*room));
            }
        }
        // Iron bars (brittle walls)
        let row_start: i32 = room.y + 1;
        let row_end: i32 = room.y + room.h - 1;
        let mut row: i32 = row_start;
        while row < row_end
            invariant
                self.wf(),
                self.same_frame(old(self)),
                room_inside(*room, self.width as int, self.height as int),
                confined(old(self), self, *room),
                row == row_start || (row_start <= row && row <= row_end),
            decreases row_end - row,
        {
            let y = row;
            row = row + 1;
            if y != cy && self.in_bounds(room.x, y) {
                if self.tile(room.x, y) == Tile::Floor {
                    self.put_near(room.x, y, Tile::BrittleWall, Ghost(*room));
                }
            }
        }
        // NPC prisoner
        if self.in_bounds(cx, cy) {
            self.put_near(cx, cy, Tile::Npc(3), Ghost(*room));
        }
        // Locked door
        if self.in_bounds(room.x, cy) {
            if matches!(self.tile(room.x, cy), Tile::Floor | Tile::Corridor) {
                self.put_near(room.x, cy, Tile::LockedDoor, Ghost(*room));
            }
        }
    }

    #[verifier::loop_isolation(false)]
    fn room_spirit_shrine(&mut self, room: &Room, rng: &mut Rng, cx: i32, cy: i32)
        requires
            old(self).wf(),
            room_inside(*room, old(self).width as int, old(self).height as int),
            cx == room.x + room.w / 2,
            cy == room.y + room.h / 2,
        ensures
            final(self).wf(),
            final(self).same_frame(old(self)),
            confined(old(self), final(self), *room),
    {
        // Bamboo sacred grove at edges
        let offsets = [(-3,-1),(-3,0),(-3,1),(3,-1),(3,0),(3,1)];
        let mut oi: usize = 0;
        while oi < offsets.len()
            invariant
                self.wf(),
                self.same_frame(old(self)),
                room_inside(*room, self.width as int, self.height as int),
                confined(old(self), self, *room),
            decreases offsets.len() - oi,
        {
            let (dx, dy) = offsets[oi];
            oi += 1;
            let x = cx + dx;
            let y = cy + dy;
            if self.in_bounds(x, y) {
                if self.tile(x, y) == Tile::Floor {
                    self.put_near(x, y, Tile::Bamboo, Ghost(*room));
                }
            }
        }
        // Crystal votive candles
        let offsets = [(-1,-1),(1,-1),(-1,1),(1,1)];
        let mut oi: usize = 0;
        while oi < offsets.len()
            invariant
                self.wf(),
                self.same_frame(old(self)),
                room_inside(*room, self.width as int, self.height as int),
                confined(old(self), self, *room),
            decreases offsets.len() - oi,
        {
            let (dx, dy) = offsets[oi];
            oi += 1;
            let x = cx + dx;
            let y = cy + dy;
            if self.in_bounds(x, y) {
                if self.tile(x, y) == Tile::Floor {
                    self.put_near(x, y, Tile::Crystal, Ghost(*room));
                }
            }
        }
        // Water blessing pool
        let offsets = [(-1,0),(1,0),(0,-1),(0,1)];
        let mut oi: usize = 0;
        while oi < offsets.len()
            invariant
                self.wf(),
                self.same_frame(old(self)),
                room_inside(*room, self.width as int, self.height as int),
                confined(old(self), self, *room),
            decreases offsets.len() - oi,
        {
            let (dx, dy) = offsets[oi];
            oi += 1;
            let x = cx + dx;
            let y = cy + dy;
            if self.in_bounds(x, y) {
                if self.tile(x, y) == Tile::Floor {
                    self.put_near(x, y, Tile::Water, Ghost(*room));
                }
            }
        }
        // Shrine at center
        if self.in_bounds(cx, cy) {
            self.put_near(cx, cy, Tile::Shrine, Ghost(*room));
        }
    }

    #[verifier::loop_isolation(false)]
    fn room_tea_house(&mut self, room: &Room, rng: &mut Rng, cx: i32, cy: i32)
        requires
            old(self).wf(),
            room_inside(*room, old(self).width as int, old(self).height as int),
            cx == room.x + room.w / 2,
            cy == room.y + room.h / 2,
        ensures
            final(self).wf(),
            final(self).same_frame(old(self)),
            confined(old(self), final(self), *room),
    {
        // Bamboo decoration at corners
        let offsets = [(-3,-2),(-3,2),(3,-2),(3,2)];
        let mut oi: usize = 0;
        while oi < offsets.len()
            invariant
                self.wf(),
                self.same_frame(old(self)),
                room_inside(*room, self.width as int, self.height as int),
                confined(old(self), self, *room),
            decreases offsets.len() - oi,
        {
            let (dx, dy) = offsets[oi];
            oi += 1;
            let x = cx + dx;
            let y = cy + dy;
            if self.in_bounds(x, y) {
                if self.tile(x, y) == Tile::Floor {
                    self.put_near(x, y, Tile::Bamboo, Ghost(*room));
                }
            }
        }
        // Water ornamental feature
        let offsets = [(0, 2), (-1, 2), (1, 2)];
        let mut oi: usize = 0;
        while oi < offsets.len()
            invariant
                self.wf(),
                self.same_frame(old(self)),
                room_inside(*room, self.width as int, self.height as int),
                confined(old(self), self, *room),
            decreases offsets.len() - oi,
        {
            let (dx, dy) = offsets[oi];
            oi += 1;
            let x = cx + dx;
            let y = cy + dy;
            if self.in_bounds(x, y) {
                if self.tile(x, y) == Tile::Floor {
                    self.put_near(x, y, Tile::Water, Ghost(*room));
                }
            }
        }
        // Crate (tea tables)
        let offsets = [(-2, -1), (2, -1), (-2, 1), (2, 1)];
        let mut oi: usize = 0;
        while oi < offsets.len()
            invariant
                self.wf(),
                self.same_frame(old(self)),
                room_inside(*room, self.width as int, self.height as int),
                confined(old(self), self, *room),
            decreases offsets.len() - oi,
        {
            let (dx, dy) = offsets[oi];
            oi += 1;
            let x = cx + dx;
            let y = cy + dy;
            if self.in_bounds(x, y) {
                if self.tile(x, y) == Tile::Floor {
                    self.put_near(x, y, Tile::Crate, Ghost(*room));
                }
            }
        }
        // Bookshelves (menu/scrolls) on sides
        let lines = [-2, 2];
        let mut li: usize = 0;
        while li < lines.len()
            invariant
                self.wf(),
                self.same_frame(old(self)),
                room_inside(*room, self.width as int, self.height as int),
                confined(old(self), self, *room),
            decreases lines.len() - li,
        {
            let dx = lines[li];
            li += 1;
            let x = cx + dx;
            if self.in_bounds(x, cy) {
                if self.tile(x, cy) == Tile::Floor {
                    self.put_near(x, cy, Tile::Bookshelf, Ghost(*room));
                }
            }
        }
        // Spirit spring (tea pot warmth)
        if self.in_bounds(cx, cy - 1) {
            self.put_near(cx, cy - 1, Tile::SpiritSpringTile, Ghost(*room));
        }
        // Tea house keeper NPC
        if self.in_bounds(cx, cy) {
            self.put_near(cx, cy, Tile::Npc(2), Ghost(*room));
        }
    }

    #[verifier::loop_isolation(false)]
    fn room_smithy_workshop(&mut self, room: &Room, rng: &mut Rng, cx: i32, cy: i32)
        requires
            old(self).wf(),
            room_inside(*room, old(self).width as int, old(self).height as int),
            cx == room.x + room.w / 2,
            cy == room.y + room.h / 2,
        ensures
            final(self).wf(),
            final(self).same_frame(old(self)),
            confined(old(self), final(self), *room),
    {
        // Gold ore (raw materials) at walls
        let offsets = [(-3,-1),(-3,0),(-3,1)];
        let mut oi: usize = 0;
        while oi < offsets.len()
            invariant
                self.wf(),
                self.same_frame(old(self)),
                room_inside(*room, self.width as int, self.height as int),
                confined(old(self), self, *room),
            decreases offsets.len() - oi,
        {
            let (dx, dy) = offsets[oi];
            oi += 1;
            let x = cx + dx;
            let y = cy + dy;
            if self.in_bounds(x, y) {
                if self.tile(x, y) == Tile::Floor {
                    self.put_near(x, y, Tile::GoldOre, Ghost(*room));
                }
            }
        }
        // Lava heat source (expanded)
        let offsets = [(0, 1), (-1, 1), (1, 1), (0, 2)];
        let mut oi: usize = 0;
        while oi < offsets.len()
            invariant
                self.wf(),
                self.same_frame(old(self)),
                room_inside(*room, self.width as int, self.height as int),
                confined(old(self), self, *room),
            decreases offsets.len() - oi,
        {
            let (dx, dy) = offsets[oi];
            oi += 1;
            let x = cx + dx;
            let y = cy + dy;
            if self.in_bounds(x, y) {
                if self.tile(x, y) == Tile::Floor {
                    self.put_near(x, y, Tile::Lava, Ghost(*room));
                }
            }
        }
        // Crate (tools) on sides
        let offsets = [(-2, 0), (2, 0), (2, -1), (-2, -1)];
        let mut oi: usize = 0;
        while oi < offsets.len()
            invariant
                self.wf(),
                self.same_frame(old(self)),
                room_inside(*room, self.width as int, self.height as int),
                confined(old(self), self, *room),
            decreases offsets.len() - oi,
        {
            let (dx, dy) = offsets[oi];
            oi += 1;
            let x = cx + dx;
            let y = cy + dy;
            if self.in_bounds(x, y) {
                if self.tile(x, y) == Tile::Floor {
                    self.put_near(x, y, Tile::Crate, Ghost(*room));
                }
            }
        }
        // Boulder (anvil)
        if self.in_bounds(cx + 1, cy) {
            if self.tile(cx + 1, cy) == Tile::Floor {
                self.put_near(cx + 1, cy, Tile::Boulder, Ghost(*room));
            }
        }
        // Forge at center
        if self.in_bounds(cx, cy) {
            self.put_near(cx, cy, Tile::Forge, Ghost(*room));
        }
    }

    #[verifier::loop_isolation(false)]
    fn room_alchemy_lab(&mut self, room: &Room, rng: &mut Rng, cx: i32, cy: i32)
        requires
            old(self).wf(),
            room_inside(*room, old(self).width as int, old(self).height as int),
            cx == room.x + room.w / 2,
            cy == room.y + room.h / 2,
        ensures
            final(self).wf(),
            final(self).same_frame(old(self)),
            confined(old(self), final(self), *room),
    {
        // Water (vials/solutions) scattered
        let offsets = [(0, -1), (1, -1), (-1, -1)];
        let mut oi: usize = 0;
        while oi < offsets.len()
            invariant
                self.wf(),
                self.same_frame(old(self)),
                room_inside(*room, self.width as int, self.height as int),
                confined(old(self), self, *room),
            decreases offsets.len() - oi,
        {
            let (dx, dy) = offsets[oi];
            oi += 1;
            let x = cx + dx;
            let y = cy + dy;
            if self.in_bounds(x, y) {
                if self.tile(x, y) == Tile::Floor {
                    self.put_near(x, y, Tile::Water, Ghost(*room));
                }
            }
        }
        // Bookshelves (recipe books)
        let offsets = [(-2, -1), (-2, 0), (-2, 1)];
        let mut oi: usize = 0;
        while oi < offsets.len()
            invariant
                self.wf(),
                self.same_frame(old(self)),
                room_inside(*room, self.width as int, self.height as int),
                confined(old(self), self, *room),
            decreases offsets.len() - oi,
        {
            let (dx, dy) = offsets[oi];
            oi += 1;
            let x = cx + dx;
            let y = cy + dy;
            if self.in_bounds(x, y) {
                if self.tile(x, y) == Tile::Floor {
                    self.put_near(x, y, Tile::Bookshelf, Ghost(*room));
                }
            }
        }
        // Mushroom reagents
        let offsets = [(2, -1), (2, 0), (2, 1)];
        let mut oi: usize = 0;
        while oi < offsets.len()
            invariant
                self.wf(),
                self.same_frame(old(self)),
                room_inside(*room, self.width as int, self.height as int),
                confined(old(self), self, *room),
            decreases offsets.len() - oi,
        {
            let (dx, dy) = offsets[oi];
            oi += 1;
            let x = cx + dx;
            let y = cy + dy;
            if self.in_bounds(x, y) {
                if self.tile(x, y) == Tile::Floor {
                    self.put_near(x, y, Tile::Mushroom, Ghost(*room));
                }
            }
        }
        // Crystal (reagent containers)
        let offsets = [(-1, 1), (1, 1)];
        let mut oi: usize = 0;
        while oi < offsets.len()
            invariant
                self.wf(),
                self.same_frame(old(self)),
                room_inside(*room, self.width as int, self.height as int),
                confined(old(self), self, *room),
            decreases offsets.len() - oi,
        {
            let (dx, dy) = offsets[oi];
            oi += 1;
            let x = cx + dx;
            let y = cy + dy;
            if self.in_bounds(x, y) {
                if self.tile(x, y) == Tile::Floor {
                    self.put_near(x, y, Tile::Crystal, Ghost(*room));
                }
            }
        }
        // Poison gas (fume hood exhaust)
        if self.in_bounds(cx, cy + 2) {
            if self.tile(cx, cy + 2) == Tile::Floor {
                self.put_near(cx, cy + 2, Tile::PoisonGas, Ghost(*room));
            }
        }
        // Forge (cauldron) at center
        if self.in_bounds(cx, cy) {
            self.put_near(cx, cy, Tile::Forge, Ghost(*room));
        }
    }

    #[verifier::loop_isolation(false)]
    fn room_fortune_teller(&mut self, room: &Room, rng: &mut Rng, cx: i32, cy: i32)
        requires
            old(self).wf(),
            room_inside(*room, old(self).width as int, old(self).height as int),
            cx == room.x + room.w / 2,
            cy == room.y + room.h / 2,
        ensures
            final(self).wf(),
            final(self).same_frame(old(self)),
            confined(old(self), final(self), *room),
    {
        // Bamboo curtains
        let offsets = [(-3,-1),(-3,0),(-3,1),(3,-1),(3,0),(3,1)];
        let mut oi: usize = 0;
        while oi < offsets.len()
            invariant
                self.wf(),
                self.same_frame(old(self)),
                room_inside(*room, self.width as int, self.height as int),
                confined(old(self), self, *room),
            decreases offsets.len() - oi,
        {
            let (dx, dy) = offsets[oi];
            oi += 1;
            let x = cx + dx;
            let y = cy + dy;
            if self.in_bounds(x, y) {
                if self.tile(x, y) == Tile::Floor {
                    self.put_near(x, y, Tile::Bamboo, Ghost(*room));
                }
            }
        }
        // Oil (mysterious aura)
        let offsets = [(-1,-1),(1,-1),(-1,1),(1,1)];
        let mut oi: usize = 0;
        while oi < offsets.len()
            invariant
                self.wf(),
                self.same_frame(old(self)),
                room_inside(*room, self.width as int, self.height as int),
                confined(old(self), self, *room),
            decreases offsets.len() - oi,
        {
            let (dx, dy) = offsets[oi];
            oi += 1;
            let x = cx + dx;
            let y = cy + dy;
            if self.in_bounds(x, y) {
                if self.tile(x, y) == Tile::Floor {
                    self.put_near(x, y, Tile::Oil, Ghost(*room));
                }
            }
        }
        // Mushroom (incense)
        let offsets = [(-2, 1), (2, 1)];
        let mut oi: usize = 0;
        while oi < offsets.len()
            invariant
                self.wf(),
                self.same_frame(old(self)),
                room_inside(*room, self.width as int, self.height as int),
                confined(old(self), self, *room),
            decreases offsets.len() - oi,
        {
            let (dx, dy) = offsets[oi];
            oi += 1;
            let x = cx + dx;
            let y = cy + dy;
            if self.in_bounds(x, y) {
                if self.tile(x, y) == Tile::Floor {
                    self.put_near(x, y, Tile::Mushroom, Ghost(*room));
                }
            }
        }
        // Crystal ball
        if self.in_bounds(cx, cy + 1) {
            self.put_near(cx, cy + 1, Tile::Crystal, Ghost(*room));
        }
        // Mirror pool (scrying)
        if self.in_bounds(cx - 1, cy) {
            self.put_near(cx - 1, cy, Tile::MirrorPool, Ghost(*room));
        }
        // Fortune teller NPC
        if self.in_bounds(cx, cy) {
            self.put_near(cx, cy, Tile::Npc(0), Ghost(*room));
        }
    }

    #[verifier::loop_isolation(false)]
    fn room_refugee_camp(&mut self, room: &Room, rng: &mut Rng, cx: i32, cy: i32)
        requires
            old(self).wf(),
            room_inside(*room, old(self).width as int, old(self).height as int),
            cx == room.x + room.w / 2,
            cy == room.y + room.h / 2,
        ensures
            final(self).wf(),
            final(self).same_frame(old(self)),
            confined(old(self), final(self), *room),
    {
        // Oil (campfire residue)
        let offsets = [(-1, 0), (1, 0), (0, 1)];
        let mut oi: usize = 0;
        while oi < offsets.len()
            invariant
                self.wf(),
                self.same_frame(old(self)),
                room_inside(*room, self.width as int, self.height as int),
                confined(old(self), self, *room),
            decreases offsets.len() - oi,
        {
            let (dx, dy) = offsets[oi];
            oi += 1;
            let x = cx + dx;
            let y = cy + dy;
            if self.in_bounds(x, y) {
                if self.tile(x, y) == Tile::Floor {
                    self.put_near(x, y, Tile::Oil, Ghost(*room));
                }
            }
        }
        // Water (well/water source)
        if self.in_bounds(cx + 2, cy + 1) {
            if self.tile(cx + 2, cy + 1) == Tile::Floor {
                self.put_near(cx + 2, cy + 1, Tile::Water, Ghost(*room));
            }
        }
        // Crate (supplies, expanded)
        let offsets = [(-1, 1), (0, -1), (2, -1), (-2, -1), (1, 1)];
        let mut oi: usize = 0;
        while oi < offsets.len()
            invariant
                self.wf(),
                self.same_frame(old(self)),
                room_inside(*room, self.width as int, self.height as int),
                confined(old(self), self, *room),
            decreases offsets.len() - oi,
        {
            let (dx, dy) = offsets[oi];
            oi += 1;
            let x = cx + dx;
            let y = cy + dy;
            if self.in_bounds(x, y) {
                if matches!(self.tile(x, y), Tile::Floor | Tile::Oil) {
                    self.put_near(x, y, Tile::Crate, Ghost(*room));
                }
            }
        }
        // Spirit spring (campfire warmth)
        if self.in_bounds(cx, cy) {
            self.put_near(cx, cy, Tile::SpiritSpringTile, Ghost(*room));
        }
        // NPCs (refugees)
        let offsets = [(-2, 0), (1, -1), (2, 1)];
        let mut oi: usize = 0;
        while oi < offsets.len()
            invariant
                self.wf(),
                self.same_frame(old(self)),
                room_inside(*room, self.width as int, self.height as int),
                confined(old(self), self, *room),
            decreases offsets.len() - oi,
        {
            let (dx, dy) = offsets[oi];
            oi += 1;
            let x = cx + dx;
            let y = cy + dy;
            if self.in_bounds(x, y) {
                if matches!(self.tile(x, y), Tile::Floor | Tile::Oil) {
                    let npc_type = (rng.next_u64() % 4) as u8;
                    self.put_near(x, y, Tile::Npc(npc_type), Ghost(*room));
                }
            }
        }
    }

    #[verifier::loop_isolation(false)]
    fn room_dragon_gate(&mut self, room: &Room, rng: &mut Rng, cx: i32, cy: i32)
        requires
            old(self).wf(),
            room_inside(*room, old(self).width as int, old(self).height as int),
            cx == room.x + room.w / 2,
            cy == room.y + room.h / 2,
        ensures
            final(self).wf(),
            final(self).same_frame(old(self)),
            confined(old(self), final(self), *room),
    {
        // Gold pile offerings around approach
        let offsets = [(-3,0),(3,0),(0,-3),(0,3),(-2,-2),(2,-2),(-2,2),(2,2)];
        let mut oi: usize = 0;
        while oi < offsets.len()
            invariant
                self.wf(),
                self.same_frame(old(self)),
                room_inside(*room, self.width as int, self.height as int),
                confined(old(self), self, *room),
            decreases offsets.len() - oi,
        {
            let (dx, dy) = offsets[oi];
            oi += 1;
            let x = cx + dx;
            let y = cy + dy;
            if self.in_bounds(x, y) {
                if self.tile(x, y) == Tile::Floor {
                    self.put_near(x, y, Tile::GoldPile, Ghost(*room));
                }
            }
        }
        // Lava moat
        let offsets = [(-1,0),(1,0),(0,-1),(0,1),(-1,-1),(1,-1),(-1,1),(1,1)];
        let mut oi: usize = 0;
        while oi < offsets.len()
            invariant
                self.wf(),
                self.same_frame(old(self)),
                room_inside(*room, self.width as int, self.height as int),
                confined(old(self), self, *room),
            decreases offsets.len() - oi,
        {
            let (dx, dy) = offsets[oi];
            oi += 1;
            let x = cx + dx;
            let y = cy + dy;
            if self.in_bounds(x, y) {
                if matches!(self.tile(x, y), Tile::Floor | Tile::GoldPile) {
                    self.put_near(x, y, Tile::Lava, Ghost(*room));
                }
            }
        }
        // Crystal power conduits
        let offsets = [(-2,-1),(2,-1),(-2,1),(2,1)];
        let mut oi: usize = 0;
        while oi < offsets.len()
            invariant
                self.wf(),
                self.same_frame(old(self)),
                room_inside(*room, self.width as int, self.height as int),
                confined(old(self), self, *room),
            decreases offsets.len() - oi,
        {
            let (dx, dy) = offsets[oi];
            oi += 1;
            let x = cx + dx;
            let y = cy + dy;
            if self.in_bounds(x, y) {
                if matches!(self.tile(x, y), Tile::Floor | Tile::GoldPile) {
                    self.put_near(x, y, Tile::Crystal, Ghost(*room));
                }
            }
        }
        // Safe approach paths (clear lava for cardinal approaches)
        let offsets = [(-2, 0), (2, 0), (0, -2), (0, 2)];
        let mut oi: usize = 0;
        while oi < offsets.len()
            invariant
                self.wf(),
                self.same_frame(old(self)),
                room_inside(*room, self.width as int, self.height as int),
                confined(old(self), self, *room),
            decreases offsets.len() - oi,
        {
            let (dx, dy) = offsets[oi];
            oi += 1;
            let x = cx + dx;
            let y = cy + dy;
            if self.in_bounds(x, y) {
                self.put_near(x, y, Tile::Floor, Ghost(*room));
            }
            let lx = cx + dx / 2;
            let ly = cy + dy / 2;
            if self.in_bounds(lx, ly) {
                if self.tile(lx, ly) == Tile::Lava {
                    self.put_near(lx, ly, Tile::Floor, Ghost(*room));
                }
            }
        }
        // Dragon gate portal at center
        if self.in_bounds(cx, cy) {
            self.put_near(cx, cy, Tile::DragonGatePortal, Ghost(*room));
        }
    }

    #[verifier::loop_isolation(false)]
    fn room_gambling_den(&mut self, room: &Room, rng: &mut Rng, cx: i32, cy: i32)
        requires
            old(self).wf(),
            room_inside(*room, old(self).width as int, old(self).height as int),
            cx == room.x + room.w / 2,
            cy == room.y + room.h / 2,
        ensures
            final(self).wf(),
            final(self).same_frame(old(self)),
            confined(old(self), final(self), *room),
    {
        // 3 urns (chests) in a row, player picks one
        let step_start: i32 = -1;
        let step_end: i32 = 1;
        let mut step: i32 = step_start;
        while step <= step_end
            invariant
                self.wf(),
                self.same_frame(old(self)),
                room_inside(*room, self.width as int, self.height as int),
                confined(old(self), self, *room),
                step == step_start || (step_start <= step && step <= step_end + 1),
            decreases step_end + 1 - step,
        {
            let dx = step;
            step = step + 1;
            let x = cx + dx * 2;
            if self.in_bounds(x, cy) {
                if self.tile(x, cy) == Tile::Floor {
                    self.put_near(x, cy, Tile::Chest, Ghost(*room));
                }
            }
        }
        // Gold decoration around the den
        let offsets = [(-3, 0), (3, 0), (0, -2), (0, 2)];
        let mut oi: usize = 0;
        while oi < offsets.len()
            invariant
                self.wf(),
                self.same_frame(old(self)),
                room_inside(*room, self.width as int, self.height as int),
                confined(old(self), self, *room),
            decreases offsets.len() - oi,
        {
            let (dx, dy) = offsets[oi];
            oi += 1;
            let x = cx + dx;
            let y = cy + dy;
            if self.in_bounds(x, y) {
                if self.tile(x, y) == Tile::Floor {
                    self.put_near(x, y, Tile::GoldPile, Ghost(*room));
                }
            }
        }
    }

    #[verifier::loop_isolation(false)]
    fn room_blood_altar(&mut self, room: &Room, rng: &mut Rng, cx: i32, cy: i32)
        requires
            old(self).wf(),
            room_inside(*room, old(self).width as int, old(self).height as int),
            cx == room.x + room.w / 2,
            cy == room.y + room.h / 2,
        ensures
            final(self).wf(),
            final(self).same_frame(old(self)),
            confined(old(self), final(self), *room),
    {
        // Central altar with blood pools (lava-styled)
        if self.in_bounds(cx, cy) {
            if self.tile(cx, cy) == Tile::Floor {
                self.put_near(cx, cy, Tile::Altar(AltarKind::Iron), Ghost(*room));
            }
        }
        let offsets = [(-1, -1), (1, -1), (-1, 1), (1, 1)];
        let mut oi: usize = 0;
        while oi < offsets.len()
            invariant
                self.wf(),
                self.same_frame(old(self)),
                room_inside(*room, self.width as int, self.height as int),
                confined(old(self), self, *room),
            decreases offsets.len() - oi,
        {
            let (dx, dy) = offsets[oi];
            oi += 1;
            let x = cx + dx;
            let y = cy + dy;
            if self.in_bounds(x, y) {
                if self.tile(x, y) == Tile::Floor {
                    self.put_near(x, y, Tile::Oil, Ghost(*room));
                }
            }
        }
    }

    #[verifier::loop_isolation(false)]
    fn room_cursed_treasure(&mut self, room: &Room, rng: &mut Rng, cx: i32, cy: i32)
        requires
            old(self).wf(),
            room_inside(*room, old(self).width as int, old(self).height as int),
            cx == room.x + room.w / 2,
            cy == room.y + room.h / 2,
        ensures
            final(self).wf(),
            final(self).same_frame(old(self)),
            confined(old(self), final(self), *room),
    {
        // Ominous chest surrounded by cursed floor
        if self.in_bounds(cx, cy) {
            if self.tile(cx, cy) == Tile::Floor {
                self.put_near(cx, cy, Tile::Chest, Ghost(*room));
            }
        }
        let step_start: i32 = -1;
        let step_end: i32 = 1;
        let mut step: i32 = step_start;
        while step <= step_end
            invariant
                self.wf(),
                self.same_frame(old(self)),
                room_inside(*room, self.width as int, self.height as int),
                confined(old(self), self, *room),
                step == step_start || (step_start <= step && step <= step_end + 1),
            decreases step_end + 1 - step,
        {
            let dy = step;
            step = step + 1;
            let step_start: i32 = -1;
            let step_end: i32 = 1;
            let mut step: i32 = step_start;
            while step <= step_end
                invariant
                    self.wf(),
                    self.same_frame(old(self)),
                    room_inside(*room, self.width as int, self.height as int),
                    confined(old(self), self, *room),
                    step == step_start || (step_start <= step && step <= step_end + 1),
                decreases step_end + 1 - step,
            {
                let dx = step;
                step = step + 1;
                if dx == 0 && dy == 0 { continue; }
                let x = cx + dx;
                let y = cy + dy;
                if self.in_bounds(x, y) {
                    if self.tile(x, y) == Tile::Floor {
                        self.put_near(x, y, Tile::CursedFloor, Ghost(*room));
                    }
                }
            }
        }
    }

    #[verifier::loop_isolation(false)]
    fn room_soul_forge(&mut self, room: &Room, rng: &mut Rng, cx: i32, cy: i32)
        requires
            old(self).wf(),
            room_inside(*room, old(self).width as int, old(self).height as int),
            cx == room.x + room.w / 2,
            cy == room.y + room.h / 2,
        ensures
            final(self).wf(),
            final(self).same_frame(old(self)),
            confined(old(self), final(self), *room),
    {
        // Ethereal forge with crystal pillars
        if self.in_bounds(cx, cy) {
            if self.tile(cx, cy) == Tile::Floor {
                self.put_near(cx, cy, Tile::Forge, Ghost(*room));
            }
        }
        let offsets = [(-2, -1), (2, -1), (-2, 1), (2, 1)];
        let mut oi: usize = 0;
        while oi < offsets.len()
            invariant
                self.wf(),
                self.same_frame(old(self)),
                room_inside(*room, self.width as int, self.height as int),
                confined(old(self), self, *room),
            decreases offsets.len() - oi,
        {
            let (dx, dy) = offsets[oi];
            oi += 1;
            let x = cx + dx;
            let y = cy + dy;
            if self.in_bounds(x, y) {
                if self.tile(x, y) == Tile::Floor {
                    self.put_near(x, y, Tile::Crystal, Ghost(*room));
                }
            }
        }
        // Spirit spring fuel
        if self.in_bounds(cx, cy + 1) {
            if self.tile(cx, cy + 1) == Tile::Floor {
                self.put_near(cx, cy + 1, Tile::Lava, Ghost(*room));
            }
        }
    }

    #[verifier::loop_isolation(false)]
    fn room_wishing_well(&mut self, room: &Room, rng: &mut Rng, cx: i32, cy: i32)
        requires
            old(self).wf(),
            room_inside(*room, old(self).width as int, old(self).height as int),
            cx == room.x + room.w / 2,
            cy == room.y + room.h / 2,
        ensures
            final(self).wf(),
            final(self).same_frame(old(self)),
            confined(old(self), final(self), *room),
    {
        // Deep water well with water ring
        if self.in_bounds(cx, cy) {
            if self.tile(cx, cy) == Tile::Floor {
                self.put_near(cx, cy, Tile::DeepWater, Ghost(*room));
            }
        }
        let offsets = [(-1,0),(1,0),(0,-1),(0,1)];
        let mut oi: usize = 0;
        while oi < offsets.len()
            invariant
                self.wf(),
                self.same_frame(old(self)),
                room_inside(*room, self.width as int, self.height as int),
                confined(old(self), self, *room),
            decreases offsets.len() - oi,
        {
            let (dx, dy) = offsets[oi];
            oi += 1;
            let x = cx + dx;
            let y = cy + dy;
            if self.in_bounds(x, y) {
                if self.tile(x, y) == Tile::Floor {
                    self.put_near(x, y, Tile::Water, Ghost(*room));
                }
            }
        }
        // Gold offerings around well
        let offsets = [(-2, 0), (2, 0), (0, -2), (0, 2)];
        let mut oi: usize = 0;
        while oi < offsets.len()
            invariant
                self.wf(),
                self.same_frame(old(self)),
                room_inside(*room, self.width as int, self.height as int),
                confined(old(self), self, *room),
            decreases offsets.len() - oi,
        {
            let (dx, dy) = offsets[oi];
            oi += 1;
            let x = cx + dx;
            let y = cy + dy;
            if self.in_bounds(x, y) {
                if self.tile(x, y) == Tile::Floor {
                    self.put_near(x, y, Tile::GoldPile, Ghost(*room));
                }
            }
        }
    }

    #[verifier::loop_isolation(false)]
    fn room_rune_gate(&mut self, room: &Room, rng: &mut Rng, cx: i32, cy: i32)
        requires
            old(self).wf(),
            room_inside(*room, old(self).width as int, old(self).height as int),
            cx == room.x + room.w / 2,
            cy == room.y + room.h / 2,
        ensures
            final(self).wf(),
            final(self).same_frame(old(self)),
            confined(old(self), final(self), *room),
    {
        // 4 pressure plates in cardinal directions (rune positions)
        let offsets = [(-2, 0), (2, 0), (0, -2), (0, 2)];
        let mut oi: usize = 0;
        while oi < offsets.len()
            invariant
                self.wf(),
                self.same_frame(old(self)),
                room_inside(*room, self.width as int, self.height as int),
                confined(old(self), self, *room),
            decreases offsets.len() - oi,
        {
            let (dx, dy) = offsets[oi];
            oi += 1;
            let x = cx + dx;
            let y = cy + dy;
            if self.in_bounds(x, y) {
                if self.tile(x, y) == Tile::Floor {
                    self.put_near(x, y, Tile::PressurePlate, Ghost(*room));
                }
            }
        }
        // Locked treasure in center
        if self.in_bounds(cx, cy) {
            if self.tile(cx, cy) == Tile::Floor {
                self.put_near(cx, cy, Tile::LockedDoor, Ghost(*room));
            }
        }
    }

    #[verifier::loop_isolation(false)]
    fn room_mirror_maze(&mut self, room: &Room, rng: &mut Rng, cx: i32, cy: i32)
        requires
            old(self).wf(),
            room_inside(*room, old(self).width as int, old(self).height as int),
            cx == room.x + room.w / 2,
            cy == room.y + room.h / 2,
        ensures
            final(self).wf(),
            final(self).same_frame(old(self)),
            confined(old(self), final(self), *room),
    {
        // Grid of crystals (mirrors) with walkable paths
        let row_start: i32 = room.y + 1;
        let row_end: i32 = room.y + room.h - 1;
        let mut row: i32 = row_start;
        while row < row_end
            invariant
                self.wf(),
                self.same_frame(old(self)),
                room_inside(*room, self.width as int, self.height as int),
                confined(old(self), self, *room),
                row == row_start || (row_start <= row && row <= row_end),
            decreases row_end - row,
        {
            let y = row;
            row = row + 1;
            let col_start: i32 = room.x + 1;
            let col_end: i32 = room.x + room.w - 1;
            let mut col: i32 = col_start;
            while col < col_end
                invariant
                    self.wf(),
                    self.same_frame(old(self)),
                    room_inside(*room, self.width as int, self.height as int),
                    confined(old(self), self, *room),
                    col == col_start || (col_start <= col && col <= col_end),
                decreases col_end - col,
            {
                let x = col;
                col = col + 1;
                if self.in_bounds(x, y) && (x + y) % 3 == 0 && !(x == cx && y == cy) {
                    if self.tile(x, y) == Tile::Floor {
                        self.put_near(x, y, Tile::Crystal, Ghost(*room));
                    }
                }
            }
        }
        // Reward in center
        if self.in_bounds(cx, cy) {
            if self.tile(cx, cy) == Tile::Floor {
                self.put_near(cx, cy, Tile::Chest, Ghost(*room));
            }
        }
    }

    #[verifier::loop_isolation(false)]
    fn room_weight_puzzle(&mut self, room: &Room, rng: &mut Rng, cx: i32, cy: i32)
        requires
            old(self).wf(),
            room_inside(*room, old(self).width as int, old(self).height as int),
            cx == room.x + room.w / 2,
            cy == room.y + room.h / 2,
        ensures
            final(self).wf(),
            final(self).same_frame(old(self)),
            confined(old(self), final(self), *room),
    {
        // 3 pressure plates in a triangle, 3 boulders nearby, ice floor
        let plates = [(cx - 2, cy), (cx + 2, cy), (cx, cy - 2)];
        let boulders = [(cx - 2, cy + 1), (cx + 2, cy + 1), (cx, cy + 1)];
        let picks = plates;
        let mut pi: usize = 0;
        while pi < picks.len()
            invariant
                self.wf(),
                self.same_frame(old(self)),
                room_inside(*room, self.width as int, self.height as int),
                confined(old(self), self, *room),
            decreases picks.len() - pi,
        {
            let (px, py) = picks[pi];
            pi += 1;
            if self.in_bounds(px, py) {
                if self.tile(px, py) == Tile::Floor {
                    self.put_near(px, py, Tile::PressurePlate, Ghost(*room));
                }
            }
        }
        let picks = boulders;
        let mut pi: usize = 0;
        while pi < picks.len()
            invariant
                self.wf(),
                self.same_frame(old(self)),
                room_inside(*room, self.width as int, self.height as int),
                confined(old(self), self, *room),
            decreases picks.len() - pi,
        {
            let (bx, by) = picks[pi];
            pi += 1;
            if self.in_bounds(bx, by) {
                if self.tile(bx, by) == Tile::Floor {
                    self.put_near(bx, by, Tile::Boulder, Ghost(*room));
                }
            }
        }
        // Ice floor for sliding
        let row_start: i32 = room.y + 1;
        let row_end: i32 = room.y + room.h - 1;
        let mut row: i32 = row_start;
        while row < row_end
            invariant
                self.wf(),
                self.same_frame(old(self)),
                room_inside(*room, self.width as int, self.height as int),
                confined(old(self), self, *room),
                row == row_start || (row_start <= row && row <= row_end),
            decreases row_end - row,
        {
            let y = row;
            row = row + 1;
            let col_start: i32 = room.x + 1;
            let col_end: i32 = room.x + room.w - 1;
            let mut col: i32 = col_start;
            while col < col_end
                invariant
                    self.wf(),
                    self.same_frame(old(self)),
                    room_inside(*room, self.width as int, self.height as int),
                    confined(old(self), self, *room),
                    col == col_start || (col_start <= col && col <= col_end),
                decreases col_end - col,
            {
                let x = col;
                col = col + 1;
                if self.in_bounds(x, y) {
                    if self.tile(x, y) == Tile::Floor {
                        self.put_near(x, y, Tile::Ice, Ghost(*room));
                    }
                }
            }
        }
        // Locked chest reward
        if self.in_bounds(cx, cy) {
            self.put_near(cx, cy, Tile::Chest, Ghost(*room));
        }
    }

    #[verifier::loop_isolation(false)]
    fn room_tone_staircase(&mut self, room: &Room, rng: &mut Rng, cx: i32, cy: i32)
        requires
            old(self).wf(),
            room_inside(*room, old(self).width as int, old(self).height as int),
            cx == room.x + room.w / 2,
            cy == room.y + room.h / 2,
        ensures
            final(self).wf(),
            final(self).same_frame(old(self)),
            confined(old(self), final(self), *room),
    {
        // 4 ascending shrines in a line
        let step_start: i32 = 0;
        let step_end: i32 = 4;
        let mut step: i32 = step_start;
        while step < step_end
            invariant
                self.wf(),
                self.same_frame(old(self)),
                room_inside(*room, self.width as int, self.height as int),
                confined(old(self), self, *room),
                step == step_start || (step_start <= step && step <= step_end),
            decreases step_end - step,
        {
            let i = step;
            step = step + 1;
            let x = cx - 1 + i;
            if self.in_bounds(x, cy) {
                if self.tile(x, cy) == Tile::Floor {
                    self.put_near(x, cy, Tile::Shrine, Ghost(*room));
                }
            }
        }
        // Reward chest at the top
        if self.in_bounds(cx + 3, cy) {
            if self.tile(cx + 3, cy) == Tile::Floor {
                self.put_near(cx + 3, cy, Tile::Chest, Ghost(*room));
            }
        }
    }

    #[verifier::loop_isolation(false)]
    fn room_elemental_lock(&mut self, room: &Room, rng: &mut Rng, cx: i32, cy: i32)
        requires
            old(self).wf(),
            room_inside(*room, old(self).width as int, old(self).height as int),
            cx == room.x + room.w / 2,
            cy == room.y + room.h / 2,
        ensures
            final(self).wf(),
            final(self).same_frame(old(self)),
            confined(old(self), final(self), *room),
    {
        // Locked door with 5 elemental altars
        if self.in_bounds(cx, cy) {
            if self.tile(cx, cy) == Tile::Floor {
                self.put_near(cx, cy, Tile::LockedDoor, Ghost(*room));
            }
        }
        let altars = [
            (cx - 2, cy - 1, AltarKind::Jade),
            (cx + 2, cy - 1, AltarKind::Gale),
            (cx - 2, cy + 1, AltarKind::Iron),
            (cx + 2, cy + 1, AltarKind::Gold),
            (cx, cy + 2, AltarKind::Mirror),
        ];
        let picks = altars;
        let mut pi: usize = 0;
        while pi < picks.len()
            invariant
                self.wf(),
                self.same_frame(old(self)),
                room_inside(*room, self.width as int, self.height as int),
                confined(old(self), self, *room),
            decreases picks.len() - pi,
        {
            let (ax, ay, akind) = picks[pi];
            pi += 1;
            if self.in_bounds(ax, ay) {
                if self.tile(ax, ay) == Tile::Floor {
                    self.put_near(ax, ay, Tile::Altar(akind), Ghost(*room));
                }
            }
        }
        // Chest behind the locked door
        if self.in_bounds(cx, cy - 1) {
            if self.tile(cx, cy - 1) == Tile::Floor {
                self.put_near(cx, cy - 1, Tile::Chest, Ghost(*room));
            }
        }
    }

    #[verifier::loop_isolation(false)]
    fn room_survival_pit(&mut self, room: &Room, rng: &mut Rng, cx: i32, cy: i32)
        requires
            old(self).wf(),
            room_inside(*room, old(self).width as int, old(self).height as int),
            cx == room.x + room.w / 2,
            cy == room.y + room.h / 2,
        ensures
            final(self).wf(),
            final(self).same_frame(old(self)),
            confined(old(self), final(self), *room),
    {
        // Open arena with spikes border, central floor
        let col_start: i32 = room.x + 1;
        let col_end: i32 = room.x + room.w - 1;
        let mut col: i32 = col_start;
        while col < col_end
            invariant
                self.wf(),
                self.same_frame(old(self)),
                room_inside(*room, self.width as int, self.height as int),
                confined(old(self), self, *room),
                col == col_start || (col_start <= col && col <= col_end),
            decreases col_end - col,
        {
            let x = col;
            col = col + 1;
            let lines = [room.y + 1, room.y + room.h - 2];
            let mut li: usize = 0;
            while li < lines.len()
                invariant
                    self.wf(),
                    self.same_frame(old(self)),
                    room_inside(*room, self.width as int, self.height as int),
                    confined(old(self), self, *room),
                decreases lines.len() - li,
            {
                let y = lines[li];
                li += 1;
                if self.in_bounds(x, y) {
                    if self.tile(x, y) == Tile::Floor {
                        self.put_near(x, y, Tile::Spikes, Ghost(*room));
                    }
                }
            }
        }
        let row_start: i32 = room.y + 1;
        let row_end: i32 = room.y + room.h - 1;
        let mut row: i32 = row_start;
        while row < row_end
            invariant
                self.wf(),
                self.same_frame(old(self)),
                room_inside(*room, self.width as int, self.height as int),
                confined(old(self), self, *room),
                row == row_start || (row_start <= row && row <= row_end),
            decreases row_end - row,
        {
            let y = row;
            row = row + 1;
            let lines = [room.x + 1, room.x + room.w - 2];
            let mut li: usize = 0;
            while li < lines.len()
                invariant
                    self.wf(),
                    self.same_frame(old(self)),
                    room_inside(*room, self.width as int, self.height as int),
                    confined(old(self), self, *room),
                decreases lines.len() - li,
            {
                let x = lines[li];
                li += 1;
                if self.in_bounds(x, y) {
                    if self.tile(x, y) == Tile::Floor {
                        self.put_near(x, y, Tile::Spikes, Ghost(*room));
                    }
                }
            }
        }
    }

    #[verifier::loop_isolation(false)]
    fn room_treasure_race(&mut self, room: &Room, rng: &mut Rng, cx: i32, cy: i32)
        requires
            old(self).wf(),
            room_inside(*room, old(self).width as int, old(self).height as int),
            cx == room.x + room.w / 2,
            cy == room.y + room.h / 2,
        ensures
            final(self).wf(),
            final(self).same_frame(old(self)),
            confined(old(self), final(self), *room),
    {
        // Open room, gold piles scattered (collected on step)
        let step_start: i32 = 0;
        let step_end: i32 = 6;
        let mut step: i32 = step_start;
        while step < step_end
            invariant
                self.wf(),
                self.same_frame(old(self)),
                room_inside(*room, self.width as int, self.height as int),
                confined(old(self), self, *room),
                step == step_start || (step_start <= step && step <= step_end),
            decreases step_end - step,
        {
            step = step + 1;
            let x = rng.range(room.x + 1, room.x + room.w - 1);
            let y = rng.range(room.y + 1, room.y + room.h - 1);
            if self.in_bounds(x, y) {
                if self.tile(x, y) == Tile::Floor {
                    self.put_near(x, y, Tile::GoldPile, Ghost(*room));
                }
            }
        }
    }

    #[verifier::loop_isolation(false)]
    fn room_collapsing_chamber(&mut self, room: &Room, rng: &mut Rng, cx: i32, cy: i32)
        requires
            old(self).wf(),
            room_inside(*room, old(self).width as int, old(self).height as int),
            cx == room.x + room.w / 2,
            cy == room.y + room.h / 2,
        ensures
            final(self).wf(),
            final(self).same_frame(old(self)),
            confined(old(self), final(self), *room),
    {
        // Spikes on the outer ring, treasure chest in center
        let col_start: i32 = room.x + 1;
        let col_end: i32 = room.x + room.w - 1;
        let mut col: i32 = col_start;
        while col < col_end
            invariant
                self.wf(),
                self.same_frame(old(self)),
                room_inside(*room, self.width as int, self.height as int),
                confined(old(self), self, *room),
                col == col_start || (col_start <= col && col <= col_end),
            decreases col_end - col,
        {
            let x = col;
            col = col + 1;
            let lines = [room.y + 1, room.y + room.h - 2];
            let mut li: usize = 0;
            while li < lines.len()
                invariant
                    self.wf(),
                    self.same_frame(old(self)),
                    room_inside(*room, self.width as int, self.height as int),
                    confined(old(self), self, *room),
                decreases lines.len() - li,
            {
                let y = lines[li];
                li += 1;
                if self.in_bounds(x, y) {
                    if self.tile(x, y) == Tile::Floor {
                        self.put_near(x, y, Tile::Spikes, Ghost(*room));
                    }
                }
            }
        }
        let row_start: i32 = room.y + 2;
        let row_end: i32 = room.y + room.h - 2;
        let mut row: i32 = row_start;
        while row < row_end
            invariant
                self.wf(),
                self.same_frame(old(self)),
                room_inside(*room, self.width as int, self.height as int),
                confined(old(self), self, *room),
                row == row_start || (row_start <= row && row <= row_end),
            decreases row_end - row,
        {
            let y = row;
            row = row + 1;
            let lines = [room.x + 1, room.x + room.w - 2];
            let mut li: usize = 0;
            while li < lines.len()
                invariant
                    self.wf(),
                    self.same_frame(old(self)),
                    room_inside(*room, self.width as int, self.height as int),
                    confined(old(self), self, *room),
                decreases lines.len() - li,
            {
                let x = lines[li];
                li += 1;
                if self.in_bounds(x, y) {
                    if self.tile(x, y) == Tile::Floor {
                        self.put_near(x, y, Tile::Spikes, Ghost(*room));
                    }
                }
            }
        }
        // Treasure at center
        if self.in_bounds(cx, cy) {
            if self.tile(cx, cy) == Tile::Floor {
                self.put_near(cx, cy, Tile::Chest, Ghost(*room));
            }
        }
    }

    #[verifier::loop_isolation(false)]
    fn room_ink_flood(&mut self, room: &Room, rng: &mut Rng, cx: i32, cy: i32)
        requires
            old(self).wf(),
            room_inside(*room, old(self).width as int, old(self).height as int),
            cx == room.x + room.w / 2,
            cy == room.y + room.h / 2,
        ensures
            final(self).wf(),
            final(self).same_frame(old(self)),
            confined(old(self), final(self), *room),
    {
        // Ink (oil) flooding most of the room
        let row_start: i32 = room.y + 1;
        let row_end: i32 = room.y + room.h - 1;
        let mut row: i32 = row_start;
        while row < row_end
            invariant
                self.wf(),
                self.same_frame(old(self)),
                room_inside(*room, self.width as int, self.height as int),
                confined(old(self), self, *room),
                row == row_start || (row_start <= row && row <= row_end),
            decreases row_end - row,
        {
            let y = row;
            row = row + 1;
            let col_start: i32 = room.x + 1;
            let col_end: i32 = room.x + room.w - 1;
            let mut col: i32 = col_start;
            while col < col_end
                invariant
                    self.wf(),
                    self.same_frame(old(self)),
                    room_inside(*room, self.width as int, self.height as int),
                    confined(old(self), self, *room),
                    col == col_start || (col_start <= col && col <= col_end),
                decreases col_end - col,
            {
                let x = col;
                col = col + 1;
                if self.in_bounds(x, y) && rng.next_u64() % 3 != 0 {
                    if self.tile(x, y) == Tile::Floor {
                        self.put_near(x, y, Tile::Oil, Ghost(*room));
                    }
                }
            }
        }
        // InkWell at center for bonus
        if self.in_bounds(cx, cy) {
            self.put_near(cx, cy, Tile::InkWell, Ghost(*room));
        }
        // Chest as reward near edge
        let rx = room.x + room.w - 2;
        if self.in_bounds(rx, cy) {
            self.put_near(rx, cy, Tile::Chest, Ghost(*room));
        }
    }

    fn room_form_shrine(&mut self, room: &Room, rng: &mut Rng, cx: i32, cy: i32)
        requires
            old(self).wf(),
            room_inside(*room, old(self).width as int, old(self).height as int),
            cx == room.x + room.w / 2,
            cy == room.y + room.h / 2,
        ensures
            final(self).wf(),
            final(self).same_frame(old(self)),
            confined(old(self), final(self), *room),
            forall|x: int, y: int|
                #[trigger] final(self).tile_spec(x, y) == form_shrine_tile(old(self).tile_spec(x, y), cx as int, cy as int, x, y),
            *final(rng) == *old(rng),
    {
        // Central shrine with 4 elemental markers
        self.put_if_floor(cx, cy, Tile::Shrine, Ghost(*room));
        self.put_if_floor(cx - 2, cy, Tile::Lava, Ghost(*room));  // Flame
        self.put_if_floor(cx + 2, cy, Tile::Boulder, Ghost(*room));  // Stone
        self.put_if_floor(cx, cy - 2, Tile::Water, Ghost(*room));  // Mist
        self.put_if_floor(cx, cy + 2, Tile::PressurePlate, Ghost(*room));  // Tiger
    }

    /// Writes `t` at `(x, y)` when that tile is in the grid and is floor.
    fn put_if_floor(&mut self, x: i32, y: i32, t: Tile, Ghost(room): Ghost<Room>)
        requires
            old(self).wf(),
            near_room(room, x as int, y as int),
        ensures
            final(self).wf(),
            final(self).same_frame(old(self)),
            confined(old(self), final(self), room),
            forall|px: int, py: int|
                #[trigger] final(self).tile_spec(px, py) == if px == x && py == y && old(self).tile_spec(px, py) == Tile::Floor {
                    t
                } else {
                    old(self).tile_spec(px, py)
                },
    {
        if self.in_bounds(x, y) {
            if self.tile(x, y) == Tile::Floor {
                let ghost before = *self;
                self.put_near(x, y, t, Ghost(room));
                proof {
                    self.lemma_put_read(&before, x as int, y as int, t);
                }
            }
        }
    }

    fn room_class_trial(&mut self, room: &Room, rng: &mut Rng, cx: i32, cy: i32)
        requires
            old(self).wf(),
            room_inside(*room, old(self).width as int, old(self).height as int),
            cx == room.x + room.w / 2,
            cy == room.y + room.h / 2,
        ensures
            final(self).wf(),
            final(self).same_frame(old(self)),
            confined(old(self), final(self), *room),
            forall|x: int, y: int|
                #[trigger] final(self).tile_spec(x, y) == class_trial_tile(old(self).tile_spec(x, y), cx as int, cy as int, x, y),
            *final(rng) == *old(rng),
    {
        // Training dummies (pressure plates) with obstacle course
        self.put_if_floor(cx - 2, cy - 1, Tile::PressurePlate, Ghost(*room));
        self.put_if_floor(cx + 2, cy - 1, Tile::PressurePlate, Ghost(*room));
        self.put_if_floor(cx - 2, cy + 1, Tile::PressurePlate, Ghost(*room));
        self.put_if_floor(cx + 2, cy + 1, Tile::PressurePlate, Ghost(*room));
        // Reward altar at center
        self.put_if_floor(cx, cy, Tile::Altar(AltarKind::Iron), Ghost(*room));
    }

    #[verifier::loop_isolation(false)]
    fn room_radical_fountain(&mut self, room: &Room, rng: &mut Rng, cx: i32, cy: i32)
        requires
            old(self).wf(),
            room_inside(*room, old(self).width as int, old(self).height as int),
            cx == room.x + room.w / 2,
            cy == room.y + room.h / 2,
        ensures
            final(self).wf(),
            final(self).same_frame(old(self)),
            confined(old(self), final(self), *room),
    {
        // Spirit spring fountain with water and crystals
        if self.in_bounds(cx, cy) {
            if self.tile(cx, cy) == Tile::Floor {
                self.put_near(cx, cy, Tile::SpiritSpringTile, Ghost(*room));
            }
        }
        let step_start: i32 = -1;
        let step_end: i32 = 1;
        let mut step: i32 = step_start;
        while step <= step_end
            invariant
                self.wf(),
                self.same_frame(old(self)),
                room_inside(*room, self.width as int, self.height as int),
                confined(old(self), self, *room),
                step == step_start || (step_start <= step && step <= step_end + 1),
            decreases step_end + 1 - step,
        {
            let dy = step;
            step = step + 1;
            let step_start: i32 = -1;
            let step_end: i32 = 1;
            let mut step: i32 = step_start;
            while step <= step_end
                invariant
                    self.wf(),
                    self.same_frame(old(self)),
                    room_inside(*room, self.width as int, self.height as int),
                    confined(old(self), self, *room),
                    step == step_start || (step_start <= step && step <= step_end + 1),
                decreases step_end + 1 - step,
            {
                let dx = step;
                step = step + 1;
                if dx == 0 && dy == 0 { continue; }
                let x = cx + dx;
                let y = cy + dy;
                if self.in_bounds(x, y) {
                    if self.tile(x, y) == Tile::Floor {
                        self.put_near(x, y, Tile::Water, Ghost(*room));
                    }
                }
            }
        }
        let offsets = [(-2, -2), (2, -2), (-2, 2), (2, 2)];
        let mut oi: usize = 0;
        while oi < offsets.len()
            invariant
                self.wf(),
                self.same_frame(old(self)),
                room_inside(*room, self.width as int, self.height as int),
                confined(old(self), self, *room),
            decreases offsets.len() - oi,
        {
            let (dx, dy) = offsets[oi];
            oi += 1;
            let x = cx + dx;
            let y = cy + dy;
            if self.in_bounds(x, y) {
                if self.tile(x, y) == Tile::Floor {
                    self.put_near(x, y, Tile::Crystal, Ghost(*room));
                }
            }
        }
    }

    fn room_ancestor_tomb(&mut self, room: &Room, rng: &mut Rng, cx: i32, cy: i32)
        requires
            old(self).wf(),
            room_inside(*room, old(self).width as int, old(self).height as int),
            cx == room.x + room.w / 2,
            cy == room.y + room.h / 2,
        ensures
            final(self).wf(),
            final(self).same_frame(old(self)),
            confined(old(self), final(self), *room),
            forall|x: int, y: int|
                #[trigger] final(self).tile_spec(x, y) == ancestor_tomb_tile(old(self).tile_spec(x, y), *room, cx as int, cy as int, x, y),
            *final(rng) == *old(rng),
    {
        // Tomb with bookshelf walls and central chest (weapon)
        self.put_if_floor(cx, cy, Tile::Chest, Ghost(*room));
        self.put_if_floor(cx, cy - 1, Tile::Altar(AltarKind::Jade), Ghost(*room));
        let top = room.y + 1;
        let bottom = room.y + room.h - 2;
        self.put_if_floor(cx - 1, top, Tile::Bookshelf, Ghost(*room));
        self.put_if_floor(cx - 1, bottom, Tile::Bookshelf, Ghost(*room));
        self.put_if_floor(cx, top, Tile::Bookshelf, Ghost(*room));
        self.put_if_floor(cx, bottom, Tile::Bookshelf, Ghost(*room));
        self.put_if_floor(cx + 1, top, Tile::Bookshelf, Ghost(*room));
        self.put_if_floor(cx + 1, bottom, Tile::Bookshelf, Ghost(*room));
    }

    #[verifier::loop_isolation(false)]
    fn room_prophecy_room(&mut self, room: &Room, rng: &mut Rng, cx: i32, cy: i32)
        requires
            old(self).wf(),
            room_inside(*room, old(self).width as int, old(self).height as int),
            cx == room.x + room.w / 2,
            cy == room.y + room.h / 2,
        ensures
            final(self).wf(),
            final(self).same_frame(old(self)),
            confined(old(self), final(self), *room),
            forall|x: int, y: int|
                #[trigger] final(self).tile_spec(x, y) == prophecy_tile(old(self).tile_spec(x, y), *room, cx as int, cy as int, x, y),
            *final(rng) == *old(rng),
    {
        let ghost orig = *self;
        // Murals (bookshelves) on all walls, crystal ball in center
        let col_start: i32 = room.x + 1;
        let col_end: i32 = room.x + room.w - 1;
        let mut col: i32 = col_start;
        while col < col_end
            invariant
                self.wf(),
                self.same_frame(old(self)),
                room_inside(*room, self.width as int, self.height as int),
                confined(old(self), self, *room),
                col == col_start || (col_start <= col && col <= col_end),
                orig == *old(self),
                col_start == room.x + 1,
                col_end == room.x + room.w - 1,
                forall|x: int, y: int|
                    #[trigger] self.tile_spec(x, y) == if (y == room.y + 1 || y == room.y + room.h - 2) && col_start <= x < col
                        && orig.tile_spec(x, y) == Tile::Floor {
                        Tile::Bookshelf
                    } else {
                        orig.tile_spec(x, y)
                    },
            decreases col_end - col,
        {
            let x = col;
            col = col + 1;
            let lines = [room.y + 1, room.y + room.h - 2];
            let mut li: usize = 0;
            while li < lines.len()
                invariant
                    self.wf(),
                    self.same_frame(old(self)),
                    room_inside(*room, self.width as int, self.height as int),
                    confined(old(self), self, *room),
                    orig == *old(self),
                    lines@.len() == 2 && lines@[0] == room.y + 1 && lines@[1] == room.y + room.h - 2,
                    li <= 2,
                    col_start == room.x + 1,
                    col_start <= x < col <= col_end,
                    col == x + 1,
                    forall|px: int, py: int|
                        #[trigger] self.tile_spec(px, py) == if (py == room.y + 1 || py == room.y + room.h - 2) && (col_start <= px < x
                            || (px == x && (py == lines@[0] && li >= 1 || py == lines@[1] && li >= 2)))
                            && orig.tile_spec(px, py) == Tile::Floor {
                            Tile::Bookshelf
                        } else {
                            orig.tile_spec(px, py)
                        },
                decreases lines.len() - li,
            {
                let y = lines[li];
                li += 1;
                if self.in_bounds(x, y) {
                    if self.tile(x, y) == Tile::Floor {
                        let ghost before = *self;
                        self.put_near(x, y, Tile::Bookshelf, Ghost(*room));
                        proof {
                            self.lemma_put_read(&before, x as int, y as int, Tile::Bookshelf);
                        }
                    }
                }
            }
        }
        if self.in_bounds(cx, cy) {
            if self.tile(cx, cy) == Tile::Floor {
                let ghost before = *self;
                self.put_near(cx, cy, Tile::MirrorPool, Ghost(*room));
                proof {
                    self.lemma_put_read(&before, cx as int, cy as int, Tile::MirrorPool);
                }
            }
        }
    }

    fn room_sealed_memory(&mut self, room: &Room, rng: &mut Rng, cx: i32, cy: i32)
        requires
            old(self).wf(),
            room_inside(*room, old(self).width as int, old(self).height as int),
            cx == room.x + room.w / 2,
            cy == room.y + room.h / 2,
        ensures
            final(self).wf(),
            final(self).same_frame(old(self)),
            confined(old(self), final(self), *room),
            forall|x: int, y: int|
                #[trigger] final(self).tile_spec(x, y) == sealed_memory_tile(old(self).tile_spec(x, y), cx as int, cy as int, x, y),
            *final(rng) == *old(rng),
    {
        // Meditation space with shrine and water
        self.put_if_floor(cx, cy, Tile::Shrine, Ghost(*room));
        self.put_if_floor(cx - 1, cy, Tile::Water, Ghost(*room));
        self.put_if_floor(cx + 1, cy, Tile::Water, Ghost(*room));
        self.put_if_floor(cx, cy - 1, Tile::Water, Ghost(*room));
        self.put_if_floor(cx, cy + 1, Tile::Water, Ghost(*room));
        // Bookshelves as memory records
        self.put_if_floor(cx - 2, cy - 2, Tile::Bookshelf, Ghost(*room));
        self.put_if_floor(cx - 1, cy - 2, Tile::Bookshelf, Ghost(*room));
        self.put_if_floor(cx, cy - 2, Tile::Bookshelf, Ghost(*room));
        self.put_if_floor(cx + 1, cy - 2, Tile::Bookshelf, Ghost(*room));
        self.put_if_floor(cx + 2, cy - 2, Tile::Bookshelf, Ghost(*room));
    }

    fn room_demon_seal(&mut self, room: &Room, rng: &mut Rng, cx: i32, cy: i32)
        requires
            old(self).wf(),
            room_inside(*room, old(self).width as int, old(self).height as int),
            cx == room.x + room.w / 2,
            cy == room.y + room.h / 2,
        ensures
            final(self).wf(),
            final(self).same_frame(old(self)),
            confined(old(self), final(self), *room),
            forall|x: int, y: int| #[trigger] final(self).tile_spec(x, y) == demon_seal_tile(old(self), cx as int, cy as int, x, y),
            *final(rng) == *old(rng),
    {
        // Sealed demon NPC with lava barrier
        self.put_if_floor(cx, cy, Tile::Npc(3), Ghost(*room));
        self.put_if_floor(cx - 1, cy - 1, Tile::Lava, Ghost(*room));
        self.put_if_floor(cx, cy - 1, Tile::Lava, Ghost(*room));
        self.put_if_floor(cx + 1, cy - 1, Tile::Lava, Ghost(*room));
        self.put_if_floor(cx - 1, cy, Tile::Lava, Ghost(*room));
        self.put_if_floor(cx + 1, cy, Tile::Lava, Ghost(*room));
        self.put_if_floor(cx - 1, cy + 1, Tile::Lava, Ghost(*room));
        self.put_if_floor(cx, cy + 1, Tile::Lava, Ghost(*room));
        self.put_if_floor(cx + 1, cy + 1, Tile::Lava, Ghost(*room));
        // Safe approach from south
        if self.in_bounds(cx, cy + 1) {
            let ghost before = *self;
            self.put_near(cx, cy + 1, Tile::Floor, Ghost(*room));
            proof {
                self.lemma_put_read(&before, cx as int, cy + 1, Tile::Floor);
            }
        }
        if self.in_bounds(cx, cy + 2) {
            let ghost before = *self;
            self.put_near(cx, cy + 2, Tile::Floor, Ghost(*room));
            proof {
                self.lemma_put_read(&before, cx as int, cy + 2, Tile::Floor);
            }
        }
    }

    fn room_phoenix_nest(&mut self, room: &Room, rng: &mut Rng, cx: i32, cy: i32)
        requires
            old(self).wf(),
            room_inside(*room, old(self).width as int, old(self).height as int),
            cx == room.x + room.w / 2,
            cy == room.y + room.h / 2,
        ensures
            final(self).wf(),
            final(self).same_frame(old(self)),
            confined(old(self), final(self), *room),
            forall|x: int, y: int| #[trigger] final(self).tile_spec(x, y) == phoenix_nest_tile(old(self), cx as int, cy as int, x, y),
            *final(rng) == *old(rng),
    {
        // Central spirit spring with lava nest ring
        self.put_if_floor(cx, cy, Tile::SpiritSpringTile, Ghost(*room));
        self.put_if_floor(cx - 1, cy, Tile::Lava, Ghost(*room));
        self.put_if_floor(cx + 1, cy, Tile::Lava, Ghost(*room));
        self.put_if_floor(cx, cy - 1, Tile::Lava, Ghost(*room));
        self.put_if_floor(cx, cy + 1, Tile::Lava, Ghost(*room));
        // Chest with phoenix plume
        self.put_if_floor(cx + 2, cy, Tile::Chest, Ghost(*room));
        // Safe paths
        self.clear_unless_chest(cx - 2, cy, Ghost(*room));
        self.clear_unless_chest(cx + 2, cy, Ghost(*room));
        self.clear_unless_chest(cx, cy - 2, Ghost(*room));
        self.clear_unless_chest(cx, cy + 2, Ghost(*room));
    }

    /// Clears `(x, y)` to floor when it is in the grid and holds no chest.
    fn clear_unless_chest(&mut self, x: i32, y: i32, Ghost(room): Ghost<Room>)
        requires
            old(self).wf(),
            near_room(room, x as int, y as int),
        ensures
            final(self).wf(),
            final(self).same_frame(old(self)),
            confined(old(self), final(self), room),
            forall|px: int, py: int|
                #[trigger] final(self).tile_spec(px, py) == if px == x && py == y && old(self).in_bounds_spec(px, py)
                    && old(self).tile_spec(px, py) != Tile::Chest {
                    Tile::Floor
                } else {
                    old(self).tile_spec(px, py)
                },
    {
        if self.in_bounds(x, y) {
            if self.tile(x, y) != Tile::Chest {
                let ghost before = *self;
                self.put_near(x, y, Tile::Floor, Ghost(room));
                proof {
                    self.lemma_put_read(&before, x as int, y as int, Tile::Floor);
                }
            }
        }
    }

    #[verifier::loop_isolation(false)]
    fn room_calligraphy_contest(&mut self, room: &Room, rng: &mut Rng, cx: i32, cy: i32)
        requires
            old(self).wf(),
            room_inside(*room, old(self).width as int, old(self).height as int),
            cx == room.x + room.w / 2,
            cy == room.y + room.h / 2,
        ensures
            final(self).wf(),
            final(self).same_frame(old(self)),
            confined(old(self), final(self), *room),
    {
        // Writing stations with ink wells
        let lines = [-2, 0, 2];
        let mut li: usize = 0;
        while li < lines.len()
            invariant
                self.wf(),
                self.same_frame(old(self)),
                room_inside(*room, self.width as int, self.height as int),
                confined(old(self), self, *room),
            decreases lines.len() - li,
        {
            let dx = lines[li];
            li += 1;
            let x = cx + dx;
            if self.in_bounds(x, cy) {
                if self.tile(x, cy) == Tile::Floor {
                    self.put_near(x, cy, Tile::InkWell, Ghost(*room));
                }
            }
        }
        // NPC judge
        if self.in_bounds(cx, cy - 1) {
            if self.tile(cx, cy - 1) == Tile::Floor {
                self.put_near(cx, cy - 1, Tile::Npc(0), Ghost(*room));
            }
        }
    }

}

} // verus!
