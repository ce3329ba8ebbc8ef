//! Whole-level generation: partition, rooms, corridors, then every furnishing pass.

use vstd::prelude::*;
use crate::rng::Rng;
use crate::util::contains_usize;
use crate::dungeon::tiles::{Tile, SpecialRoomKind};
use crate::dungeon::bsp::{Bsp, MIN_LEAF, corridor_ok};
use super::{DungeonLevel, MAX_SIDE, MAX_ROOMS, room_inside, near_room, changed_only, lemma_grid_size};

verus! {

impl DungeonLevel {
    /// Turns the wall tiles of column `x` between rows `y1` and `y2` into corridor.
    fn carve_corridor_col(&mut self, x: i32, y1: i32, y2: i32)
        requires
            old(self).wf(),
            0 <= y1 <= y2 < old(self).height,
            0 <= x < old(self).width,
        ensures
            final(self).wf(),
            final(self).same_frame(old(self)),
            forall|px: int, py: int|
                #[trigger] final(self).tile_spec(px, py) == if px == x && y1 <= py <= y2 && old(self).tile_spec(
                    px,
                    py,
                ) == Tile::Wall {
                    Tile::Corridor
                } else {
                    old(self).tile_spec(px, py)
                },
    {
        let ghost start = *self;
        let mut y = y1;
        while y <= y2
            invariant
                self.wf(),
                start.wf(),
                self.same_frame(&start),
                start == *old(self),
                0 <= y1 <= y <= y2 + 1,
                y2 < self.height,
                0 <= x < self.width,
                forall|px: int, py: int|
                    #[trigger] self.tile_spec(px, py) == if px == x && y1 <= py < y && start.tile_spec(px, py)
                        == Tile::Wall {
                        Tile::Corridor
                    } else {
                        start.tile_spec(px, py)
                    },
            decreases y2 + 1 - y,
        {
            if self.tile(x, y) == Tile::Wall {
                let ghost before = *self;
                self.put(x, y, Tile::Corridor);
                proof {
                    self.lemma_put_read(&before, x as int, y as int, Tile::Corridor);
                }
            }
            y += 1;
        }
    }

    /// Assign 2-4 rooms per floor as special rooms with unique layouts.
    ///
    /// Only middle rooms (neither the first nor the last) are chosen, each at
    /// most once, and only tiles near a chosen room change.
    fn place_special_rooms(&mut self, rng: &mut Rng, floor: i32)
        requires
            old(self).wf(),
        ensures
            final(self).wf(),
            final(self).width == old(self).width,
            final(self).height == old(self).height,
            final(self).visible@ == old(self).visible@,
            final(self).revealed@ == old(self).revealed@,
            final(self).rooms@.len() == old(self).rooms@.len(),
            forall|i: int|
                0 <= i < old(self).rooms@.len() ==> {
                    let a = #[trigger] final(self).rooms@[i];
                    let b = old(self).rooms@[i];
                    &&& a.x == b.x && a.y == b.y && a.w == b.w && a.h == b.h && a.modifier == b.modifier
                    &&& a.special != b.special ==> 1 <= i < old(self).rooms@.len() - 1 && b.special is None
                        && a.special is Some
                },
            forall|x: int, y: int|
                #[trigger] final(self).tile_spec(x, y) != old(self).tile_spec(x, y) ==> exists|i: int|
                    1 <= i < old(self).rooms@.len() - 1 && near_room(#[trigger] old(self).rooms@[i], x, y),
    {
        let ghost start = *self;
        let n = self.rooms.len();
        if n <= 4 {
            return;
        }
        let cap: u64 = if (n - 2) / 3 < 3 { ((n - 2) / 3) as u64 } else { 3 };
        let desired0 = 2 + (rng.next_u64() % cap) as usize;
        let desired = if desired0 < n - 2 { desired0 } else { n - 2 };
        let mut used: Vec<usize> = Vec::new();
        let mut placed: usize = 0;
        let mut t: usize = 0;
        while t < desired * 8
            invariant
                5 <= n <= MAX_ROOMS,
                n == start.rooms@.len(),
                start == *old(self),
                start.wf(),
                self.wf(),
                desired <= 4,
                placed <= desired,
                self.width == start.width,
                self.height == start.height,
                self.visible@ == start.visible@,
                self.revealed@ == start.revealed@,
                self.rooms@.len() == n,
                forall|i: int|
                    0 <= i < n ==> {
                        let a = #[trigger] self.rooms@[i];
                        let b = start.rooms@[i];
                        &&& a.x == b.x && a.y == b.y && a.w == b.w && a.h == b.h && a.modifier == b.modifier
                        &&& a.special != b.special ==> 1 <= i < n - 1 && b.special is None && a.special is Some
                    },
                forall|x: int, y: int|
                    #[trigger] self.tile_spec(x, y) != start.tile_spec(x, y) ==> exists|i: int|
                        1 <= i < n - 1 && near_room(#[trigger] start.rooms@[i], x, y),
            decreases desired * 8 - t,
        {
            if placed >= desired {
                break;
            }
            t += 1;
            let room_idx = 1 + (rng.next_u64() as usize % (n - 2));
            if contains_usize(&used, room_idx) {
                continue;
            }
            if self.rooms[room_idx].special.is_some() {
                continue;
            }
            let kind = SpecialRoomKind::random_for_floor(rng, floor);
            let room = self.rooms[room_idx];
            assert(room_inside(self.rooms@[room_idx as int], self.width as int, self.height as int));
            let ghost before = *self;
            self.generate_special_room(kind, &room, rng);
            proof {
                assert forall|x: int, y: int|
                    #[trigger] self.tile_spec(x, y) != start.tile_spec(x, y) implies exists|i: int|
                        1 <= i < n - 1 && near_room(#[trigger] start.rooms@[i], x, y) by {
                    if before.tile_spec(x, y) == start.tile_spec(x, y) {
                        assert(near_room(room, x, y));
                        assert(near_room(start.rooms@[room_idx as int], x, y));
                    }
                }
            }
            let mut r = self.rooms[room_idx];
            r.special = Some(kind);
            let ghost mid = *self;
            self.rooms.set(room_idx, r);
            proof {
                assert forall|i: int| 0 <= i < self.rooms@.len() implies room_inside(
                    #[trigger] self.rooms@[i],
                    self.width as int,
                    self.height as int,
                ) by {
                    assert(room_inside(mid.rooms@[i], mid.width as int, mid.height as int));
                }
                assert forall|x: int, y: int| #[trigger] self.tile_spec(x, y) == mid.tile_spec(x, y) by {}
            }
            used.push(room_idx);
            placed += 1;
        }
    }

    /// Builds a level from a seed: a binary space partition gives one room per
    /// leaf, corridors join sibling subtrees, then every furnishing pass runs
    /// and deeper floors get traps.
    ///
    /// The level has at least one room, every room keeps a one-tile margin
    /// inside the grid, the first and last rooms stay plain, and the stairs
    /// down sit at the centre of the last room.
    pub fn generate(width: i32, height: i32, seed: u64, floor: i32) -> (level: Self)
        requires
            MIN_LEAF <= width <= MAX_SIDE,
            MIN_LEAF <= height <= MAX_SIDE,
        ensures
            level.wf(),
            level.width == width,
            level.height == height,
            level.furnishable(),
            level.rooms@.len() >= 1,
            level.rooms@[0].special is None && level.rooms@[0].modifier is None,
            level.rooms@.last().special is None && level.rooms@.last().modifier is None,
            level.tile_spec(level.rooms@.last().center_spec().0, level.rooms@.last().center_spec().1)
                == Tile::StairsDown,
            forall|i: int| 0 <= i < level.visible@.len() ==> !(#[trigger] level.visible@[i]),
            forall|i: int| 0 <= i < level.revealed@.len() ==> !(#[trigger] level.revealed@[i]),
    {
        let mut rng = Rng::new(seed);
        proof {
            lemma_grid_size(width as int, height as int);
        }
        let size = (width * height) as usize;
        let mut bsp = Bsp::new(width, height);
        let leaves = bsp.partition(&mut rng);
        bsp.create_rooms(&leaves, &mut rng);
        let rooms = bsp.collect_rooms(&leaves);
        let mut corridors: Vec<((i32, i32), (i32, i32))> = Vec::new();
        bsp.collect_corridors(0, &mut corridors);
        proof {
            assert(49 * rooms@.len() <= width * height);
        }
        let mut level = DungeonLevel {
            width,
            height,
            tiles: vec![Tile::Wall; size],
            rooms,
            visible: vec![false; size],
            revealed: vec![false; size],
        };
        assert(level.furnishable());
        assert(level.wf());
        // Carve rooms.
        let mut k: usize = 0;
        while k < level.rooms.len()
            invariant
                level.wf(),
                level.furnishable(),
                level.width == width,
                level.height == height,
                level.rooms@.len() >= 1,
                forall|i: int|
                    0 <= i < level.rooms@.len() ==> (#[trigger] level.rooms@[i]).special is None
                        && level.rooms@[i].modifier is None,
                forall|i: int| 0 <= i < level.visible@.len() ==> !(#[trigger] level.visible@[i]),
                forall|i: int| 0 <= i < level.revealed@.len() ==> !(#[trigger] level.revealed@[i]),
            decreases level.rooms@.len() - k,
        {
            let r = level.rooms[k];
            assert(room_inside(level.rooms@[k as int], width as int, height as int));
            level.carve_rect(r.x, r.y, r.w, r.h, Tile::Floor);
            k += 1;
        }
        // Carve L-shaped corridors: along the first row, then down the second column.
        let mut c: usize = 0;
        while c < corridors.len()
            invariant
                level.wf(),
                level.furnishable(),
                level.width == width,
                level.height == height,
                level.rooms@.len() >= 1,
                forall|i: int|
                    0 <= i < level.rooms@.len() ==> (#[trigger] level.rooms@[i]).special is None
                        && level.rooms@[i].modifier is None,
                forall|i: int| 0 <= i < level.visible@.len() ==> !(#[trigger] level.visible@[i]),
                forall|i: int| 0 <= i < level.revealed@.len() ==> !(#[trigger] level.revealed@[i]),
                forall|j: int| 0 <= j < corridors@.len() ==> corridor_ok(#[trigger] corridors@[j], width as int, height as int),
            decreases corridors@.len() - c,
        {
            let ((x1, y1), (x2, y2)) = corridors[c];
            assert(corridor_ok(corridors@[c as int], width as int, height as int));
            let xmin = if x1 < x2 { x1 } else { x2 };
            let xmax = if x1 < x2 { x2 } else { x1 };
            level.carve_corridor_row(xmin, xmax, y1);
            let ymin = if y1 < y2 { y1 } else { y2 };
            let ymax = if y1 < y2 { y2 } else { y1 };
            level.carve_corridor_col(x2, ymin, ymax);
            c += 1;
        }
        let ghost carved = level;
        level.place_special_rooms(&mut rng, floor);
        assert(level.furnishable());
        let ghost n = level.rooms@.len();
        let ghost last = level.rooms@[n - 1];
        assert(last == carved.rooms@[n - 1]);
        level.place_stairs();
        proof {
            assert(room_inside(last, width as int, height as int));
        }
        let ghost s = level.at(last.center_spec().0, last.center_spec().1);
        proof {
            super::lemma_at(&level, last.center_spec().0, last.center_spec().1);
        }
        assert(level.tiles@[s] == Tile::StairsDown);
        level.place_forges(&mut rng);
        assert(level.tiles@[s] == Tile::StairsDown);
        level.place_shop(&mut rng);
        assert(level.tiles@[s] == Tile::StairsDown);
        level.place_chests(&mut rng);
        assert(level.tiles@[s] == Tile::StairsDown);
        let ghost before_mod = level;
        level.assign_room_modifiers(&mut rng);
        assert(level.furnishable()) by {
            assert forall|i: int| 0 <= i < level.rooms@.len() implies room_inside(
                #[trigger] level.rooms@[i],
                width as int,
                height as int,
            ) by {
                assert(room_inside(before_mod.rooms@[i], width as int, height as int));
            }
        }
        assert(level.tiles@[s] == Tile::StairsDown);
        level.place_npcs(&mut rng);
        assert(level.tiles@[s] == Tile::StairsDown);
        level.place_shrines(&mut rng);
        assert(level.tiles@[s] == Tile::StairsDown);
        level.place_stroke_shrines(&mut rng);
        assert(level.tiles@[s] == Tile::StairsDown);
        level.place_tone_walls(&mut rng);
        assert(level.tiles@[s] == Tile::StairsDown);
        level.place_compound_shrines(&mut rng);
        assert(level.tiles@[s] == Tile::StairsDown);
        level.place_classifier_shrines(&mut rng);
        assert(level.tiles@[s] == Tile::StairsDown);
        level.place_ink_wells(&mut rng);
        assert(level.tiles@[s] == Tile::StairsDown);
        level.place_ancestor_shrines(&mut rng);
        assert(level.tiles@[s] == Tile::StairsDown);
        level.place_translation_altars(&mut rng);
        assert(level.tiles@[s] == Tile::StairsDown);
        level.place_radical_gardens(&mut rng);
        assert(level.tiles@[s] == Tile::StairsDown);
        level.place_mirror_pools(&mut rng);
        assert(level.tiles@[s] == Tile::StairsDown);
        level.place_stone_tutors(&mut rng);
        assert(level.tiles@[s] == Tile::StairsDown);
        level.place_codex_shrines(&mut rng);
        assert(level.tiles@[s] == Tile::StairsDown);
        level.place_word_bridges(&mut rng);
        assert(level.tiles@[s] == Tile::StairsDown);
        level.place_locked_doors(&mut rng);
        assert(level.tiles@[s] == Tile::StairsDown);
        level.place_cursed_floors(&mut rng);
        assert(level.tiles@[s] == Tile::StairsDown);
        level.place_altars(&mut rng);
        assert(level.tiles@[s] == Tile::StairsDown);
        level.place_seals(&mut rng);
        assert(level.tiles@[s] == Tile::StairsDown);
        level.place_hazards(&mut rng);
        assert(level.tiles@[s] == Tile::StairsDown);
        level.place_crates(&mut rng);
        assert(level.tiles@[s] == Tile::StairsDown);
        let ghost before_secret = level;
        level.place_secret_room(&mut rng);
        proof {
            super::lemma_xy_to_index(&before_secret, &level, set![Tile::Wall], super::secret_tiles());
        }
        assert(level.tiles@[s] == Tile::StairsDown);
        level.place_puzzle_rooms(&mut rng);
        assert(level.tiles@[s] == Tile::StairsDown);
        if floor >= 2 {
            level.place_traps(&mut rng, floor);
        }
        assert(level.tiles@[s] == Tile::StairsDown);
        level
    }

    /// Scatters `2 + floor / 3` traps over random floor tiles, giving up after
    /// ten draws per trap.
    fn place_traps(&mut self, rng: &mut Rng, floor: i32)
        requires
            old(self).wf(),
            floor >= 2,
        ensures
            final(self).wf(),
            final(self).same_frame(old(self)),
            changed_only(
                old(self).tiles@,
                final(self).tiles@,
                set![Tile::Floor],
                set![Tile::Trap(0), Tile::Trap(1), Tile::Trap(2)],
            ),
    {
        let ghost start = *self;
        let ghost to = set![Tile::Trap(0), Tile::Trap(1), Tile::Trap(2)];
        let trap_count: u64 = 2 + (floor / 3) as u64;
        let w = self.width as u64;
        let h = self.height as u64;
        let mut placed: u64 = 0;
        let mut t: u64 = 0;
        while t < trap_count * 10
            invariant
                self.wf(),
                start.wf(),
                self.same_frame(&start),
                start == *old(self),
                trap_count <= 1000000000,
                placed < trap_count,
                w == self.width,
                h == self.height,
                changed_only(start.tiles@, self.tiles@, set![Tile::Floor], to),
                to == set![Tile::Trap(0), Tile::Trap(1), Tile::Trap(2)],
            decreases trap_count * 10 - t,
        {
            t += 1;
            let x = (rng.next_u64() % w) as i32;
            let y = (rng.next_u64() % h) as i32;
            proof {
                super::lemma_at(self, x as int, y as int);
            }
            let idx = self.idx(x, y);
            if idx < self.tiles.len() && self.tiles[idx] == Tile::Floor {
                let trap_type = (rng.next_u64() % 3) as u8;
                let ghost before = self.tiles@;
                self.tiles.set(idx, Tile::Trap(trap_type));
                proof {
                    assert(to.contains(Tile::Trap(trap_type)));
                    assert forall|i: int| 0 <= i < start.tiles@.len() && #[trigger] self.tiles@[i] != start.tiles@[i]
                        implies set![Tile::Floor].contains(start.tiles@[i]) && to.contains(self.tiles@[i]) by {
                        if i != idx {
                            assert(self.tiles@[i] == before[i]);
                        } else if before[i] != start.tiles@[i] {
                        } else {
                            assert(start.tiles@[i] == Tile::Floor);
                        }
                    }
                }
                if placed + 1 >= trap_count {
                    break;
                }
                placed += 1;
            }
        }
    }
}

} // verus!
