use station_rogue::dungeon::{AltarKind, DungeonLevel, Room, SealKind, SpecialRoomKind, Tile};
use station_rogue::rng::Rng;

fn make_clean_test_level() -> DungeonLevel {
    let width = 24;
    let height = 24;
    let mut level = DungeonLevel {
        width,
        height,
        tiles: vec![Tile::Wall; (width * height) as usize],
        rooms: vec![
            Room {
                x: 1,
                y: 1,
                w: 5,
                h: 5,
                modifier: None,
                special: None,
            },
            Room {
                x: 8,
                y: 1,
                w: 5,
                h: 5,
                modifier: None,
                special: None,
            },
            Room {
                x: 15,
                y: 1,
                w: 5,
                h: 5,
                modifier: None,
                special: None,
            },
            Room {
                x: 1,
                y: 10,
                w: 5,
                h: 5,
                modifier: None,
                special: None,
            },
            Room {
                x: 8,
                y: 10,
                w: 5,
                h: 5,
                modifier: None,
                special: None,
            },
        ],
        visible: vec![false; (width * height) as usize],
        revealed: vec![false; (width * height) as usize],
    };
    for room in level.rooms.clone() {
        for y in room.y..room.y + room.h {
            for x in room.x..room.x + room.w {
                let idx = level.idx(x, y);
                level.tiles[idx] = Tile::Floor;
            }
        }
    }
    level
}

fn make_spacious_test_level() -> DungeonLevel {
    let width = 40;
    let height = 28;
    let mut level = DungeonLevel {
        width,
        height,
        tiles: vec![Tile::Wall; (width * height) as usize],
        rooms: vec![
            Room {
                x: 1,
                y: 1,
                w: 8,
                h: 8,
                modifier: None,
                special: None,
            },
            Room {
                x: 11,
                y: 1,
                w: 8,
                h: 8,
                modifier: None,
                special: None,
            },
            Room {
                x: 21,
                y: 1,
                w: 8,
                h: 8,
                modifier: None,
                special: None,
            },
            Room {
                x: 1,
                y: 12,
                w: 8,
                h: 8,
                modifier: None,
                special: None,
            },
            Room {
                x: 11,
                y: 12,
                w: 8,
                h: 8,
                modifier: None,
                special: None,
            },
        ],
        visible: vec![false; (width * height) as usize],
        revealed: vec![false; (width * height) as usize],
    };
    for room in level.rooms.clone() {
        for y in room.y..room.y + room.h {
            for x in room.x..room.x + room.w {
                let idx = level.idx(x, y);
                level.tiles[idx] = Tile::Floor;
            }
        }
    }
    level
}

fn has_brittle_vault(level: &DungeonLevel) -> bool {
    let dirs = [(1, 0), (-1, 0), (0, 1), (0, -1)];
    for y in 0..level.height {
        for x in 0..level.width {
            if level.tile(x, y) != Tile::BrittleWall {
                continue;
            }

            for (dx, dy) in dirs {
                let chest_x = x + dx;
                let chest_y = y + dy;
                let back_x = chest_x + dx;
                let back_y = chest_y + dy;
                let side_a = (-dy, dx);
                let side_b = (dy, -dx);
                if !level.in_bounds(chest_x, chest_y) || !level.in_bounds(back_x, back_y) {
                    continue;
                }

                if level.tile(chest_x, chest_y) == Tile::Chest
                    && level.tile(back_x, back_y) == Tile::Wall
                    && level.tile(x + side_a.0, y + side_a.1) == Tile::Wall
                    && level.tile(chest_x + side_a.0, chest_y + side_a.1) == Tile::Wall
                    && level.tile(x + side_b.0, y + side_b.1) == Tile::Wall
                    && level.tile(chest_x + side_b.0, chest_y + side_b.1) == Tile::Wall
                {
                    return true;
                }
            }
        }
    }

    false
}

fn has_deep_water_cache(level: &DungeonLevel) -> bool {
    let dirs = [(1, 0), (-1, 0), (0, 1), (0, -1)];
    for y in 0..level.height {
        for x in 0..level.width {
            if level.tile(x, y) != Tile::DeepWater {
                continue;
            }

            for (dx, dy) in dirs {
                let crate_x = x - dx;
                let crate_y = y - dy;
                let stand_x = crate_x - dx;
                let stand_y = crate_y - dy;
                let chest_x = x + dx;
                let chest_y = y + dy;
                let back_x = chest_x + dx;
                let back_y = chest_y + dy;
                let side_a = (-dy, dx);
                let side_b = (dy, -dx);
                if !level.in_bounds(crate_x, crate_y)
                    || !level.in_bounds(stand_x, stand_y)
                    || !level.in_bounds(chest_x, chest_y)
                    || !level.in_bounds(back_x, back_y)
                {
                    continue;
                }

                if level.tile(crate_x, crate_y) == Tile::Crate
                    && level.tile(stand_x, stand_y) == Tile::Floor
                    && level.tile(chest_x, chest_y) == Tile::Chest
                    && level.tile(back_x, back_y) == Tile::Wall
                    && level.tile(x + side_a.0, y + side_a.1) == Tile::Wall
                    && level.tile(chest_x + side_a.0, chest_y + side_a.1) == Tile::Wall
                    && level.tile(x + side_b.0, y + side_b.1) == Tile::Wall
                    && level.tile(chest_x + side_b.0, chest_y + side_b.1) == Tile::Wall
                {
                    return true;
                }
            }
        }
    }

    false
}

fn has_spike_bridge(level: &DungeonLevel) -> bool {
    for y in 0..level.height {
        for x in 0..level.width - 3 {
            if level.tile(x, y) == Tile::Spikes
                && level.tile(x + 1, y) == Tile::Spikes
                && level.tile(x + 2, y) == Tile::Spikes
                && level.tile(x + 3, y) == Tile::Chest
            {
                return true;
            }
        }
    }
    false
}

fn has_oil_fire_trap(level: &DungeonLevel) -> bool {
    for y in 0..level.height {
        for x in 0..level.width - 2 {
            if level.tile(x, y) == Tile::Oil
                && level.tile(x + 1, y) == Tile::Oil
                && level.tile(x + 2, y) == Tile::Chest
            {
                return true;
            }
        }
    }
    false
}

fn has_seal_chain(level: &DungeonLevel) -> bool {
    for y in 0..level.height {
        for x in 0..level.width - 2 {
            if matches!(level.tile(x, y), Tile::Seal(_))
                && matches!(level.tile(x + 2, y), Tile::Seal(_))
            {
                return true;
            }
        }
    }
    false
}

fn has_any_puzzle_room(level: &DungeonLevel) -> bool {
    has_brittle_vault(level)
        || has_deep_water_cache(level)
        || has_spike_bridge(level)
        || has_oil_fire_trap(level)
        || has_seal_chain(level)
}

#[test]
fn hazards_and_altars_are_walkable_but_crates_block() {
    assert!(Tile::Spikes.is_walkable());
    assert!(Tile::Oil.is_walkable());
    assert!(Tile::Water.is_walkable());
    assert!(Tile::Altar(AltarKind::Jade).is_walkable());
    assert!(Tile::Seal(SealKind::Ember).is_walkable());
    assert!(!Tile::Crate.is_walkable());
    assert!(!Tile::CrackedWall.is_walkable());
    assert!(!Tile::BrittleWall.is_walkable());
    assert!(!Tile::DeepWater.is_walkable());
}

#[test]
fn place_altars_adds_a_blessing_site_to_clean_levels() {
    let mut level = make_clean_test_level();
    let mut rng = Rng::new(2);

    level.place_altars(&mut rng);

    assert!(level
        .tiles
        .iter()
        .any(|tile| matches!(tile, Tile::Altar(_))));
}

#[test]
fn place_seals_adds_script_seals_to_clean_levels() {
    let mut level = make_clean_test_level();
    let mut rng = Rng::new(7);

    level.place_seals(&mut rng);

    assert!(level.tiles.iter().any(|tile| matches!(tile, Tile::Seal(_))));
}

#[test]
fn place_secret_room_carves_hidden_chamber_with_cracked_entrance() {
    let mut level = make_clean_test_level();
    let mut rng = Rng::new(11);
    let original_open_tiles = level
        .tiles
        .iter()
        .filter(|tile| !matches!(tile, Tile::Wall))
        .count();

    level.place_secret_room(&mut rng);

    let new_open_tiles = level
        .tiles
        .iter()
        .filter(|tile| !matches!(tile, Tile::Wall))
        .count();
    assert!(level
        .tiles
        .iter()
        .any(|tile| matches!(tile, Tile::CrackedWall)));
    assert!(new_open_tiles > original_open_tiles);
}

#[test]
fn place_secret_room_adds_hidden_point_of_interest() {
    let mut level = make_clean_test_level();
    let mut rng = Rng::new(11);

    level.place_secret_room(&mut rng);

    assert!(level.tiles.iter().any(|tile| {
        matches!(
            tile,
            Tile::Chest | Tile::Forge | Tile::Shrine | Tile::Altar(_)
        )
    }));
}

#[test]
fn place_puzzle_rooms_adds_visible_environmental_niches() {
    let mut level = make_spacious_test_level();
    let mut rng = Rng::new(19);

    level.place_puzzle_rooms(&mut rng);

    assert!(has_any_puzzle_room(&level));
}

#[test]
fn tutorial_floor_has_required_landmarks() {
    let level = DungeonLevel::tutorial(48, 48);

    assert_eq!(level.start_pos(), (8, 22));
    assert!(level.tiles.iter().any(|tile| matches!(tile, Tile::Sign(0))));
    assert!(level.tiles.iter().any(|tile| matches!(tile, Tile::Sign(1))));
    assert!(level.tiles.iter().any(|tile| matches!(tile, Tile::Sign(2))));
    assert!(level.tiles.iter().any(|tile| matches!(tile, Tile::Sign(3))));
    assert!(level.tiles.iter().any(|tile| *tile == Tile::Forge));
    assert!(level.tiles.iter().any(|tile| *tile == Tile::StairsDown));
    assert!(level.is_walkable(8, 20));
}


fn has_pushable_bridge_setup(level: &DungeonLevel) -> bool {
    let dirs = [(1, 0), (-1, 0), (0, 1), (0, -1)];
    for y in 0..level.height {
        for x in 0..level.width {
            if level.tile(x, y) != Tile::Water {
                continue;
            }

            for (dx, dy) in dirs {
                let crate_x = x - dx;
                let crate_y = y - dy;
                let stand_x = crate_x - dx;
                let stand_y = crate_y - dy;
                if !level.in_bounds(crate_x, crate_y) || !level.in_bounds(stand_x, stand_y) {
                    continue;
                }

                if level.tile(crate_x, crate_y) == Tile::Crate {
                    let stand_tile = level.tile(stand_x, stand_y);
                    if stand_tile.is_walkable() && stand_tile != Tile::Water {
                        return true;
                    }
                }
            }
        }
    }

    false
}

#[test]
fn generated_levels_hide_secret_rooms_on_most_runs() {
    let mut secret_count = 0;
    for seed in 1..=24 {
        let level = DungeonLevel::generate(48, 48, seed, 1);
        if level.tiles.iter().any(|tile| matches!(tile, Tile::CrackedWall)) {
            secret_count += 1;
        }
    }

    assert!(secret_count >= 18, "expected secret-room entrances on most sample floors, found {secret_count}");
}

#[test]
fn generated_levels_regularly_offer_bridge_building_setups() {
    let mut bridge_count = 0;
    for seed in 1..=24 {
        let level = DungeonLevel::generate(48, 48, seed, 1);
        if has_pushable_bridge_setup(&level) {
            bridge_count += 1;
        }
    }

    assert!(bridge_count >= 10, "expected bridge setups across the sample set, found {bridge_count}");
}

#[test]
fn generated_levels_regularly_offer_puzzle_rooms() {
    let mut puzzle_count = 0;
    let mut brittle_count = 0;
    let mut deep_water_count = 0;
    let mut spike_count = 0;
    let mut oil_count = 0;
    let mut seal_count = 0;
    for seed in 1..=24 {
        let level = DungeonLevel::generate(48, 48, seed, 1);
        if has_any_puzzle_room(&level) {
            puzzle_count += 1;
        }
        if has_brittle_vault(&level) {
            brittle_count += 1;
        }
        if has_deep_water_cache(&level) {
            deep_water_count += 1;
        }
        if has_spike_bridge(&level) {
            spike_count += 1;
        }
        if has_oil_fire_trap(&level) {
            oil_count += 1;
        }
        if has_seal_chain(&level) {
            seal_count += 1;
        }
    }

    assert!(puzzle_count >= 16, "expected puzzle rooms on most sample floors, found {puzzle_count}");
    let variant_types = [brittle_count > 0, deep_water_count > 0, spike_count > 0, oil_count > 0, seal_count > 0];
    let variants_seen = variant_types.iter().filter(|&&v| v).count();
    assert!(variants_seen >= 2, "expected at least 2 puzzle room variants across 24 seeds, saw {variants_seen}");
}

fn middle_room_with<F: Fn(&Room) -> (i32, i32)>(level: &DungeonLevel, x: i32, y: i32, spot: F) -> bool {
    let n = level.rooms.len();
    level.rooms[1..n - 1].iter().any(|r| spot(r) == (x, y))
}

fn tiles_of(level: &DungeonLevel, t: Tile) -> Vec<(i32, i32)> {
    let mut out = Vec::new();
    for y in 0..level.height {
        for x in 0..level.width {
            if level.tile(x, y) == t {
                out.push((x, y));
            }
        }
    }
    out
}

#[test]
fn shop_stands_one_in_from_the_top_right_of_a_middle_room() {
    for seed in 1..20u64 {
        let mut level = make_clean_test_level();
        let before = level.tiles.clone();
        level.place_shop(&mut Rng::new(seed));
        let shops = tiles_of(&level, Tile::Shop);
        assert_eq!(shops.len(), 1);
        let (x, y) = shops[0];
        assert!(middle_room_with(&level, x, y, |r| (r.x + r.w - 2, r.y + 1)));
        let changed = level.tiles.iter().zip(before.iter()).filter(|(a, b)| a != b).count();
        assert_eq!(changed, 1);
    }
}

#[test]
fn forges_stand_one_in_from_the_top_left_of_middle_rooms() {
    for seed in 1..20u64 {
        let mut level = make_clean_test_level();
        level.place_forges(&mut Rng::new(seed));
        let forges = tiles_of(&level, Tile::Forge);
        assert!(!forges.is_empty() && forges.len() <= 2);
        for &(x, y) in &forges {
            assert!(middle_room_with(&level, x, y, |r| (r.x + 1, r.y + 1)));
        }
    }
}

#[test]
fn hazards_start_with_water_and_stay_few() {
    for seed in 1..30u64 {
        let mut level = make_clean_test_level();
        let before = level.tiles.clone();
        level.place_hazards(&mut Rng::new(seed));
        let changed: Vec<usize> = (0..before.len()).filter(|&i| level.tiles[i] != before[i]).collect();
        assert!(changed.len() <= 8);
        if !changed.is_empty() {
            assert!(changed.iter().any(|&i| level.tiles[i] == Tile::Water));
        }
        for &i in &changed {
            assert_eq!(before[i], Tile::Floor);
            let (x, y) = ((i as i32) % level.width, (i as i32) / level.width);
            let n = level.rooms.len();
            assert!(level.rooms[1..n - 1]
                .iter()
                .any(|r| x > r.x && x < r.x + r.w - 1 && y > r.y && y < r.y + r.h - 1));
        }
    }
}

#[test]
fn secret_room_has_exactly_one_cracked_entrance() {
    for seed in 1..10u64 {
        let mut level = make_spacious_test_level();
        level.place_secret_room(&mut Rng::new(seed));
        assert_eq!(tiles_of(&level, Tile::CrackedWall).len(), 1);
    }
}

#[test]
fn special_room_names_differ() {
    let kinds = [
        SpecialRoomKind::TreasureVault,
        SpecialRoomKind::ToneStaircase,
        SpecialRoomKind::SpiritSpring,
        SpecialRoomKind::SpiritShrine,
        SpecialRoomKind::SealedMemory,
        SpecialRoomKind::MirrorRoom,
        SpecialRoomKind::MirrorMaze,
        SpecialRoomKind::FormShrine,
    ];
    for (i, a) in kinds.iter().enumerate() {
        assert!(!a.name().is_empty());
        for b in kinds.iter().skip(i + 1) {
            assert_ne!(a.name(), b.name());
        }
    }
}
