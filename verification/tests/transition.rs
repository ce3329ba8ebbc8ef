use station_rogue::combat::transition::{
    compute_deployment_tiles, derive_wuxing_element, enemies_from_sentence, enter_combat, exit_combat, generate_arena, pick_weather,
};
use station_rogue::combat::{
    arena_size_for_encounter, ArenaBiome, BattleTile, BattleUnit, Direction, PlayerStance, TacticalArena, TacticalBattle,
    TacticalPhase, UnitKind, Weather, WuxingElement,
};
use station_rogue::enemy::{AiBehavior, Enemy, SentenceEntry};
use station_rogue::player::{Companion, Player, PlayerClass, PlayerForm};
use station_rogue::srs::SrsTracker;
use station_rogue::world::RoomModifier;

fn make_test_unit(kind: UnitKind, x: i32, y: i32) -> BattleUnit {
    BattleUnit {
        kind,
        x,
        y,
        facing: Direction::North,
        hanzi: "火",
        pinyin: "huǒ",
        speed: 3,
        movement: 3,
        stored_movement: 0,
        hp: 10,
        max_hp: 10,
        damage: 2,
        defending: false,
        alive: true,
        statuses: Vec::new(),
        stunned: false,
        radical_armor: 0,
        mastery_tier: 0,
        wuxing_element: None,
        word_group: None,
        word_group_order: 0,
    }
}

fn make_test_battle(units: Vec<BattleUnit>) -> TacticalBattle {
    let n = units.len();
    TacticalBattle {
        units,
        arena: TacticalArena {
            width: 7,
            height: 7,
            tiles: vec![BattleTile::MetalFloor; 49],
            steam_timers: vec![0; 49],
            biome: ArenaBiome::StationInterior,
        },
        phase: TacticalPhase::Command,
        turn_queue: (0..n).collect(),
        turn_queue_pos: 0,
        turn_number: 1,
        log: Vec::new(),
        audio_events: Vec::new(),
        weather: Weather::Normal,
        focus: 5,
        max_focus: 10,
        player_stance: PlayerStance::Balanced,
        player_moved: false,
        player_acted: false,
        intents_calculated: true,
        event_message: None,
        event_message_timer: 0,
        combo_message: None,
        combo_message_timer: 0,
        arena_event_timer: 3,
        pending_event: None,
        is_boss_battle: false,
        companion_kind: None,
        arcing_projectiles: Vec::new(),
        pending_impacts: Vec::new(),
        riposte_charges: 0,
        overcharge_active: false,
        hard_answer_armor_bonus: 0,
    }
}

fn make_basic_player() -> Player {
    Player {
        class: PlayerClass::Soldier,
        form: PlayerForm::Human,
        statuses: Vec::new(),
        hp: 10,
        max_hp: 10,
        bonus_damage: 0,
        riposte_charges: 0,
        overcharge_active: false,
        hard_answer_armor_bonus: 0,
    }
}

fn make_basic_enemy() -> Enemy {
    Enemy {
        x: 3,
        y: 1,
        hanzi: "火",
        pinyin: "huo3",
        meaning: "fire",
        hp: 10,
        max_hp: 10,
        damage: 3,
        alert: true,
        is_boss: false,
        is_elite: false,
        gold_value: 5,
        stunned: false,
        statuses: Vec::new(),
        boss_kind: None,
        phase_triggered: false,
        summon_cooldown: 0,
        resisted_spell: None,
        elite_chain: 0,
        components: Vec::new(),
        ai: AiBehavior::Chase,
        radical_armor: 0,
        radical_dodge: false,
        radical_multiply: false,
    }
}

fn make_boss_enemy() -> Enemy {
    let mut e = make_basic_enemy();
    e.is_boss = true;
    e.hp = 30;
    e.max_hp = 30;
    e.damage = 8;
    e
}

fn make_elite_enemy() -> Enemy {
    let mut e = make_basic_enemy();
    e.is_elite = true;
    e.hp = 15;
    e.max_hp = 15;
    e.damage = 5;
    e
}

fn make_multi_char_enemy() -> Enemy {
    Enemy {
        x: 3,
        y: 1,
        hanzi: "朋友",
        pinyin: "peng2you3",
        meaning: "friend",
        hp: 12,
        max_hp: 12,
        damage: 4,
        alert: true,
        is_boss: false,
        is_elite: false,
        gold_value: 8,
        stunned: false,
        statuses: Vec::new(),
        boss_kind: None,
        phase_triggered: false,
        summon_cooldown: 0,
        resisted_spell: None,
        elite_chain: 0,
        components: Vec::new(),
        ai: AiBehavior::Chase,
        radical_armor: 0,
        radical_dodge: false,
        radical_multiply: false,
    }
}

#[test]
fn enter_combat_returns_battle_with_player_unit() {
    let player = make_basic_player();
    let enemies = vec![make_basic_enemy()];
    let srs = SrsTracker::new();

    let battle = enter_combat(&player, &enemies, &[0], 1, None, &srs, None);

    assert!(battle.units.len() >= 2, "should have player + at least 1 enemy");
    assert_eq!(battle.units[0].kind, UnitKind::Player);
    assert!(battle.units[0].alive);
    assert_eq!(battle.units[0].hp, player.hp);
}

#[test]
fn enter_combat_player_positioned_at_bottom_center() {
    let player = make_basic_player();
    let enemies = vec![make_basic_enemy()];
    let srs = SrsTracker::new();

    let battle = enter_combat(&player, &enemies, &[0], 1, None, &srs, None);
    let arena_size = battle.arena.width;

    let expected_x = (arena_size / 2) as i32;
    let expected_y = (arena_size - 2) as i32;
    assert_eq!(battle.units[0].x, expected_x);
    assert_eq!(battle.units[0].y, expected_y);
}

#[test]
fn enter_combat_places_enemy_units() {
    let player = make_basic_player();
    let enemies = vec![make_basic_enemy()];
    let srs = SrsTracker::new();

    let battle = enter_combat(&player, &enemies, &[0], 1, None, &srs, None);

    let enemy_units: Vec<_> = battle
        .units
        .iter()
        .filter(|u| matches!(u.kind, UnitKind::Enemy(_)))
        .collect();
    assert_eq!(enemy_units.len(), 1);
    assert!(enemy_units[0].alive);
}

#[test]
fn enter_combat_turn_queue_contains_all_units() {
    let player = make_basic_player();
    let enemies = vec![make_basic_enemy()];
    let srs = SrsTracker::new();

    let battle = enter_combat(&player, &enemies, &[0], 1, None, &srs, None);

    assert_eq!(battle.turn_queue.len(), battle.units.len());
}

#[test]
fn enter_combat_boss_sets_is_boss_battle() {
    let player = make_basic_player();
    let enemies = vec![make_boss_enemy()];
    let srs = SrsTracker::new();

    let battle = enter_combat(&player, &enemies, &[0], 1, None, &srs, None);

    assert!(battle.is_boss_battle);
}

#[test]
fn enter_combat_non_boss_clears_is_boss_battle() {
    let player = make_basic_player();
    let enemies = vec![make_basic_enemy()];
    let srs = SrsTracker::new();

    let battle = enter_combat(&player, &enemies, &[0], 1, None, &srs, None);

    assert!(!battle.is_boss_battle);
}

#[test]
fn enter_combat_boss_creates_larger_arena() {
    let player = make_basic_player();
    let normal_enemy = make_basic_enemy();
    let boss_enemy = make_boss_enemy();
    let srs = SrsTracker::new();

    let normal_battle = enter_combat(&player, &[normal_enemy], &[0], 1, None, &srs, None);
    let boss_battle = enter_combat(&player, &[boss_enemy], &[0], 1, None, &srs, None);

    assert!(boss_battle.arena.width > normal_battle.arena.width);
}

#[test]
fn enter_combat_with_companion_adds_companion_unit() {
    let player = make_basic_player();
    let enemies = vec![make_basic_enemy()];
    let srs = SrsTracker::new();

    let battle = enter_combat(
        &player,
        &enemies,
        &[0],
        1,
        None,
        &srs,
        Some(Companion::SecurityChief),
    );

    let companion_units: Vec<_> = battle
        .units
        .iter()
        .filter(|u| u.kind == UnitKind::Companion)
        .collect();
    assert_eq!(companion_units.len(), 1);
    assert_eq!(companion_units[0].hp, 8);
    assert_eq!(companion_units[0].damage, 2);
}

#[test]
fn enter_combat_medic_companion_has_correct_stats() {
    let player = make_basic_player();
    let enemies = vec![make_basic_enemy()];
    let srs = SrsTracker::new();

    let battle = enter_combat(
        &player,
        &enemies,
        &[0],
        1,
        None,
        &srs,
        Some(Companion::Medic),
    );

    let comp = battle
        .units
        .iter()
        .find(|u| u.kind == UnitKind::Companion)
        .unwrap();
    assert_eq!(comp.hp, 6);
    assert_eq!(comp.damage, 1);
}

#[test]
fn enter_combat_companion_placed_left_of_player() {
    let player = make_basic_player();
    let enemies = vec![make_basic_enemy()];
    let srs = SrsTracker::new();

    let battle = enter_combat(
        &player,
        &enemies,
        &[0],
        1,
        None,
        &srs,
        Some(Companion::SecurityChief),
    );

    let player_unit = &battle.units[0];
    let comp_unit = battle
        .units
        .iter()
        .find(|u| u.kind == UnitKind::Companion)
        .unwrap();
    assert_eq!(comp_unit.x, player_unit.x - 1);
    assert_eq!(comp_unit.y, player_unit.y);
}

#[test]
fn enter_combat_multi_char_enemy_splits_into_units() {
    let player = make_basic_player();
    let enemies = vec![make_multi_char_enemy()];
    let srs = SrsTracker::new();

    let battle = enter_combat(&player, &enemies, &[0], 1, None, &srs, None);

    let enemy_units: Vec<_> = battle
        .units
        .iter()
        .filter(|u| matches!(u.kind, UnitKind::Enemy(0)))
        .collect();
    assert_eq!(enemy_units.len(), 2, "朋友 should split into 2 units");
    assert!(enemy_units.iter().all(|u| u.word_group == Some(0)));
    assert_eq!(enemy_units[0].word_group_order, 0);
    assert_eq!(enemy_units[1].word_group_order, 1);
}

#[test]
fn enter_combat_multi_char_distributes_hp() {
    let player = make_basic_player();
    let enemies = vec![make_multi_char_enemy()]; // hp=12, 2 chars
    let srs = SrsTracker::new();

    let battle = enter_combat(&player, &enemies, &[0], 1, None, &srs, None);

    let enemy_units: Vec<_> = battle
        .units
        .iter()
        .filter(|u| matches!(u.kind, UnitKind::Enemy(_)))
        .collect();
    let total_hp: i32 = enemy_units.iter().map(|u| u.hp).sum();
    assert_eq!(total_hp, 12, "total HP should equal original enemy HP");
}

#[test]
fn enter_combat_room_modifier_changes_biome() {
    let player = make_basic_player();
    let enemies = vec![make_basic_enemy()];
    let srs = SrsTracker::new();

    let battle = enter_combat(
        &player,
        &enemies,
        &[0],
        1,
        Some(RoomModifier::Hydroponics),
        &srs,
        None,
    );

    assert_eq!(battle.arena.biome, ArenaBiome::Hydroponics);
}

#[test]
fn enter_combat_multiple_enemies() {
    let player = make_basic_player();
    let enemies = vec![make_basic_enemy(), make_basic_enemy()];
    let srs = SrsTracker::new();

    let battle = enter_combat(&player, &enemies, &[0, 1], 1, None, &srs, None);

    let enemy_count = battle
        .units
        .iter()
        .filter(|u| matches!(u.kind, UnitKind::Enemy(_)))
        .count();
    assert_eq!(enemy_count, 2);
}

#[test]
fn enter_combat_weather_normal_on_low_floor() {
    let player = make_basic_player();
    let enemies = vec![make_basic_enemy()];
    let srs = SrsTracker::new();

    let battle = enter_combat(&player, &enemies, &[0], 1, None, &srs, None);

    assert_eq!(battle.weather, Weather::Normal);
}

#[test]
fn enter_combat_arena_has_cover_barriers() {
    let player = make_basic_player();
    let enemies = vec![make_basic_enemy()];
    let srs = SrsTracker::new();

    let battle = enter_combat(&player, &enemies, &[0], 5, None, &srs, None);
    let arena = &battle.arena;

    let barrier_count = (0..arena.width)
        .flat_map(|x| (0..arena.height).map(move |y| (x as i32, y as i32)))
        .filter(|&(x, y)| arena.tile(x, y) == Some(BattleTile::CoverBarrier))
        .count();
    assert!(barrier_count > 0, "arena should have cover barriers");
}

#[test]
fn enter_combat_preserves_player_hp() {
    let mut player = make_basic_player();
    player.hp = 7;
    let enemies = vec![make_basic_enemy()];
    let srs = SrsTracker::new();

    let battle = enter_combat(&player, &enemies, &[0], 1, None, &srs, None);

    assert_eq!(battle.units[0].hp, 7);
}

#[test]
fn enter_combat_log_starts_with_battle_begins() {
    let player = make_basic_player();
    let enemies = vec![make_basic_enemy()];
    let srs = SrsTracker::new();

    let battle = enter_combat(&player, &enemies, &[0], 1, None, &srs, None);

    assert_eq!(battle.log, vec!["Battle begins!"]);
}

#[test]
fn exit_combat_syncs_player_hp() {
    let mut player = make_basic_player();
    player.hp = 10;
    let mut enemies = vec![make_basic_enemy()];
    let mut battle = make_test_battle(vec![
        make_test_unit(UnitKind::Player, 4, 5),
        make_test_unit(UnitKind::Enemy(0), 4, 1),
    ]);
    battle.units[0].hp = 5;

    exit_combat(&battle, &mut player, &mut enemies);

    assert_eq!(player.hp, 5);
}

#[test]
fn exit_combat_returns_killed_enemy_indices() {
    let mut player = make_basic_player();
    let mut enemies = vec![make_basic_enemy(), make_basic_enemy()];
    enemies[0].hp = 5;
    enemies[1].hp = 5;
    let mut battle = make_test_battle(vec![
        make_test_unit(UnitKind::Player, 4, 5),
        make_test_unit(UnitKind::Enemy(0), 3, 1),
        make_test_unit(UnitKind::Enemy(1), 5, 1),
    ]);
    battle.units[1].hp = 0; // enemy 0 killed
    battle.units[2].hp = 3; // enemy 1 alive

    let killed = exit_combat(&battle, &mut player, &mut enemies);

    assert!(killed.contains(&0));
    assert!(!killed.contains(&1));
}

#[test]
fn exit_combat_preserves_alive_enemy_hp() {
    let mut player = make_basic_player();
    let mut enemies = vec![make_basic_enemy()];
    enemies[0].hp = 10;
    let mut battle = make_test_battle(vec![
        make_test_unit(UnitKind::Player, 4, 5),
        make_test_unit(UnitKind::Enemy(0), 4, 1),
    ]);
    battle.units[1].hp = 7;

    exit_combat(&battle, &mut player, &mut enemies);

    assert_eq!(enemies[0].hp, 7);
}

#[test]
fn exit_combat_dead_enemy_has_zero_hp() {
    let mut player = make_basic_player();
    let mut enemies = vec![make_basic_enemy()];
    enemies[0].hp = 10;
    let mut battle = make_test_battle(vec![
        make_test_unit(UnitKind::Player, 4, 5),
        make_test_unit(UnitKind::Enemy(0), 4, 1),
    ]);
    battle.units[1].hp = -2;

    let killed = exit_combat(&battle, &mut player, &mut enemies);

    assert_eq!(enemies[0].hp, 0);
    assert!(killed.contains(&0));
}

#[test]
fn exit_combat_aggregates_split_unit_hp() {
    let mut player = make_basic_player();
    let mut enemies = vec![make_multi_char_enemy()];
    enemies[0].hp = 12;
    let mut battle = make_test_battle(vec![
        make_test_unit(UnitKind::Player, 4, 5),
        make_test_unit(UnitKind::Enemy(0), 3, 1),
        make_test_unit(UnitKind::Enemy(0), 5, 1),
    ]);
    battle.units[1].hp = 3;
    battle.units[2].hp = 4;

    exit_combat(&battle, &mut player, &mut enemies);

    assert_eq!(enemies[0].hp, 7);
}

#[test]
fn exit_combat_split_units_all_dead_kills_enemy() {
    let mut player = make_basic_player();
    let mut enemies = vec![make_multi_char_enemy()];
    enemies[0].hp = 12;
    let mut battle = make_test_battle(vec![
        make_test_unit(UnitKind::Player, 4, 5),
        make_test_unit(UnitKind::Enemy(0), 3, 1),
        make_test_unit(UnitKind::Enemy(0), 5, 1),
    ]);
    battle.units[1].hp = 0;
    battle.units[2].hp = -1;

    let killed = exit_combat(&battle, &mut player, &mut enemies);

    assert!(killed.contains(&0));
    assert_eq!(enemies[0].hp, 0);
}

#[test]
fn exit_combat_clamps_negative_player_hp_to_zero() {
    let mut player = make_basic_player();
    let mut enemies = vec![make_basic_enemy()];
    let mut battle = make_test_battle(vec![
        make_test_unit(UnitKind::Player, 4, 5),
        make_test_unit(UnitKind::Enemy(0), 4, 1),
    ]);
    battle.units[0].hp = -5;

    exit_combat(&battle, &mut player, &mut enemies);

    assert_eq!(player.hp, 0);
}

#[test]
fn exit_combat_no_enemies_returns_empty_killed() {
    let mut player = make_basic_player();
    let mut enemies: Vec<Enemy> = Vec::new();
    let battle = make_test_battle(vec![
        make_test_unit(UnitKind::Player, 4, 5),
    ]);

    let killed = exit_combat(&battle, &mut player, &mut enemies);

    assert!(killed.is_empty());
}

#[test]
fn enemies_from_sentence_creates_one_per_character() {
    let sentence = SentenceEntry {
        hanzi: "你好",
        pinyin: "ni3 hao3",
        meaning: "hello",
        hsk: 1,
    };

    let enemies = enemies_from_sentence(&sentence, 3);

    assert_eq!(enemies.len(), 2);
}

#[test]
fn enemies_from_sentence_hp_scales_with_floor() {
    let sentence = SentenceEntry {
        hanzi: "大",
        pinyin: "da4",
        meaning: "big",
        hsk: 1,
    };

    let floor_1 = enemies_from_sentence(&sentence, 1);
    let floor_9 = enemies_from_sentence(&sentence, 9);

    assert_eq!(floor_1[0].hp, 1 + 1 / 3); // 1
    assert_eq!(floor_9[0].hp, 1 + 9 / 3); // 4
    assert!(floor_9[0].hp > floor_1[0].hp);
}

#[test]
fn enemies_from_sentence_damage_scales_with_floor() {
    let sentence = SentenceEntry {
        hanzi: "大",
        pinyin: "da4",
        meaning: "big",
        hsk: 1,
    };

    let enemies = enemies_from_sentence(&sentence, 8);

    assert_eq!(enemies[0].damage, 1 + 8 / 4);
}

#[test]
fn enemies_from_sentence_gold_scales_with_floor() {
    let sentence = SentenceEntry {
        hanzi: "大",
        pinyin: "da4",
        meaning: "big",
        hsk: 1,
    };

    let enemies = enemies_from_sentence(&sentence, 5);

    assert_eq!(enemies[0].gold_value, 2 + 5);
}

#[test]
fn enemies_from_sentence_preserves_meaning() {
    let sentence = SentenceEntry {
        hanzi: "你好",
        pinyin: "ni3 hao3",
        meaning: "hello",
        hsk: 1,
    };

    let enemies = enemies_from_sentence(&sentence, 1);

    assert!(enemies.iter().all(|e| e.meaning == "hello"));
}

#[test]
fn enemies_from_sentence_enemies_are_not_bosses_or_elites() {
    let sentence = SentenceEntry {
        hanzi: "你好",
        pinyin: "ni3 hao3",
        meaning: "hello",
        hsk: 1,
    };

    let enemies = enemies_from_sentence(&sentence, 1);

    assert!(enemies.iter().all(|e| !e.is_boss && !e.is_elite));
}

#[test]
fn enemies_from_sentence_positions_sequentially() {
    let sentence = SentenceEntry {
        hanzi: "你好吗",
        pinyin: "ni3 hao3 ma5",
        meaning: "how are you",
        hsk: 1,
    };

    let enemies = enemies_from_sentence(&sentence, 1);

    assert_eq!(enemies[0].x, 0);
    assert_eq!(enemies[1].x, 1);
    assert_eq!(enemies[2].x, 2);
}

#[test]
fn pick_weather_returns_normal_on_low_floors() {
    for floor in 0..5 {
        let weather = pick_weather(floor, ArenaBiome::StationInterior);
        assert_eq!(weather, Weather::Normal);
    }
}

#[test]
fn pick_weather_can_return_non_normal_on_high_floors() {
    let mut found_non_normal = false;
    for floor in 5..20 {
        for biome in [
            ArenaBiome::StationInterior,
            ArenaBiome::DerelictShip,
            ArenaBiome::AlienRuins,
            ArenaBiome::CryoBay,
            ArenaBiome::ReactorRoom,
        ] {
            if pick_weather(floor, biome) != Weather::Normal {
                found_non_normal = true;
                break;
            }
        }
    }
    assert!(found_non_normal);
}

#[test]
fn derive_wuxing_element_returns_none_for_empty_components() {
    let enemy = make_basic_enemy();

    let element = derive_wuxing_element(&enemy);

    assert!(element.is_none());
}

#[test]
fn arena_dimensions_match_encounter_size() {
    let player = make_basic_player();
    let enemies = vec![make_basic_enemy()];
    let srs = SrsTracker::new();

    let battle = enter_combat(&player, &enemies, &[0], 1, None, &srs, None);
    let expected_size = arena_size_for_encounter(false, false);

    assert_eq!(battle.arena.width, expected_size);
    assert_eq!(battle.arena.height, expected_size);
}

#[test]
fn arena_for_elite_is_larger_than_normal() {
    let expected_normal = arena_size_for_encounter(false, false);
    let expected_elite = arena_size_for_encounter(true, false);

    assert!(expected_elite > expected_normal);
}

#[test]
fn arena_for_boss_is_largest() {
    let expected_elite = arena_size_for_encounter(true, false);
    let expected_boss = arena_size_for_encounter(false, true);

    assert!(expected_boss > expected_elite);
}

#[test]
fn pick_weather_returns_normal_below_floor_5() {
    assert_eq!(pick_weather(1, ArenaBiome::StationInterior), Weather::Normal);
    assert_eq!(pick_weather(4, ArenaBiome::AlienRuins), Weather::Normal);
}

#[test]
fn pick_weather_can_return_non_normal_at_floor_5_plus() {
    // Test that at least one biome/floor combo gives something other than Normal
    let mut found_non_normal = false;
    for floor in 5..=20 {
        for biome in [
            ArenaBiome::StationInterior,
            ArenaBiome::AlienRuins,
            ArenaBiome::DerelictShip,
            ArenaBiome::IrradiatedZone,
            ArenaBiome::Hydroponics,
            ArenaBiome::CryoBay,
            ArenaBiome::ReactorRoom,
        ] {
            if pick_weather(floor, biome) != Weather::Normal {
                found_non_normal = true;
                break;
            }
        }
        if found_non_normal {
            break;
        }
    }
    assert!(found_non_normal, "some floor/biome combo should yield non-Normal weather");
}

#[test]
fn compute_deployment_tiles_covers_bottom_rows() {
    let arena = TacticalArena::new(7, 7, ArenaBiome::StationInterior);
    let units = vec![make_test_unit(UnitKind::Player, 3, 5)];

    let tiles = compute_deployment_tiles(&arena, &units);

    // Should include tiles in the bottom 3 rows (y=4,5,6)
    assert!(!tiles.is_empty());
    for &(_, y) in &tiles {
        assert!(y >= 4);
    }
}

#[test]
fn compute_deployment_tiles_excludes_enemy_positions() {
    let arena = TacticalArena::new(7, 7, ArenaBiome::StationInterior);
    let player = make_test_unit(UnitKind::Player, 3, 5);
    let enemy = make_test_unit(UnitKind::Enemy(0), 2, 5);
    let units = vec![player, enemy];

    let tiles = compute_deployment_tiles(&arena, &units);

    // enemy at (2,5) should be excluded
    assert!(!tiles.contains(&(2, 5)));
}

#[test]
fn derive_wuxing_element_no_components_returns_none() {
    let enemy = make_basic_enemy();

    let elem = derive_wuxing_element(&enemy);

    assert!(elem.is_none());
}

#[test]
fn derive_wuxing_element_with_fire_radical() {
    let mut enemy = make_basic_enemy();
    enemy.components = vec!["火"];

    let elem = derive_wuxing_element(&enemy);

    assert_eq!(elem, Some(WuxingElement::Fire));
}

#[test]
fn derive_wuxing_element_with_water_radical() {
    let mut enemy = make_basic_enemy();
    enemy.components = vec!["水"];

    let elem = derive_wuxing_element(&enemy);

    assert_eq!(elem, Some(WuxingElement::Water));
}

#[test]
fn derive_wuxing_element_with_unknown_radical_returns_none() {
    let mut enemy = make_basic_enemy();
    enemy.components = vec!["口"];

    let elem = derive_wuxing_element(&enemy);

    // 口 is not a wuxing element radical
    assert!(elem.is_none());
}

#[test]
fn enemies_from_sentence_single_char() {
    let sentence = SentenceEntry {
        hanzi: "人",
        pinyin: "ren2",
        meaning: "person",
        hsk: 1,
    };

    let enemies = enemies_from_sentence(&sentence, 1);

    assert_eq!(enemies.len(), 1);
    assert_eq!(enemies[0].hanzi, "人");
}

#[test]
fn enemies_from_sentence_all_enemies_alive() {
    let sentence = SentenceEntry {
        hanzi: "你好吗",
        pinyin: "ni3 hao3 ma5",
        meaning: "how are you",
        hsk: 1,
    };

    let enemies = enemies_from_sentence(&sentence, 3);

    assert_eq!(enemies.len(), 3);
    for e in &enemies {
        assert!(e.hp > 0);
    }
}

#[test]
fn enter_combat_deep_floor_has_more_obstacles() {
    let player = make_basic_player();
    let enemies = vec![make_basic_enemy()];
    let srs = SrsTracker::new();

    let battle_floor_1 = enter_combat(&player, &enemies, &[0], 1, None, &srs, None);
    let battle_floor_10 = enter_combat(&player, &enemies, &[0], 10, None, &srs, None);

    let count_obstacles = |battle: &TacticalBattle| {
        (0..battle.arena.width)
            .flat_map(|x| (0..battle.arena.height).map(move |y| (x as i32, y as i32)))
            .filter(|&(x, y)| {
                let tile = battle.arena.tile(x, y);
                tile != Some(BattleTile::MetalFloor) && tile.is_some()
            })
            .count()
    };

    assert!(count_obstacles(&battle_floor_10) > count_obstacles(&battle_floor_1));
}

#[test]
fn enter_combat_with_elite_uses_larger_arena() {
    let player = make_basic_player();
    let enemies = vec![make_basic_enemy(), make_elite_enemy()];
    let normal_enemies = vec![make_basic_enemy()];
    let srs = SrsTracker::new();

    let normal_battle = enter_combat(&player, &normal_enemies, &[0], 1, None, &srs, None);
    let elite_battle = enter_combat(&player, &enemies, &[0, 1], 1, None, &srs, None);

    assert!(elite_battle.arena.width >= normal_battle.arena.width);
}

#[test]
fn enter_combat_science_officer_companion() {
    let player = make_basic_player();
    let enemies = vec![make_basic_enemy()];
    let srs = SrsTracker::new();

    let battle = enter_combat(
        &player,
        &enemies,
        &[0],
        1,
        None,
        &srs,
        Some(Companion::ScienceOfficer),
    );

    let comp = battle
        .units
        .iter()
        .find(|u| u.kind == UnitKind::Companion)
        .unwrap();
    assert_eq!(comp.hp, 5);
    assert_eq!(comp.damage, 1);
}

#[test]
fn enter_combat_quartermaster_companion() {
    let player = make_basic_player();
    let enemies = vec![make_basic_enemy()];
    let srs = SrsTracker::new();

    let battle = enter_combat(
        &player,
        &enemies,
        &[0],
        1,
        None,
        &srs,
        Some(Companion::Quartermaster),
    );

    let comp = battle
        .units
        .iter()
        .find(|u| u.kind == UnitKind::Companion)
        .unwrap();
    assert_eq!(comp.hp, 5);
    assert_eq!(comp.damage, 1);
}

#[test]
fn enter_combat_various_biomes() {
    let player = make_basic_player();
    let enemies = vec![make_basic_enemy()];
    let srs = SrsTracker::new();

    let modifiers = [
        (Some(RoomModifier::PoweredDown), ArenaBiome::DerelictShip),
        (Some(RoomModifier::HighTech), ArenaBiome::AlienRuins),
        (Some(RoomModifier::Irradiated), ArenaBiome::IrradiatedZone),
        (Some(RoomModifier::Cryogenic), ArenaBiome::CryoBay),
        (Some(RoomModifier::OverheatedReactor), ArenaBiome::ReactorRoom),
    ];
    for (modifier, expected_biome) in modifiers {
        let battle = enter_combat(&player, &enemies, &[0], 1, modifier, &srs, None);
        assert_eq!(battle.arena.biome, expected_biome);
    }
}


#[test]
fn exit_combat_syncs_riposte_charges() {
    let mut player = make_basic_player();
    player.riposte_charges = 0;
    let mut enemies = vec![make_basic_enemy()];
    let mut battle = make_test_battle(vec![
        make_test_unit(UnitKind::Player, 4, 5),
        make_test_unit(UnitKind::Enemy(0), 4, 1),
    ]);
    battle.riposte_charges = 3;

    exit_combat(&battle, &mut player, &mut enemies);

    assert_eq!(player.riposte_charges, 3);
}

#[test]
fn exit_combat_syncs_overcharge_state() {
    let mut player = make_basic_player();
    player.overcharge_active = false;
    let mut enemies = vec![make_basic_enemy()];
    let mut battle = make_test_battle(vec![
        make_test_unit(UnitKind::Player, 4, 5),
        make_test_unit(UnitKind::Enemy(0), 4, 1),
    ]);
    battle.overcharge_active = true;

    exit_combat(&battle, &mut player, &mut enemies);

    assert!(player.overcharge_active);
}

#[test]
fn exit_combat_syncs_hard_answer_armor_bonus() {
    let mut player = make_basic_player();
    player.hard_answer_armor_bonus = 0;
    let mut enemies = vec![make_basic_enemy()];
    let mut battle = make_test_battle(vec![
        make_test_unit(UnitKind::Player, 4, 5),
        make_test_unit(UnitKind::Enemy(0), 4, 1),
    ]);
    battle.hard_answer_armor_bonus = 5;

    exit_combat(&battle, &mut player, &mut enemies);

    assert_eq!(player.hard_answer_armor_bonus, 5);
}


#[test]
fn shallow_arena_has_cover_and_clear_edges() {
    for floor in 0..2 {
        for size in [7usize, 9, 11] {
            let arena = generate_arena(floor, size, ArenaBiome::StationInterior);
            let mut cover = 0;
            for y in 0..size as i32 {
                for x in 0..size as i32 {
                    let t = arena.tile(x, y).unwrap();
                    assert!(
                        t == BattleTile::MetalFloor || t == BattleTile::CoverBarrier || t == BattleTile::ElevatedPlatform
                    );
                    if t == BattleTile::CoverBarrier {
                        cover += 1;
                        assert!(y >= 1 && y < size as i32 - 2);
                    }
                    if y == 0 || y >= size as i32 - 2 {
                        assert_eq!(t, BattleTile::MetalFloor);
                    }
                }
            }
            assert!(cover >= 1 && cover <= 3);
        }
    }
}
