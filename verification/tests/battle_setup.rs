use station_rogue::combat::transition::{
    compute_deployment_tiles, enemies_from_sentence, enter_combat, exit_combat, generate_arena, pick_weather,
};
use station_rogue::combat::{
    arena_size_for_encounter, ArenaBiome, BattleTile, TacticalArena, TacticalPhase, UnitKind, Weather, WuxingElement,
};
use station_rogue::enemy::{AiBehavior, Enemy, SentenceEntry};
use station_rogue::player::{Companion, Player, PlayerClass, PlayerForm};
use station_rogue::srs::SrsTracker;
use station_rogue::world::RoomModifier;

fn hero() -> Player {
    Player {
        class: PlayerClass::Operative,
        form: PlayerForm::Human,
        statuses: Vec::new(),
        hp: 14,
        max_hp: 20,
        bonus_damage: 3,
        riposte_charges: 0,
        overcharge_active: false,
        hard_answer_armor_bonus: 0,
    }
}

fn foe(hanzi: &'static str, pinyin: &'static str, hp: i32) -> Enemy {
    Enemy {
        x: 0,
        y: 0,
        hanzi,
        pinyin,
        meaning: "",
        hp,
        max_hp: hp,
        damage: 3,
        alert: true,
        is_boss: false,
        is_elite: false,
        gold_value: 1,
        stunned: false,
        statuses: Vec::new(),
        boss_kind: None,
        phase_triggered: false,
        summon_cooldown: 0,
        resisted_spell: None,
        elite_chain: 0,
        components: vec!["口", "金"],
        ai: AiBehavior::Chase,
        radical_armor: 1,
        radical_dodge: false,
        radical_multiply: false,
    }
}

#[test]
fn arena_sizes_per_encounter() {
    assert_eq!(arena_size_for_encounter(false, false), 7);
    assert_eq!(arena_size_for_encounter(true, false), 9);
    assert_eq!(arena_size_for_encounter(true, true), 11);
}

#[test]
fn first_floor_arena_holds_only_cover_and_high_ground() {
    for biome in [ArenaBiome::StationInterior, ArenaBiome::Hydroponics, ArenaBiome::ReactorRoom] {
        let arena = generate_arena(1, 9, biome);
        assert_eq!(arena.width, 9);
        assert_eq!(arena.height, 9);
        assert_eq!(arena.biome, biome);
        for t in &arena.tiles {
            assert!(matches!(t, BattleTile::MetalFloor | BattleTile::CoverBarrier | BattleTile::ElevatedPlatform));
        }
    }
}

#[test]
fn deep_arena_keeps_conveyors_and_wells_to_their_floors() {
    let arena = generate_arena(3, 11, ArenaBiome::AlienRuins);
    for t in &arena.tiles {
        assert!(!matches!(
            t,
            BattleTile::ConveyorN | BattleTile::ConveyorS | BattleTile::ConveyorE | BattleTile::ConveyorW | BattleTile::GravityWell
        ));
    }
}

#[test]
fn weather_from_floor_and_biome_hash() {
    assert_eq!(pick_weather(5, ArenaBiome::StationInterior), Weather::CoolantLeak);
    assert_eq!(pick_weather(5, ArenaBiome::DerelictShip), Weather::SmokeScreen);
    assert_eq!(pick_weather(5, ArenaBiome::IrradiatedZone), Weather::DebrisStorm);
    assert_eq!(pick_weather(5, ArenaBiome::CryoBay), Weather::SmokeScreen);
    assert_eq!(pick_weather(5, ArenaBiome::ReactorRoom), Weather::DebrisStorm);
    assert_eq!(pick_weather(5, ArenaBiome::Hydroponics), Weather::Normal);
    assert_eq!(pick_weather(9, ArenaBiome::StationInterior), Weather::CoolantLeak);
    assert_eq!(pick_weather(8, ArenaBiome::AlienRuins), Weather::Normal);
    assert_eq!(pick_weather(4, ArenaBiome::AlienRuins), Weather::Normal);
}

#[test]
fn deployment_tiles_in_row_major_order() {
    let arena = TacticalArena::new(5, 5, ArenaBiome::CryoBay);
    let tiles = compute_deployment_tiles(&arena, &[]);
    assert_eq!(tiles.len(), 15);
    assert_eq!(tiles[0], (0, 2));
    assert_eq!(tiles[14], (4, 4));
}

#[test]
fn player_and_companion_units_from_the_player() {
    let enemies = vec![foe("火", "huo3", 6)];
    let battle = enter_combat(&hero(), &enemies, &[0], 1, None, &SrsTracker::new(), Some(Companion::Medic));
    let p = &battle.units[0];
    assert_eq!((p.x, p.y), (3, 5));
    assert_eq!(p.hp, 14);
    assert_eq!(p.max_hp, 20);
    assert_eq!(p.damage, 5);
    assert_eq!(p.speed, 5);
    let c = &battle.units[1];
    assert_eq!(c.kind, UnitKind::Companion);
    assert_eq!((c.x, c.y), (2, 5));
    assert_eq!(c.hanzi, "医");
    assert_eq!(battle.units.len(), 3);
    assert_eq!(battle.focus, 10);
    assert_eq!(battle.turn_number, 1);
}

#[test]
fn word_units_share_stats_and_spread_along_the_top() {
    let enemies = vec![foe("你好吗", "ni3hao3", 10), foe("人", "ren2", 0)];
    let battle = enter_combat(&hero(), &enemies, &[0, 1], 1, None, &SrsTracker::new(), None);
    assert_eq!(battle.units.len(), 5);
    let units: Vec<_> = battle.units[1..].to_vec();
    // spacing = 7 / (4 + 1) = 1
    assert_eq!(units.iter().map(|u| (u.x, u.y)).collect::<Vec<_>>(), vec![(1, 1), (2, 2), (3, 1), (4, 2)]);
    assert_eq!(units[0].hanzi, "你");
    assert_eq!(units[0].pinyin, "ni3");
    assert_eq!(units[1].pinyin, "hao3");
    assert_eq!(units[2].pinyin, "吗");
    assert_eq!(units[0].hp, 3);
    assert_eq!(units[0].damage, 1);
    assert_eq!(units[0].word_group, Some(0));
    assert_eq!(units[2].word_group_order, 2);
    assert_eq!(units[0].wuxing_element, Some(WuxingElement::Metal));
    assert_eq!(units[0].radical_armor, 1);
    // a single character keeps its stats; a dead one stays dead but keeps 1 HP
    assert_eq!(units[3].word_group, None);
    assert!(!units[3].alive);
    assert_eq!(units[3].hp, 1);
    assert_eq!(units[3].kind, UnitKind::Enemy(1));
}

#[test]
fn mastery_tier_is_recorded_on_enemy_units() {
    let enemies = vec![foe("火", "huo3", 10)];
    let srs = SrsTracker { tiers: vec![("水", 1), ("火", 3)] };
    assert_eq!(srs.mastery_tier("火"), 3);
    assert_eq!(srs.mastery_tier("木"), 0);
    let battle = enter_combat(&hero(), &enemies, &[0], 1, None, &srs, None);
    assert_eq!(battle.units[1].mastery_tier, 3);
    assert_eq!(battle.units[1].hp, 10);
}

#[test]
fn battle_opens_in_deployment_on_the_middle_tile() {
    let enemies = vec![foe("火", "huo3", 10)];
    let battle = enter_combat(&hero(), &enemies, &[0], 1, Some(RoomModifier::Cryogenic), &SrsTracker::new(), None);
    assert_eq!(battle.arena.biome, ArenaBiome::CryoBay);
    match &battle.phase {
        TacticalPhase::Deployment { cursor_x, cursor_y, valid_tiles } => {
            assert!(valid_tiles.len() > 1);
            assert_eq!((*cursor_x, *cursor_y), valid_tiles[valid_tiles.len() / 2]);
            for w in valid_tiles.windows(2) {
                assert!((w[0].1, w[0].0) < (w[1].1, w[1].0));
            }
        }
        _ => panic!("expected deployment"),
    }
}

#[test]
fn exit_combat_lists_kills_in_index_order() {
    let mut player = hero();
    let mut enemies = vec![foe("火", "huo3", 4), foe("水", "shui3", 4), foe("木", "mu4", 4), foe("金", "jin1", 0)];
    let battle = {
        let mut b = enter_combat(&player, &enemies, &[2, 1, 0, 3], 1, None, &SrsTracker::new(), None);
        for u in b.units.iter_mut() {
            if u.kind == UnitKind::Enemy(2) || u.kind == UnitKind::Enemy(0) || u.kind == UnitKind::Enemy(3) {
                u.hp = -3;
            }
        }
        b.units[0].hp = -1;
        b
    };
    let killed = exit_combat(&battle, &mut player, &mut enemies);
    assert_eq!(killed, vec![0, 2]);
    assert_eq!(player.hp, 0);
    assert_eq!(enemies[1].hp, 4);
    assert_eq!(enemies[3].hp, 0);
}

#[test]
fn sentence_enemies_take_syllables_in_order() {
    let s = SentenceEntry { hanzi: "我爱你", pinyin: "wo3ai4", meaning: "I love you", hsk: 1 };
    let enemies = enemies_from_sentence(&s, 7);
    assert_eq!(enemies.len(), 3);
    assert_eq!(enemies[0].pinyin, "wo3");
    assert_eq!(enemies[1].pinyin, "ai4");
    assert_eq!(enemies[2].pinyin, "你");
    assert_eq!(enemies[2].hanzi, "你");
    assert_eq!(enemies[1].hp, 3);
    assert_eq!(enemies[1].damage, 2);
    assert_eq!(enemies[1].gold_value, 9);
    assert!(enemies.iter().all(|e| e.alert && e.ai == AiBehavior::Chase));
}
