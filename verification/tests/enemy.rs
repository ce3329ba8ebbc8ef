use station_rogue::enemy::{AiBehavior, BossKind, Enemy, RadicalAction, VocabEntry};

const FRIEND: VocabEntry = VocabEntry {
    hanzi: "朋友",
    pinyin: "peng2you3",
    meaning: "friend",
    components: &[],
};

const GOOD: VocabEntry = VocabEntry {
    hanzi: "好",
    pinyin: "hao3",
    meaning: "good",
    components: &["女", "子"],
};

fn friend_entry() -> &'static VocabEntry {
    &FRIEND
}

#[test]
fn boss_kind_matches_key_floors() {
    assert_eq!(BossKind::for_floor(5), Some(BossKind::PirateCaptain));
    assert_eq!(BossKind::for_floor(10), Some(BossKind::HiveQueen));
    assert_eq!(BossKind::for_floor(15), Some(BossKind::RogueAICore));
    assert_eq!(BossKind::for_floor(20), Some(BossKind::VoidEntity));
    assert_eq!(BossKind::for_floor(25), Some(BossKind::AncientGuardian));
    assert_eq!(BossKind::for_floor(30), Some(BossKind::DriftLeviathan));
    assert_eq!(BossKind::for_floor(35), None);
}

#[test]
fn elite_expected_syllable_tracks_chain_progress() {
    let mut enemy = Enemy::from_vocab(friend_entry(), 0, 0, 6);
    enemy.elite_chain = 1;

    assert_eq!(enemy.elite_expected_syllable(), Some("you3"));
}

#[test]
fn ai_behavior_dispatch_covers_all_variants() {
    let mut enemy = Enemy::from_vocab(friend_entry(), 5, 5, 1);

    enemy.ai = AiBehavior::Chase;
    let _ = enemy.ai_step(10, 10, 0);

    enemy.ai = AiBehavior::Retreat;
    let _ = enemy.ai_step(10, 10, 0);

    enemy.ai = AiBehavior::Ambush;
    let _ = enemy.ai_step(10, 10, 0);

    enemy.ai = AiBehavior::Sentinel;
    let _ = enemy.ai_step(10, 10, 0);

    enemy.ai = AiBehavior::Kiter;
    let _ = enemy.ai_step(10, 10, 0);

    enemy.ai = AiBehavior::Pack;
    let _ = enemy.ai_step(10, 10, 0);
}

#[test]
fn sentinel_holds_position_when_far() {
    let mut enemy = Enemy::from_vocab(friend_entry(), 5, 5, 1);
    enemy.ai = AiBehavior::Sentinel;
    let (nx, ny) = enemy.ai_step(10, 10, 0);
    assert_eq!((nx, ny), (5, 5));
}

#[test]
fn sentinel_chases_when_adjacent() {
    let mut enemy = Enemy::from_vocab(friend_entry(), 5, 5, 1);
    enemy.ai = AiBehavior::Sentinel;
    let (nx, ny) = enemy.ai_step(6, 5, 0);
    assert_eq!((nx, ny), (6, 5));
}

#[test]
fn kiter_retreats_when_close() {
    let mut enemy = Enemy::from_vocab(friend_entry(), 5, 5, 1);
    enemy.ai = AiBehavior::Kiter;
    let (nx, ny) = enemy.ai_step(6, 5, 0);
    assert_ne!((nx, ny), (6, 5));
    assert!((nx - 5i32).abs() + (ny - 5i32).abs() <= 1);
}

#[test]
fn kiter_advances_when_far() {
    let mut enemy = Enemy::from_vocab(friend_entry(), 0, 0, 1);
    enemy.ai = AiBehavior::Kiter;
    let (nx, ny) = enemy.ai_step(10, 10, 0);
    assert!(nx > 0 || ny > 0);
}

#[test]
fn kiter_holds_at_medium_range() {
    let mut enemy = Enemy::from_vocab(friend_entry(), 5, 5, 1);
    enemy.ai = AiBehavior::Kiter;
    // dist = 3+1 = 4, in the hold zone (3..=4)
    let (nx, ny) = enemy.ai_step(8, 6, 0);
    assert_eq!((nx, ny), (5, 5));
}

#[test]
fn pack_holds_without_allies() {
    let mut enemy = Enemy::from_vocab(friend_entry(), 5, 5, 1);
    enemy.ai = AiBehavior::Pack;
    let (nx, ny) = enemy.ai_step(10, 10, 0);
    assert_eq!((nx, ny), (5, 5));
}

#[test]
fn pack_chases_with_enough_allies() {
    let mut enemy = Enemy::from_vocab(friend_entry(), 5, 5, 1);
    enemy.ai = AiBehavior::Pack;
    let (nx, ny) = enemy.ai_step(10, 10, 2);
    assert_ne!((nx, ny), (5, 5));
}

#[test]
fn pack_chases_when_adjacent_even_alone() {
    let mut enemy = Enemy::from_vocab(friend_entry(), 5, 5, 1);
    enemy.ai = AiBehavior::Pack;
    let (nx, ny) = enemy.ai_step(6, 5, 0);
    assert_eq!((nx, ny), (6, 5));
}

#[test]
fn radical_action_from_known_radicals() {
    assert_eq!(
        RadicalAction::from_radical("火"),
        Some(RadicalAction::SpreadingWildfire)
    );
    assert_eq!(
        RadicalAction::from_radical("水"),
        Some(RadicalAction::ErosiveFlow)
    );
    assert_eq!(
        RadicalAction::from_radical("心"),
        Some(RadicalAction::DoubtSeed)
    );
    assert_eq!(
        RadicalAction::from_radical("又"),
        Some(RadicalAction::EchoStrike)
    );
    assert_eq!(RadicalAction::from_radical("xyz"), None);
}

#[test]
fn enemy_radical_actions_from_components() {
    // 好 has components 女 and 子
    let entry = &GOOD;
    let enemy = Enemy::from_vocab(entry, 0, 0, 1);
    let actions = enemy.radical_actions();
    assert!(actions.contains(&RadicalAction::MaternalShield)); // 女
    assert!(actions.contains(&RadicalAction::PotentialBurst)); // 子
    assert_eq!(actions.len(), 2); // 1 per radical, 好 has 2 radicals
}


#[test]
fn pinyin_splits_after_each_tone_digit() {
    assert_eq!(station_rogue::enemy::pinyin_syllables("peng2you3"), vec!["peng2", "you3"]);
    assert_eq!(station_rogue::enemy::pinyin_syllables("ma"), vec!["ma"]);
    assert_eq!(station_rogue::enemy::pinyin_syllables("ni3hao"), vec!["ni3", "hao"]);
    assert!(station_rogue::enemy::pinyin_syllables("").is_empty());
}

#[test]
fn type_color_follows_attack_type() {
    let actions = [
        RadicalAction::SpreadingWildfire,
        RadicalAction::ErosiveFlow,
        RadicalAction::OverwhelmingForce,
        RadicalAction::DevouringMaw,
        RadicalAction::RevealingDawn,
        RadicalAction::DownpourBarrage,
        RadicalAction::MercenaryPact,
        RadicalAction::BoneShatter,
        RadicalAction::FlockAssault,
        RadicalAction::ImperialCommand,
    ];
    for a in actions {
        let expected = match a.attack_type() {
            "Melee" | "Projectile" | "AoE" => "#ff6666",
            "Arcing (1 turn)" | "Arcing (2 turns)" => "#ff9944",
            "Self-buff" => "#6688ff",
            "Debuff" => "#ffcc44",
            "Support" => "#66cc66",
            _ => "#cccccc",
        };
        assert_eq!(a.type_color(), expected);
    }
    assert_eq!(RadicalAction::BoneShatter.type_color(), "#ff9944");
    assert_eq!(RadicalAction::MercenaryPact.type_color(), "#66cc66");
}
