use station_rogue::crucible::{
    aggregate_armor_pierce, aggregate_bonus_armor, aggregate_bonus_damage, aggregate_crit_chance, aggregate_dodge_chance,
    aggregate_double_strike, aggregate_focus_on_kill, aggregate_focus_regen, aggregate_gold_find,
    aggregate_hard_answer_damage, aggregate_hard_answer_heal, aggregate_heal_on_kill, aggregate_lifesteal,
    aggregate_max_hp, aggregate_movement_bonus, aggregate_radical_find, aggregate_spell_power, burn_on_hit,
    effect_from_tag, effect_tag, emergency_repair_amount, has_combo_extender, has_kinetic_absorber, has_neural_sync,
    has_overcharge_proc, has_shield_on_kill, has_temporal_flux, poison_on_hit, tree_for_equipment, CrucibleEffect,
    CrucibleState,
};
use station_rogue::rarity::ItemRarity;
use station_rogue::player::EquipSlot;

#[test]
fn short_label_all_variants() {
    assert_eq!(CrucibleEffect::BonusDamage(1).short_label(), "+Dmg");
    assert_eq!(CrucibleEffect::BonusArmor(1).short_label(), "+Armor");
    assert_eq!(CrucibleEffect::MaxHp(5).short_label(), "+HP");
    assert_eq!(CrucibleEffect::CritChance(10).short_label(), "+Crit%");
    assert_eq!(CrucibleEffect::LifeSteal(1).short_label(), "Drain");
    assert_eq!(CrucibleEffect::SpellPower(1).short_label(), "+Spell");
    assert_eq!(CrucibleEffect::FocusRegen(1).short_label(), "+Focus");
    assert_eq!(CrucibleEffect::GoldFind(15).short_label(), "+Gold");
    assert_eq!(CrucibleEffect::RadicalFind(15).short_label(), "+Rad");
    assert_eq!(CrucibleEffect::DodgeChance(5).short_label(), "+Dodge");
    assert_eq!(CrucibleEffect::MovementBonus(1).short_label(), "+Move");
    assert_eq!(
        CrucibleEffect::BurnOnHit { damage: 1, turns: 3 }.short_label(),
        "🔥Hit"
    );
    assert_eq!(
        CrucibleEffect::PoisonOnHit { damage: 2, turns: 4 }.short_label(),
        "☠Hit"
    );
    assert_eq!(CrucibleEffect::ShieldOnKill.short_label(), "🛡Kill");
    assert_eq!(CrucibleEffect::HealOnKill(1).short_label(), "❤Kill");
    assert_eq!(CrucibleEffect::FocusOnKill(3).short_label(), "⚡Kill");
    assert_eq!(CrucibleEffect::HardAnswerDamage(2).short_label(), "📖Dmg");
    assert_eq!(CrucibleEffect::HardAnswerHeal(2).short_label(), "📖Heal");
    assert_eq!(CrucibleEffect::ComboExtender.short_label(), "Combo+");
    assert_eq!(CrucibleEffect::DoubleStrike(10).short_label(), "2xHit");
    assert_eq!(CrucibleEffect::ArmorPierce(2).short_label(), "Pierce");
    assert_eq!(CrucibleEffect::OverchargeProc.short_label(), "Overch");
    assert_eq!(CrucibleEffect::EmergencyRepair(3).short_label(), "EmRep");
    assert_eq!(CrucibleEffect::KineticAbsorber.short_label(), "Absorb");
    assert_eq!(CrucibleEffect::NeuralSync.short_label(), "SRS+");
    assert_eq!(CrucibleEffect::TemporalFlux.short_label(), "Tempo");
}

#[test]
fn effect_tag_roundtrip() {
    let effects = vec![
        CrucibleEffect::BonusDamage(3),
        CrucibleEffect::BonusArmor(2),
        CrucibleEffect::MaxHp(5),
        CrucibleEffect::CritChance(10),
        CrucibleEffect::LifeSteal(1),
        CrucibleEffect::SpellPower(2),
        CrucibleEffect::FocusRegen(1),
        CrucibleEffect::GoldFind(15),
        CrucibleEffect::RadicalFind(15),
        CrucibleEffect::DodgeChance(5),
        CrucibleEffect::MovementBonus(1),
        CrucibleEffect::BurnOnHit { damage: 2, turns: 3 },
        CrucibleEffect::ShieldOnKill,
        CrucibleEffect::HealOnKill(2),
        CrucibleEffect::FocusOnKill(3),
        CrucibleEffect::HardAnswerDamage(2),
        CrucibleEffect::HardAnswerHeal(1),
        CrucibleEffect::ComboExtender,
        CrucibleEffect::DoubleStrike(10),
        CrucibleEffect::ArmorPierce(2),
        CrucibleEffect::OverchargeProc,
        CrucibleEffect::EmergencyRepair(3),
        CrucibleEffect::KineticAbsorber,
        CrucibleEffect::NeuralSync,
        CrucibleEffect::TemporalFlux,
    ];
    for e in &effects {
        let tag = effect_tag(e);
        let recovered = effect_from_tag(&tag);
        assert_eq!(
            recovered.short_label(),
            e.short_label(),
            "Tag '{}' didn't roundtrip for {:?}",
            tag,
            e
        );
    }
}

#[test]
fn tree_for_equipment_deterministic() {
    let t1 = tree_for_equipment(EquipSlot::Weapon, "Laser Pistol");
    let t2 = tree_for_equipment(EquipSlot::Weapon, "Laser Pistol");
    assert_eq!(t1, t2);
}

#[test]
fn tree_for_equipment_slot_ranges() {
    let w = tree_for_equipment(EquipSlot::Weapon, "Test");
    assert!(w < 3);
    let a = tree_for_equipment(EquipSlot::Armor, "Test");
    assert!((3..6).contains(&a));
    let c = tree_for_equipment(EquipSlot::Charm, "Test");
    assert!((6..9).contains(&c));
}

#[test]
fn tag_text_of_valued_and_proc_effects() {
    assert_eq!(effect_tag(&CrucibleEffect::MaxHp(-7)), "MaxHp:-7");
    assert_eq!(effect_tag(&CrucibleEffect::BurnOnHit { damage: 2, turns: 3 }), "BurnOnHit:2,3");
    assert_eq!(effect_tag(&CrucibleEffect::NeuralSync), "NeuralSync");
    assert_eq!(CrucibleEffect::GoldFind(15).effect_to_tag(), "GoldFind:15");
}

#[test]
fn from_tag_trims_value_and_defaults_to_zero() {
    assert!(matches!(effect_from_tag("MaxHp: 7 "), CrucibleEffect::MaxHp(7)));
    assert!(matches!(effect_from_tag("MaxHp:abc"), CrucibleEffect::MaxHp(0)));
    assert!(matches!(effect_from_tag("MaxHp"), CrucibleEffect::MaxHp(0)));
    assert!(matches!(effect_from_tag("CritChance:99999999999"), CrucibleEffect::CritChance(0)));
    assert!(matches!(effect_from_tag("CritChance:-2147483648"), CrucibleEffect::CritChance(i32::MIN)));
}

#[test]
fn from_tag_unknown_name_gives_zero_damage() {
    assert!(matches!(effect_from_tag("Nonsense:4"), CrucibleEffect::BonusDamage(0)));
    assert!(matches!(effect_from_tag(""), CrucibleEffect::BonusDamage(0)));
    assert!(matches!(effect_from_tag("maxhp:3"), CrucibleEffect::BonusDamage(0)));
}

#[test]
fn from_tag_proc_without_both_values_defaults() {
    assert!(matches!(
        effect_from_tag("BurnOnHit:5"),
        CrucibleEffect::BurnOnHit { damage: 1, turns: 3 }
    ));
    assert!(matches!(
        effect_from_tag("PoisonOnHit:4,6,9"),
        CrucibleEffect::PoisonOnHit { damage: 4, turns: 6 }
    ));
    assert!(matches!(
        effect_from_tag("PoisonOnHit:x,2"),
        CrucibleEffect::PoisonOnHit { damage: 0, turns: 2 }
    ));
}

#[test]
fn tag_round_trip_keeps_values() {
    let e = CrucibleEffect::PoisonOnHit { damage: -3, turns: 12 };
    assert!(matches!(
        effect_from_tag(&effect_tag(&e)),
        CrucibleEffect::PoisonOnHit { damage: -3, turns: 12 }
    ));
    let e = CrucibleEffect::EmergencyRepair(i32::MAX);
    assert!(matches!(effect_from_tag(&effect_tag(&e)), CrucibleEffect::EmergencyRepair(i32::MAX)));
}

#[test]
fn tree_index_follows_name_hash() {
    // "Test" hashes to 2_603_186 over its bytes; 2_603_186 % 3 == 2.
    assert_eq!(tree_for_equipment(EquipSlot::Weapon, "Test"), 2);
    assert_eq!(tree_for_equipment(EquipSlot::Armor, "Test"), 5);
    assert_eq!(tree_for_equipment(EquipSlot::Charm, ""), 6);
}

#[test]
fn generate_normal_count() {
    for seed in 0..50u64 {
        let s = CrucibleState::generate(EquipSlot::Weapon, ItemRarity::Normal, seed);
        assert!(
            s.nodes.len() >= 3 && s.nodes.len() <= 5,
            "Normal tree had {} nodes (seed={})",
            s.nodes.len(),
            seed
        );
    }
}

#[test]
fn generate_magic_count() {
    for seed in 0..50u64 {
        let s = CrucibleState::generate(EquipSlot::Armor, ItemRarity::Magic, seed);
        assert!(
            s.nodes.len() >= 6 && s.nodes.len() <= 9,
            "Magic tree had {} nodes (seed={})",
            s.nodes.len(),
            seed
        );
    }
}

#[test]
fn generate_rare_count() {
    for seed in 0..50u64 {
        let s = CrucibleState::generate(EquipSlot::Charm, ItemRarity::Rare, seed);
        assert!(
            s.nodes.len() >= 10 && s.nodes.len() <= 14,
            "Rare tree had {} nodes (seed={})",
            s.nodes.len(),
            seed
        );
    }
}

#[test]
fn generate_unique_count() {
    for seed in 0..50u64 {
        let s = CrucibleState::generate(EquipSlot::Weapon, ItemRarity::Unique, seed);
        assert!(
            s.nodes.len() >= 15 && s.nodes.len() <= 20,
            "Unique tree had {} nodes (seed={})",
            s.nodes.len(),
            seed
        );
    }
}

#[test]
fn generate_root_pre_allocated() {
    let s = CrucibleState::generate(EquipSlot::Weapon, ItemRarity::Normal, 42);
    assert!(s.allocated[0], "Node 0 should be pre-allocated");
    assert_eq!(s.nodes[0].xp_cost, 0, "Root node should be free");
    assert_eq!(s.nodes[0].layout, station_rogue::crucible::NodeLayout::Root, "Root node at origin");
}

#[test]
fn generate_deterministic() {
    let a = CrucibleState::generate(EquipSlot::Weapon, ItemRarity::Rare, 12345);
    let b = CrucibleState::generate(EquipSlot::Weapon, ItemRarity::Rare, 12345);
    assert_eq!(a.nodes.len(), b.nodes.len());
    for i in 0..a.nodes.len() {
        assert_eq!(a.nodes[i].name, b.nodes[i].name);
        assert_eq!(a.nodes[i].xp_cost, b.nodes[i].xp_cost);
    }
}

#[test]
fn generate_tree_connected() {
    let s = CrucibleState::generate(EquipSlot::Weapon, ItemRarity::Unique, 99);
    let n = s.nodes.len();
    let mut visited = vec![false; n];
    let mut stack = vec![0usize];
    while let Some(node) = stack.pop() {
        if visited[node] {
            continue;
        }
        visited[node] = true;
        for &neighbor in &s.edges[node] {
            if !visited[neighbor] {
                stack.push(neighbor);
            }
        }
    }
    assert!(
        visited.iter().all(|&v| v),
        "All nodes must be reachable from root"
    );
}

#[test]
fn can_allocate_root_already_allocated() {
    let s = CrucibleState::generate(EquipSlot::Weapon, ItemRarity::Normal, 42);
    assert!(!s.can_allocate(0), "Root is already allocated");
}

#[test]
fn can_allocate_neighbor_of_root() {
    let mut s = CrucibleState::generate(EquipSlot::Weapon, ItemRarity::Normal, 42);
    s.xp = 1000;
    let neighbor = s.edges[0][0];
    assert!(s.can_allocate(neighbor));
}

#[test]
fn can_allocate_requires_xp() {
    let s = CrucibleState::generate(EquipSlot::Weapon, ItemRarity::Normal, 42);
    let neighbor = s.edges[0][0];
    assert!(!s.can_allocate(neighbor));
}

#[test]
fn can_allocate_requires_adjacency() {
    let mut s = CrucibleState::generate(EquipSlot::Weapon, ItemRarity::Rare, 42);
    s.xp = 10000;
    let non_adj = (1..s.nodes.len()).find(|&i| {
        !s.edges[i].iter().any(|&j| s.allocated[j])
    });
    if let Some(idx) = non_adj {
        assert!(
            !s.can_allocate(idx),
            "Node {} should not be allocatable without adjacent allocated",
            idx
        );
    }
}

#[test]
fn allocate_spends_xp() {
    let mut s = CrucibleState::generate(EquipSlot::Weapon, ItemRarity::Normal, 42);
    s.xp = 100;
    let neighbor = s.edges[0][0];
    let cost = s.nodes[neighbor].xp_cost;
    assert!(s.allocate(neighbor));
    assert_eq!(s.xp, 100 - cost);
    assert!(s.allocated[neighbor]);
}

#[test]
fn allocate_fails_when_cannot() {
    let mut s = CrucibleState::generate(EquipSlot::Weapon, ItemRarity::Normal, 42);
    assert!(!s.allocate(0)); // already allocated
}

#[test]
fn allocate_out_of_bounds() {
    let mut s = CrucibleState::generate(EquipSlot::Weapon, ItemRarity::Normal, 42);
    assert!(!s.can_allocate(9999));
    assert!(!s.allocate(9999));
}

#[test]
fn gain_xp_accumulates() {
    let mut s = CrucibleState::generate(EquipSlot::Weapon, ItemRarity::Normal, 42);
    assert_eq!(s.xp, 0);
    s.gain_xp(10);
    assert_eq!(s.xp, 10);
    s.gain_xp(5);
    assert_eq!(s.xp, 15);
}

#[test]
fn gain_xp_no_auto_unlock() {
    let mut s = CrucibleState::generate(EquipSlot::Weapon, ItemRarity::Normal, 42);
    s.gain_xp(10000);
    assert_eq!(s.unlocked_count(), 1);
}

#[test]
fn active_effects_only_root() {
    let s = CrucibleState::generate(EquipSlot::Weapon, ItemRarity::Normal, 42);
    assert_eq!(s.active_effects().len(), 1);
}

#[test]
fn active_effects_after_allocate() {
    let mut s = CrucibleState::generate(EquipSlot::Weapon, ItemRarity::Normal, 42);
    s.xp = 1000;
    let neighbor = s.edges[0][0];
    s.allocate(neighbor);
    assert_eq!(s.active_effects().len(), 2);
}

#[test]
fn active_effects_empty_state() {
    let s = CrucibleState::empty();
    assert!(s.active_effects().is_empty());
}

#[test]
fn unlocked_count_initial() {
    let s = CrucibleState::generate(EquipSlot::Weapon, ItemRarity::Normal, 42);
    assert_eq!(s.unlocked_count(), 1);
}

#[test]
fn unlocked_count_after_allocate() {
    let mut s = CrucibleState::generate(EquipSlot::Weapon, ItemRarity::Normal, 42);
    s.xp = 1000;
    let neighbor = s.edges[0][0];
    s.allocate(neighbor);
    assert_eq!(s.unlocked_count(), 2);
}

#[test]
fn unlocked_count_empty() {
    let s = CrucibleState::empty();
    assert_eq!(s.unlocked_count(), 0);
}

#[test]
fn reset_fight_clears_state() {
    let mut s = CrucibleState::generate(EquipSlot::Weapon, ItemRarity::Normal, 42);
    s.emergency_used = true;
    s.kinetic_stored = 42;
    s.reset_fight();
    assert!(!s.emergency_used);
    assert_eq!(s.kinetic_stored, 0);
}

#[test]
fn reset_fight_preserves_tree() {
    let mut s = CrucibleState::generate(EquipSlot::Weapon, ItemRarity::Normal, 42);
    s.xp = 1000;
    let neighbor = s.edges[0][0];
    s.allocate(neighbor);
    let saved_xp = s.xp;
    s.emergency_used = true;
    s.kinetic_stored = 10;
    s.reset_fight();
    assert_eq!(s.unlocked_count(), 2);
    assert_eq!(s.xp, saved_xp);
}

#[test]
fn xp_to_next_shows_needed() {
    let s = CrucibleState::generate(EquipSlot::Weapon, ItemRarity::Normal, 42);
    assert_eq!(s.xp_to_next(), Some(10));
}

#[test]
fn xp_to_next_with_enough_xp() {
    let mut s = CrucibleState::generate(EquipSlot::Weapon, ItemRarity::Normal, 42);
    s.xp = 100;
    assert_eq!(s.xp_to_next(), Some(0));
}

#[test]
fn xp_to_next_empty() {
    let s = CrucibleState::empty();
    assert_eq!(s.xp_to_next(), None);
}

#[test]
fn pending_branch_always_false() {
    let s = CrucibleState::generate(EquipSlot::Weapon, ItemRarity::Normal, 42);
    assert!(!s.pending_branch());
}

#[test]
fn aggregate_empty_returns_zero() {
    let empty: &[&CrucibleState] = &[];
    assert_eq!(aggregate_bonus_damage(empty), 0);
    assert_eq!(aggregate_bonus_armor(empty), 0);
    assert_eq!(aggregate_max_hp(empty), 0);
    assert_eq!(aggregate_crit_chance(empty), 0);
    assert_eq!(aggregate_dodge_chance(empty), 0);
    assert_eq!(aggregate_gold_find(empty), 0);
    assert_eq!(aggregate_radical_find(empty), 0);
    assert_eq!(aggregate_lifesteal(empty), 0);
    assert_eq!(aggregate_heal_on_kill(empty), 0);
    assert_eq!(aggregate_armor_pierce(empty), 0);
    assert_eq!(aggregate_hard_answer_damage(empty), 0);
    assert_eq!(aggregate_hard_answer_heal(empty), 0);
    assert_eq!(aggregate_double_strike(empty), 0);
    assert_eq!(emergency_repair_amount(empty), 0);
    assert!(!has_combo_extender(empty));
    assert!(!has_overcharge_proc(empty));
    assert!(!has_shield_on_kill(empty));
    assert_eq!(burn_on_hit(empty), None);
    assert_eq!(poison_on_hit(empty), None);
}

#[test]
fn aggregate_with_generated_state() {
    let s = CrucibleState::generate(EquipSlot::Weapon, ItemRarity::Normal, 42);
    let states: &[&CrucibleState] = &[&s];
    let _ = aggregate_bonus_damage(states);
    let _ = aggregate_bonus_armor(states);
    let _ = aggregate_max_hp(states);
    let _ = aggregate_crit_chance(states);
    let _ = aggregate_dodge_chance(states);
    let _ = aggregate_gold_find(states);
    let _ = aggregate_radical_find(states);
    let _ = aggregate_lifesteal(states);
    let _ = aggregate_heal_on_kill(states);
    let _ = aggregate_armor_pierce(states);
    let _ = aggregate_hard_answer_damage(states);
    let _ = aggregate_hard_answer_heal(states);
    let _ = aggregate_double_strike(states);
    let _ = emergency_repair_amount(states);
    let _ = has_combo_extender(states);
    let _ = has_overcharge_proc(states);
    let _ = has_shield_on_kill(states);
    let _ = burn_on_hit(states);
    let _ = poison_on_hit(states);
}

#[test]
fn slot_affects_effect_pool() {
    let s_weapon = CrucibleState::generate(EquipSlot::Weapon, ItemRarity::Rare, 42);
    let s_armor = CrucibleState::generate(EquipSlot::Armor, ItemRarity::Rare, 42);
    let w_labels: Vec<_> = s_weapon.nodes.iter().map(|n| n.name.clone()).collect();
    let a_labels: Vec<_> = s_armor.nodes.iter().map(|n| n.name.clone()).collect();
    assert_ne!(w_labels, a_labels);
}


fn node(effect: CrucibleEffect, xp_cost: u32) -> station_rogue::crucible::CrucibleNodeDyn {
    station_rogue::crucible::CrucibleNodeDyn {
        name: String::from("n"),
        description: String::new(),
        effect,
        xp_cost,
        layout: station_rogue::crucible::NodeLayout::Root,
    }
}

fn small_state() -> CrucibleState {
    CrucibleState {
        nodes: vec![
            node(CrucibleEffect::BonusDamage(2), 0),
            node(CrucibleEffect::BonusDamage(3), 10),
            node(CrucibleEffect::NeuralSync, 25),
            node(CrucibleEffect::PoisonOnHit { damage: 2, turns: 4 }, 40),
            node(CrucibleEffect::FocusRegen(1), 30),
        ],
        edges: vec![vec![1, 2], vec![0, 3], vec![0], vec![1], vec![]],
        allocated: vec![true, true, true, false, true],
        xp: 12,
        emergency_used: false,
        kinetic_stored: 0,
    }
}

#[test]
fn totals_add_unlocked_effects_across_trees() {
    let a = small_state();
    let b = small_state();
    let states: &[&CrucibleState] = &[&a, &b];
    assert_eq!(aggregate_bonus_damage(states), 10);
    assert_eq!(aggregate_focus_regen(states), 2);
    assert_eq!(aggregate_focus_on_kill(states), 0);
    assert_eq!(aggregate_movement_bonus(states), 0);
    assert_eq!(aggregate_spell_power(states), 0);
    assert!(has_neural_sync(states));
    assert!(!has_temporal_flux(states));
    assert!(!has_kinetic_absorber(states));
    assert_eq!(poison_on_hit(states), None);
}

#[test]
fn first_proc_follows_tree_order() {
    let mut a = small_state();
    a.allocated[3] = true;
    let b = small_state();
    let states: &[&CrucibleState] = &[&b, &a];
    assert_eq!(poison_on_hit(states), Some((2, 4)));
    assert_eq!(burn_on_hit(states), None);
}

#[test]
fn xp_to_next_is_the_cheapest_frontier_node() {
    let s = small_state();
    // only node 3 is locked and touches an unlocked node: 40 - 12
    assert_eq!(s.xp_to_next(), Some(28));
    let mut s = small_state();
    s.allocated = vec![true, false, false, false, false];
    // nodes 1 and 2 touch the root: min(10, 25) - 12 saturates to 0
    assert_eq!(s.xp_to_next(), Some(0));
    assert!(s.can_allocate(1));
    assert!(!s.can_allocate(2));
    assert!(!s.can_allocate(4));
}

#[test]
fn allocate_spends_exactly_the_cost() {
    let mut s = small_state();
    s.xp = 100;
    assert!(s.allocate(3));
    assert_eq!(s.xp, 60);
    assert!(s.allocated[3]);
    assert!(!s.allocate(3));
    assert_eq!(s.xp, 60);
}

#[test]
fn generated_trees_are_connected_for_many_seeds() {
    for seed in 0..40u64 {
        for (slot, rarity) in [
            (EquipSlot::Weapon, ItemRarity::Unique),
            (EquipSlot::Armor, ItemRarity::Rare),
            (EquipSlot::Charm, ItemRarity::Magic),
        ] {
            let s = CrucibleState::generate(slot, rarity, seed);
            for i in 1..s.nodes.len() {
                let parent = s.edges[i][0];
                assert!(parent < i);
                assert!(s.edges[parent].contains(&i));
                assert!(!s.allocated[i]);
                assert!(s.nodes[i].xp_cost >= 10);
            }
            assert!(s.allocated[0]);
            assert_eq!(s.nodes[0].xp_cost, 0);
        }
    }
}

#[test]
fn equipment_tree_is_the_normal_tree_of_its_name_hash() {
    let eq = station_rogue::player::Equipment { name: String::from("Laser Pistol"), slot: EquipSlot::Weapon };
    let mut hash: u64 = 0;
    for b in "Laser Pistol".bytes() {
        hash = hash.wrapping_mul(31).wrapping_add(b as u64);
    }
    let a = CrucibleState::for_equipment(&eq);
    let b = CrucibleState::generate(EquipSlot::Weapon, ItemRarity::Normal, hash);
    assert_eq!(a.nodes.len(), b.nodes.len());
    for i in 0..a.nodes.len() {
        assert_eq!(a.nodes[i].name, b.nodes[i].name);
        assert_eq!(a.nodes[i].description, b.nodes[i].description);
    }
}

#[test]
fn node_descriptions_match_their_effects() {
    let s = CrucibleState::generate(EquipSlot::Armor, ItemRarity::Unique, 7);
    for n in &s.nodes {
        match n.effect {
            CrucibleEffect::MaxHp(v) => assert_eq!(n.description, format!("+{} max HP", v)),
            CrucibleEffect::KineticAbsorber => {
                assert_eq!(n.description, "Store 50% damage taken, add to next attack")
            }
            _ => {}
        }
        assert!(n.name.contains(' '));
    }
}

#[test]
fn unlocking_grows_the_unlocked_part_from_the_root() {
    let mut s = CrucibleState::generate(EquipSlot::Charm, ItemRarity::Unique, 5);
    s.gain_xp(100_000);
    let mut progress = true;
    while progress {
        progress = false;
        for i in 0..s.nodes.len() {
            if s.allocate(i) {
                progress = true;
            }
        }
    }
    assert!(s.allocated.iter().all(|&a| a));
    for i in 1..s.nodes.len() {
        // every unlocked node other than the root touches an unlocked node
        assert!(s.edges[i].iter().any(|&j| s.allocated[j]));
    }
    assert_eq!(s.unlocked_count(), s.nodes.len());
}
