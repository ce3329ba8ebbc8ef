use station_rogue::crucible::{CrucibleEffect, CrucibleState, NodeLayout};
use station_rogue::player::EquipSlot;
use station_rogue::rarity::ItemRarity;
use station_rogue::save::saved_positions;

fn position_texts(n: usize) -> (Vec<String>, Vec<String>) {
    let px = (0..n).map(|i| format!("{:.2}", i as f64 * 0.5)).collect();
    let py = (0..n).map(|i| format!("{:.2}", -(i as f64) * 0.25)).collect();
    (px, py)
}

#[test]
fn json_roundtrip() {
    let mut s = CrucibleState::generate(EquipSlot::Weapon, ItemRarity::Rare, 42);
    s.xp = 1000;
    let neighbor = s.edges[0][0];
    s.allocate(neighbor);

    let (px, py) = position_texts(s.nodes.len());
    let json = s.to_json(&px, &py);
    let s2 = CrucibleState::from_json(&json);

    assert_eq!(s2.nodes.len(), s.nodes.len());
    assert_eq!(s2.xp, s.xp);
    assert_eq!(s2.allocated, s.allocated);
    for i in 0..s.nodes.len() {
        assert_eq!(s2.nodes[i].name, s.nodes[i].name);
        assert_eq!(s2.nodes[i].description, s.nodes[i].description);
        assert_eq!(s2.nodes[i].xp_cost, s.nodes[i].xp_cost);
        assert_eq!(s2.nodes[i].effect.short_label(), s.nodes[i].effect.short_label());
        assert_eq!(s2.edges[i].len(), s.edges[i].len());
    }
}

#[test]
fn json_roundtrip_empty() {
    let s = CrucibleState::empty();
    let json = s.to_json(&[], &[]);
    let s2 = CrucibleState::from_json(&json);
    assert_eq!(s2.nodes.len(), 0);
    assert_eq!(s2.xp, 0);
}

#[test]
fn from_json_invalid_returns_empty() {
    let s = CrucibleState::from_json("not valid json at all");
    assert_eq!(s.nodes.len(), 0);
    assert_eq!(s.xp, 0);
}

#[test]
fn from_json_empty_string() {
    let s = CrucibleState::from_json("");
    assert_eq!(s.nodes.len(), 0);
}

#[test]
fn from_json_old_format_returns_empty() {
    let s = CrucibleState::from_json(r#"{"t":0,"x":42,"u":[1,1,0,0,0],"b":null}"#);
    assert_eq!(s.nodes.len(), 0);
}

#[test]
fn round_trip_keeps_the_whole_tree() {
    let mut s = CrucibleState::generate(EquipSlot::Charm, ItemRarity::Unique, 9);
    s.gain_xp(5000);
    for i in 0..s.nodes.len() {
        s.allocate(i);
    }
    let (px, py) = position_texts(s.nodes.len());
    let json = s.to_json(&px, &py);
    let s2 = CrucibleState::from_json(&json);
    assert_eq!(s2.nodes.len(), s.nodes.len());
    for i in 0..s.nodes.len() {
        assert_eq!(format!("{:?}", s2.nodes[i].effect), format!("{:?}", s.nodes[i].effect));
        assert_eq!(s2.nodes[i].layout, NodeLayout::Saved);
        assert_eq!(s2.edges[i], s.edges[i]);
    }
    assert_eq!(s2.allocated, s.allocated);
    assert_eq!(s2.xp, s.xp);
    assert!(!s2.emergency_used);
    assert_eq!(s2.kinetic_stored, 0);
    let (qx, qy) = saved_positions(&json);
    assert_eq!(qx, px);
    assert_eq!(qy, py);
}

#[test]
fn reads_a_hand_written_tree() {
    let json = r#"{"nc":2,"nm":["Core","Edge \"X\" \\ end"],"ds":["a","b"],"fx":["BonusDamage:3","ShieldOnKill"],"xc":[0, 25],"px":[0.00,1.5e1],"py":[-0.00,inf],"eg":"1;0,7,x","al":[1,0],"xp":77}"#;
    let s = CrucibleState::from_json(json);
    assert_eq!(s.nodes.len(), 2);
    assert_eq!(s.nodes[1].name, "Edge \"X\" \\ end");
    assert!(matches!(s.nodes[0].effect, CrucibleEffect::BonusDamage(3)));
    assert!(matches!(s.nodes[1].effect, CrucibleEffect::ShieldOnKill));
    assert_eq!(s.nodes[1].xp_cost, 25);
    // neighbour 7 names no node and "x" is no number: both are dropped
    assert_eq!(s.edges, vec![vec![1], vec![0]]);
    assert_eq!(s.allocated, vec![true, false]);
    assert_eq!(s.xp, 77);
    let (px, py) = saved_positions(json);
    assert_eq!(px, vec!["0.00".to_string(), "1.5e1".to_string()]);
    assert_eq!(py, vec!["-0.00".to_string(), "inf".to_string()]);
}

#[test]
fn a_list_short_of_the_count_reads_as_empty() {
    let json = r#"{"nc":2,"nm":["a","b"],"ds":["a","b"],"fx":["MaxHp:1","MaxHp:2"],"xc":[0,1],"px":[0,1],"py":[0,oops],"eg":"1;0","al":[1,0],"xp":5}"#;
    let s = CrucibleState::from_json(json);
    assert_eq!(s.nodes.len(), 0);
    assert_eq!(s.xp, 0);
}

#[test]
fn missing_xp_reads_as_zero() {
    let json = r#"{"nc":1,"nm":["a"],"ds":["d"],"fx":["NeuralSync"],"xc":[4],"px":[.5],"py":[5.],"eg":"","al":[0]}"#;
    let s = CrucibleState::from_json(json);
    assert_eq!(s.nodes.len(), 1);
    assert_eq!(s.xp, 0);
    assert_eq!(s.edges, vec![Vec::<usize>::new()]);
    assert!(matches!(s.nodes[0].effect, CrucibleEffect::NeuralSync));
}

#[test]
fn position_texts_follow_the_float_grammar() {
    let json = r#"{"px":[1, +2.5 ,-3E-2,NaN,Infinity,e5,1.2.3,.,--1, 7e],"py":[]}"#;
    let (px, py) = saved_positions(json);
    assert_eq!(px, vec!["1", "+2.5", "-3E-2", "NaN", "Infinity"]);
    assert!(py.is_empty());
    for t in &px {
        assert!(t.parse::<f64>().is_ok());
    }
    for t in ["e5", "1.2.3", ".", "--1", "7e"] {
        assert!(t.parse::<f64>().is_err());
    }
}

#[test]
fn count_too_large_for_u32_reads_as_empty() {
    let s = CrucibleState::from_json(r#"{"nc":4294967296}"#);
    assert_eq!(s.nodes.len(), 0);
}

#[test]
fn names_with_quotes_and_backslashes_survive_the_round_trip() {
    let mut s = CrucibleState::generate(EquipSlot::Armor, ItemRarity::Rare, 3);
    s.nodes[0].name = "a \"quoted\" \\ name, with [brackets]".to_string();
    s.nodes[1].description = "\\\"".to_string();
    let (px, py) = position_texts(s.nodes.len());
    let json = s.to_json(&px, &py);
    let s2 = CrucibleState::from_json(&json);
    assert_eq!(s2.nodes.len(), s.nodes.len());
    assert_eq!(s2.nodes[0].name, s.nodes[0].name);
    assert_eq!(s2.nodes[1].description, s.nodes[1].description);
    for i in 0..s.nodes.len() {
        assert_eq!(s2.edges[i], s.edges[i]);
    }
}

#[test]
fn an_empty_tree_reads_back_without_its_xp() {
    let mut s = CrucibleState::empty();
    s.xp = 40;
    let json = s.to_json(&[], &[]);
    assert_eq!(json, r#"{"nc":0,"nm":[],"ds":[],"fx":[],"xc":[],"px":[],"py":[],"eg":"","al":[],"xp":40}"#);
    let s2 = CrucibleState::from_json(&json);
    assert_eq!(s2.nodes.len(), 0);
    assert_eq!(s2.xp, 0);
}
