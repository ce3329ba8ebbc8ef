//! Passive effects granted by crucible nodes, and their tag encoding.

use vstd::prelude::*;
use vstd::string::StrSliceExecFns;
use vstd::string::StringExecFns;
use vstd::string::StringSliceAdditionalSpecFns;
use crate::player::{EquipSlot, Equipment};
use vstd::utf8::encode_utf8;
use crate::rarity::ItemRarity;
use crate::text::{decimal, digits, parse_i32, parse_i32_spec, push_int, str_eq, trim, trim_spec, with_int, lemma_digits_value, lemma_parse_decimal};

verus! {

/// Passive bonus granted by an unlocked crucible node.
#[derive(Clone, Copy, Debug)]
pub enum CrucibleEffect {
    // Stat bonuses
    BonusDamage(i32),
    BonusArmor(i32),
    MaxHp(i32),
    CritChance(i32),
    LifeSteal(i32),
    SpellPower(i32),
    FocusRegen(i32),
    GoldFind(i32),
    RadicalFind(i32),
    DodgeChance(i32),
    MovementBonus(i32),
    // On-hit procs
    BurnOnHit { damage: i32, turns: i32 },
    PoisonOnHit { damage: i32, turns: i32 },
    // On-kill procs
    ShieldOnKill,
    HealOnKill(i32),
    FocusOnKill(i32),
    // Hard-answer synergy
    HardAnswerDamage(i32),
    HardAnswerHeal(i32),
    // Special
    /// A wrong answer only halves the streak instead of clearing it.
    ComboExtender,
    /// Percent chance to hit twice on a correct answer.
    DoubleStrike(i32),
    /// Ignore this many points of enemy armor.
    ArmorPierce(i32),
    /// Chance for extra damage on an attack.
    OverchargeProc,
    /// Heal this much once per fight when low.
    EmergencyRepair(i32),
    /// Store part of the damage taken for the next attack.
    KineticAbsorber,
    /// Correct answers count twice for review scheduling.
    NeuralSync,
    /// Chance for a bonus action after a kill.
    TemporalFlux,
}

/// The short label shown for an effect.
pub open spec fn label_spec(e: CrucibleEffect) -> Seq<char> {
    match e {
        CrucibleEffect::BonusDamage(_) => "+Dmg"@,
        CrucibleEffect::BonusArmor(_) => "+Armor"@,
        CrucibleEffect::MaxHp(_) => "+HP"@,
        CrucibleEffect::CritChance(_) => "+Crit%"@,
        CrucibleEffect::LifeSteal(_) => "Drain"@,
        CrucibleEffect::SpellPower(_) => "+Spell"@,
        CrucibleEffect::FocusRegen(_) => "+Focus"@,
        CrucibleEffect::GoldFind(_) => "+Gold"@,
        CrucibleEffect::RadicalFind(_) => "+Rad"@,
        CrucibleEffect::DodgeChance(_) => "+Dodge"@,
        CrucibleEffect::MovementBonus(_) => "+Move"@,
        CrucibleEffect::BurnOnHit { .. } => "🔥Hit"@,
        CrucibleEffect::PoisonOnHit { .. } => "☠Hit"@,
        CrucibleEffect::ShieldOnKill => "🛡Kill"@,
        CrucibleEffect::HealOnKill(_) => "❤Kill"@,
        CrucibleEffect::FocusOnKill(_) => "⚡Kill"@,
        CrucibleEffect::HardAnswerDamage(_) => "📖Dmg"@,
        CrucibleEffect::HardAnswerHeal(_) => "📖Heal"@,
        CrucibleEffect::ComboExtender => "Combo+"@,
        CrucibleEffect::DoubleStrike(_) => "2xHit"@,
        CrucibleEffect::ArmorPierce(_) => "Pierce"@,
        CrucibleEffect::OverchargeProc => "Overch"@,
        CrucibleEffect::EmergencyRepair(_) => "EmRep"@,
        CrucibleEffect::KineticAbsorber => "Absorb"@,
        CrucibleEffect::NeuralSync => "SRS+"@,
        CrucibleEffect::TemporalFlux => "Tempo"@,
    }
}

/// The name an effect is written under in its tag.
pub open spec fn effect_name(e: CrucibleEffect) -> Seq<char> {
    match e {
        CrucibleEffect::BonusDamage(_) => "BonusDamage"@,
        CrucibleEffect::BonusArmor(_) => "BonusArmor"@,
        CrucibleEffect::MaxHp(_) => "MaxHp"@,
        CrucibleEffect::CritChance(_) => "CritChance"@,
        CrucibleEffect::LifeSteal(_) => "LifeSteal"@,
        CrucibleEffect::SpellPower(_) => "SpellPower"@,
        CrucibleEffect::FocusRegen(_) => "FocusRegen"@,
        CrucibleEffect::GoldFind(_) => "GoldFind"@,
        CrucibleEffect::RadicalFind(_) => "RadicalFind"@,
        CrucibleEffect::DodgeChance(_) => "DodgeChance"@,
        CrucibleEffect::MovementBonus(_) => "MovementBonus"@,
        CrucibleEffect::BurnOnHit { .. } => "BurnOnHit"@,
        CrucibleEffect::PoisonOnHit { .. } => "PoisonOnHit"@,
        CrucibleEffect::ShieldOnKill => "ShieldOnKill"@,
        CrucibleEffect::HealOnKill(_) => "HealOnKill"@,
        CrucibleEffect::FocusOnKill(_) => "FocusOnKill"@,
        CrucibleEffect::HardAnswerDamage(_) => "HardAnswerDamage"@,
        CrucibleEffect::HardAnswerHeal(_) => "HardAnswerHeal"@,
        CrucibleEffect::ComboExtender => "ComboExtender"@,
        CrucibleEffect::DoubleStrike(_) => "DoubleStrike"@,
        CrucibleEffect::ArmorPierce(_) => "ArmorPierce"@,
        CrucibleEffect::OverchargeProc => "OverchargeProc"@,
        CrucibleEffect::EmergencyRepair(_) => "EmergencyRepair"@,
        CrucibleEffect::KineticAbsorber => "KineticAbsorber"@,
        CrucibleEffect::NeuralSync => "NeuralSync"@,
        CrucibleEffect::TemporalFlux => "TemporalFlux"@,
    }
}

/// The tag of an effect: its name, then for a valued effect a `:` and its
/// value, or for a proc its damage and turns separated by `,`.
pub open spec fn tag_spec(e: CrucibleEffect) -> Seq<char> {
    match e {
        CrucibleEffect::BurnOnHit { damage, turns } | CrucibleEffect::PoisonOnHit { damage, turns } => effect_name(e)
            + seq![':'] + decimal(damage as int) + seq![','] + decimal(turns as int),
        CrucibleEffect::BonusDamage(n) => effect_name(e) + seq![':'] + decimal(n as int),
        CrucibleEffect::BonusArmor(n) => effect_name(e) + seq![':'] + decimal(n as int),
        CrucibleEffect::MaxHp(n) => effect_name(e) + seq![':'] + decimal(n as int),
        CrucibleEffect::CritChance(n) => effect_name(e) + seq![':'] + decimal(n as int),
        CrucibleEffect::LifeSteal(n) => effect_name(e) + seq![':'] + decimal(n as int),
        CrucibleEffect::SpellPower(n) => effect_name(e) + seq![':'] + decimal(n as int),
        CrucibleEffect::FocusRegen(n) => effect_name(e) + seq![':'] + decimal(n as int),
        CrucibleEffect::GoldFind(n) => effect_name(e) + seq![':'] + decimal(n as int),
        CrucibleEffect::RadicalFind(n) => effect_name(e) + seq![':'] + decimal(n as int),
        CrucibleEffect::DodgeChance(n) => effect_name(e) + seq![':'] + decimal(n as int),
        CrucibleEffect::MovementBonus(n) => effect_name(e) + seq![':'] + decimal(n as int),
        CrucibleEffect::HealOnKill(n) => effect_name(e) + seq![':'] + decimal(n as int),
        CrucibleEffect::FocusOnKill(n) => effect_name(e) + seq![':'] + decimal(n as int),
        CrucibleEffect::HardAnswerDamage(n) => effect_name(e) + seq![':'] + decimal(n as int),
        CrucibleEffect::HardAnswerHeal(n) => effect_name(e) + seq![':'] + decimal(n as int),
        CrucibleEffect::DoubleStrike(n) => effect_name(e) + seq![':'] + decimal(n as int),
        CrucibleEffect::ArmorPierce(n) => effect_name(e) + seq![':'] + decimal(n as int),
        CrucibleEffect::EmergencyRepair(n) => effect_name(e) + seq![':'] + decimal(n as int),
        _ => effect_name(e),
    }
}

/// Index of the first `c` in `t`, or -1 when there is none.
pub open spec fn find_char(t: Seq<char>, c: char) -> int
    decreases t.len(),
{
    if t.len() == 0 {
        -1
    } else if t[0] == c {
        0
    } else {
        let r = find_char(t.drop_first(), c);
        if r < 0 {
            -1
        } else {
            r + 1
        }
    }
}

/// A number field of a tag: the trimmed text parsed as an `i32`, or 0.
pub open spec fn number_or_zero(s: Seq<char>) -> i32 {
    match parse_i32_spec(trim_spec(s)) {
        Some(v) => v,
        None => 0,
    }
}

/// The damage and turns of a proc tag; `None` when the values hold no `,`.
pub open spec fn proc_values(vals: Seq<char>) -> Option<(i32, i32)> {
    let c1 = find_char(vals, ',');
    if c1 < 0 {
        None
    } else {
        let rest = vals.skip(c1 + 1);
        let c2 = find_char(rest, ',');
        let second = if c2 < 0 { rest } else { rest.take(c2) };
        Some((number_or_zero(vals.take(c1)), number_or_zero(second)))
    }
}

/// The effect that a name and its value text stand for.
pub open spec fn effect_of_parts(name: Seq<char>, vals: Seq<char>) -> CrucibleEffect {
    if name == "BonusDamage"@ {
        CrucibleEffect::BonusDamage(number_or_zero(vals))
    } else if name == "BonusArmor"@ {
        CrucibleEffect::BonusArmor(number_or_zero(vals))
    } else if name == "MaxHp"@ {
        CrucibleEffect::MaxHp(number_or_zero(vals))
    } else if name == "CritChance"@ {
        CrucibleEffect::CritChance(number_or_zero(vals))
    } else if name == "LifeSteal"@ {
        CrucibleEffect::LifeSteal(number_or_zero(vals))
    } else if name == "SpellPower"@ {
        CrucibleEffect::SpellPower(number_or_zero(vals))
    } else if name == "FocusRegen"@ {
        CrucibleEffect::FocusRegen(number_or_zero(vals))
    } else if name == "GoldFind"@ {
        CrucibleEffect::GoldFind(number_or_zero(vals))
    } else if name == "RadicalFind"@ {
        CrucibleEffect::RadicalFind(number_or_zero(vals))
    } else if name == "DodgeChance"@ {
        CrucibleEffect::DodgeChance(number_or_zero(vals))
    } else if name == "MovementBonus"@ {
        CrucibleEffect::MovementBonus(number_or_zero(vals))
    } else if name == "BurnOnHit"@ {
        match proc_values(vals) {
            Some((d, t)) => CrucibleEffect::BurnOnHit { damage: d, turns: t },
            None => CrucibleEffect::BurnOnHit { damage: 1, turns: 3 },
        }
    } else if name == "PoisonOnHit"@ {
        match proc_values(vals) {
            Some((d, t)) => CrucibleEffect::PoisonOnHit { damage: d, turns: t },
            None => CrucibleEffect::PoisonOnHit { damage: 1, turns: 3 },
        }
    } else if name == "ShieldOnKill"@ {
        CrucibleEffect::ShieldOnKill
    } else if name == "HealOnKill"@ {
        CrucibleEffect::HealOnKill(number_or_zero(vals))
    } else if name == "FocusOnKill"@ {
        CrucibleEffect::FocusOnKill(number_or_zero(vals))
    } else if name == "HardAnswerDamage"@ {
        CrucibleEffect::HardAnswerDamage(number_or_zero(vals))
    } else if name == "HardAnswerHeal"@ {
        CrucibleEffect::HardAnswerHeal(number_or_zero(vals))
    } else if name == "ComboExtender"@ {
        CrucibleEffect::ComboExtender
    } else if name == "DoubleStrike"@ {
        CrucibleEffect::DoubleStrike(number_or_zero(vals))
    } else if name == "ArmorPierce"@ {
        CrucibleEffect::ArmorPierce(number_or_zero(vals))
    } else if name == "OverchargeProc"@ {
        CrucibleEffect::OverchargeProc
    } else if name == "EmergencyRepair"@ {
        CrucibleEffect::EmergencyRepair(number_or_zero(vals))
    } else if name == "KineticAbsorber"@ {
        CrucibleEffect::KineticAbsorber
    } else if name == "NeuralSync"@ {
        CrucibleEffect::NeuralSync
    } else if name == "TemporalFlux"@ {
        CrucibleEffect::TemporalFlux
    } else {
        CrucibleEffect::BonusDamage(0)
    }
}

/// The effect a tag decodes to: the text before the first `:` names the
/// effect, the text after it holds the values.
pub open spec fn effect_of_tag(t: Seq<char>) -> CrucibleEffect {
    let k = find_char(t, ':');
    if k < 0 {
        effect_of_parts(t, Seq::empty())
    } else {
        effect_of_parts(t.take(k), t.skip(k + 1))
    }
}

/// Whether `s` holds neither separator of the tag format.
pub open spec fn no_separator(s: Seq<char>) -> bool {
    forall|j: int| 0 <= j < s.len() ==> #[trigger] s[j] != ':' && s[j] != ','
}

pub(crate) proof fn lemma_find_first(t: Seq<char>, c: char, k: int)
    requires
        0 <= k <= t.len(),
        forall|j: int| 0 <= j < k ==> #[trigger] t[j] != c,
        k < t.len() ==> t[k] == c,
    ensures
        find_char(t, c) == (if k < t.len() { k } else { -1 }),
    decreases k,
{
    if k > 0 {
        lemma_find_first(t.drop_first(), c, k - 1);
    }
}

/// Index of the first `c` in `s`, as `find_char`.
pub(crate) fn find_char_exec(s: &str, c: char) -> (r: Option<usize>)
    ensures
        match r {
            Some(k) => k < s@.len() && find_char(s@, c) == k,
            None => find_char(s@, c) == -1,
        },
{
    let n = s.unicode_len();
    let mut i: usize = 0;
    while i < n
        invariant
            n == s@.len(),
            i <= n,
            forall|j: int| 0 <= j < i ==> #[trigger] s@[j] != c,
        decreases n - i,
    {
        if s.get_char(i) == c {
            proof {
                lemma_find_first(s@, c, i as int);
            }
            return Some(i);
        }
        i += 1;
    }
    proof {
        lemma_find_first(s@, c, n as int);
    }
    None
}

/// A number field: trimmed, parsed, 0 when it does not parse.
fn number_field(s: &str) -> (v: i32)
    ensures
        v == number_or_zero(s@),
{
    let t = trim(s);
    match parse_i32(t) {
        Some(v) => v,
        None => 0,
    }
}

/// The damage and turns of a proc tag's values.
fn proc_fields(vals: &str) -> (r: Option<(i32, i32)>)
    ensures
        r == proc_values(vals@),
{
    match find_char_exec(vals, ',') {
        None => None,
        Some(c1) => {
            let n = vals.unicode_len();
            let first = vals.substring_char(0, c1);
            let rest = vals.substring_char(c1 + 1, n);
            let second = match find_char_exec(rest, ',') {
                None => rest,
                Some(c2) => rest.substring_char(0, c2),
            };
            proof {
                assert(first@ =~= vals@.take(c1 as int));
                assert(rest@ =~= vals@.skip(c1 + 1));
            }
            Some((number_field(first), number_field(second)))
        },
    }
}

/// Index range of the trees that belong to a slot starts here.
pub open spec fn slot_offset(slot: EquipSlot) -> int {
    match slot {
        EquipSlot::Weapon => 0,
        EquipSlot::Armor => 3,
        EquipSlot::Charm => 6,
    }
}

/// Multiplicative hash of a name's bytes, wrapping in 32 bits.
pub open spec fn name_hash(bytes: Seq<u8>) -> u32
    decreases bytes.len(),
{
    if bytes.len() == 0 {
        0
    } else {
        name_hash(bytes.drop_last()).wrapping_mul(31).wrapping_add(bytes.last() as u32)
    }
}

/// Tree index for a piece of equipment: three trees per slot, picked by a
/// hash of the name.
pub fn tree_for_equipment(slot: EquipSlot, name: &str) -> (r: usize)
    ensures
        r == slot_offset(slot) + name_hash(name.spec_bytes()) % 3,
        slot_offset(slot) <= r < slot_offset(slot) + 3,
{
    let offset: u32 = match slot {
        EquipSlot::Weapon => 0,
        EquipSlot::Armor => 3,
        EquipSlot::Charm => 6,
    };
    let bytes = name.as_bytes_vec();
    let mut hash: u32 = 0;
    let mut i: usize = 0;
    while i < bytes.len()
        invariant
            i <= bytes.len(),
            bytes@ == name.spec_bytes(),
            hash == name_hash(bytes@.take(i as int)),
        decreases bytes.len() - i,
    {
        proof {
            assert(bytes@.take(i + 1).drop_last() =~= bytes@.take(i as int));
        }
        hash = hash.wrapping_mul(31).wrapping_add(bytes[i] as u32);
        i += 1;
    }
    proof {
        assert(bytes@.take(i as int) =~= bytes@);
    }
    (offset + (hash % 3)) as usize
}

impl CrucibleEffect {
    /// The short label shown in the tree view.
    pub fn short_label(&self) -> (s: &'static str)
        ensures
            s@ == label_spec(*self),
    {
        match self {
            CrucibleEffect::BonusDamage(_) => "+Dmg",
            CrucibleEffect::BonusArmor(_) => "+Armor",
            CrucibleEffect::MaxHp(_) => "+HP",
            CrucibleEffect::CritChance(_) => "+Crit%",
            CrucibleEffect::LifeSteal(_) => "Drain",
            CrucibleEffect::SpellPower(_) => "+Spell",
            CrucibleEffect::FocusRegen(_) => "+Focus",
            CrucibleEffect::GoldFind(_) => "+Gold",
            CrucibleEffect::RadicalFind(_) => "+Rad",
            CrucibleEffect::DodgeChance(_) => "+Dodge",
            CrucibleEffect::MovementBonus(_) => "+Move",
            CrucibleEffect::BurnOnHit { .. } => "🔥Hit",
            CrucibleEffect::PoisonOnHit { .. } => "☠Hit",
            CrucibleEffect::ShieldOnKill => "🛡Kill",
            CrucibleEffect::HealOnKill(_) => "❤Kill",
            CrucibleEffect::FocusOnKill(_) => "⚡Kill",
            CrucibleEffect::HardAnswerDamage(_) => "📖Dmg",
            CrucibleEffect::HardAnswerHeal(_) => "📖Heal",
            CrucibleEffect::ComboExtender => "Combo+",
            CrucibleEffect::DoubleStrike(_) => "2xHit",
            CrucibleEffect::ArmorPierce(_) => "Pierce",
            CrucibleEffect::OverchargeProc => "Overch",
            CrucibleEffect::EmergencyRepair(_) => "EmRep",
            CrucibleEffect::KineticAbsorber => "Absorb",
            CrucibleEffect::NeuralSync => "SRS+",
            CrucibleEffect::TemporalFlux => "Tempo",
        }
    }

    /// The tag this effect is stored under.
    pub fn effect_to_tag(&self) -> (s: String)
        ensures
            s@ == tag_spec(*self),
    {
        let mut s = String::from_str(self.name());
        match *self {
            CrucibleEffect::BurnOnHit { damage, turns } | CrucibleEffect::PoisonOnHit { damage, turns } => {
                proof {
                    reveal_strlit(":");
                    reveal_strlit(",");
                }
                s.append(":");
                push_int(&mut s, damage as i64);
                s.append(",");
                push_int(&mut s, turns as i64);
            },
            CrucibleEffect::BonusDamage(n) => {
                proof {
                    reveal_strlit(":");
                }
                s.append(":");
                push_int(&mut s, n as i64);
            },
            CrucibleEffect::BonusArmor(n) => {
                proof {
                    reveal_strlit(":");
                }
                s.append(":");
                push_int(&mut s, n as i64);
            },
            CrucibleEffect::MaxHp(n) => {
                proof {
                    reveal_strlit(":");
                }
                s.append(":");
                push_int(&mut s, n as i64);
            },
            CrucibleEffect::CritChance(n) => {
                proof {
                    reveal_strlit(":");
                }
                s.append(":");
                push_int(&mut s, n as i64);
            },
            CrucibleEffect::LifeSteal(n) => {
                proof {
                    reveal_strlit(":");
                }
                s.append(":");
                push_int(&mut s, n as i64);
            },
            CrucibleEffect::SpellPower(n) => {
                proof {
                    reveal_strlit(":");
                }
                s.append(":");
                push_int(&mut s, n as i64);
            },
            CrucibleEffect::FocusRegen(n) => {
                proof {
                    reveal_strlit(":");
                }
                s.append(":");
                push_int(&mut s, n as i64);
            },
            CrucibleEffect::GoldFind(n) => {
                proof {
                    reveal_strlit(":");
                }
                s.append(":");
                push_int(&mut s, n as i64);
            },
            CrucibleEffect::RadicalFind(n) => {
                proof {
                    reveal_strlit(":");
                }
                s.append(":");
                push_int(&mut s, n as i64);
            },
            CrucibleEffect::DodgeChance(n) => {
                proof {
                    reveal_strlit(":");
                }
                s.append(":");
                push_int(&mut s, n as i64);
            },
            CrucibleEffect::MovementBonus(n) => {
                proof {
                    reveal_strlit(":");
                }
                s.append(":");
                push_int(&mut s, n as i64);
            },
            CrucibleEffect::HealOnKill(n) => {
                proof {
                    reveal_strlit(":");
                }
                s.append(":");
                push_int(&mut s, n as i64);
            },
            CrucibleEffect::FocusOnKill(n) => {
                proof {
                    reveal_strlit(":");
                }
                s.append(":");
                push_int(&mut s, n as i64);
            },
            CrucibleEffect::HardAnswerDamage(n) => {
                proof {
                    reveal_strlit(":");
                }
                s.append(":");
                push_int(&mut s, n as i64);
            },
            CrucibleEffect::HardAnswerHeal(n) => {
                proof {
                    reveal_strlit(":");
                }
                s.append(":");
                push_int(&mut s, n as i64);
            },
            CrucibleEffect::DoubleStrike(n) => {
                proof {
                    reveal_strlit(":");
                }
                s.append(":");
                push_int(&mut s, n as i64);
            },
            CrucibleEffect::ArmorPierce(n) => {
                proof {
                    reveal_strlit(":");
                }
                s.append(":");
                push_int(&mut s, n as i64);
            },
            CrucibleEffect::EmergencyRepair(n) => {
                proof {
                    reveal_strlit(":");
                }
                s.append(":");
                push_int(&mut s, n as i64);
            },
            _ => {},
        }
        s
    }

    /// The name an effect is written under in its tag.
    fn name(&self) -> (s: &'static str)
        ensures
            s@ == effect_name(*self),
    {
        match self {
            CrucibleEffect::BonusDamage(_) => "BonusDamage",
            CrucibleEffect::BonusArmor(_) => "BonusArmor",
            CrucibleEffect::MaxHp(_) => "MaxHp",
            CrucibleEffect::CritChance(_) => "CritChance",
            CrucibleEffect::LifeSteal(_) => "LifeSteal",
            CrucibleEffect::SpellPower(_) => "SpellPower",
            CrucibleEffect::FocusRegen(_) => "FocusRegen",
            CrucibleEffect::GoldFind(_) => "GoldFind",
            CrucibleEffect::RadicalFind(_) => "RadicalFind",
            CrucibleEffect::DodgeChance(_) => "DodgeChance",
            CrucibleEffect::MovementBonus(_) => "MovementBonus",
            CrucibleEffect::BurnOnHit { .. } => "BurnOnHit",
            CrucibleEffect::PoisonOnHit { .. } => "PoisonOnHit",
            CrucibleEffect::ShieldOnKill => "ShieldOnKill",
            CrucibleEffect::HealOnKill(_) => "HealOnKill",
            CrucibleEffect::FocusOnKill(_) => "FocusOnKill",
            CrucibleEffect::HardAnswerDamage(_) => "HardAnswerDamage",
            CrucibleEffect::HardAnswerHeal(_) => "HardAnswerHeal",
            CrucibleEffect::ComboExtender => "ComboExtender",
            CrucibleEffect::DoubleStrike(_) => "DoubleStrike",
            CrucibleEffect::ArmorPierce(_) => "ArmorPierce",
            CrucibleEffect::OverchargeProc => "OverchargeProc",
            CrucibleEffect::EmergencyRepair(_) => "EmergencyRepair",
            CrucibleEffect::KineticAbsorber => "KineticAbsorber",
            CrucibleEffect::NeuralSync => "NeuralSync",
            CrucibleEffect::TemporalFlux => "TemporalFlux",
        }
    }

    /// Decodes a tag. An unknown name gives `BonusDamage(0)`, a number field
    /// that does not parse gives 0, and a proc tag without both values gives
    /// 1 damage for 3 turns.
    pub fn effect_from_tag(tag: &str) -> (e: CrucibleEffect)
        ensures
            e == effect_of_tag(tag@),
    {
        let n = tag.unicode_len();
        let (name, vals) = match find_char_exec(tag, ':') {
            Some(pos) => (tag.substring_char(0, pos), tag.substring_char(pos + 1, n)),
            None => (tag, ""),
        };
        proof {
            reveal_strlit("");
        }
        if str_eq(name, "BonusDamage") {
            CrucibleEffect::BonusDamage(number_field(vals))
        } else if str_eq(name, "BonusArmor") {
            CrucibleEffect::BonusArmor(number_field(vals))
        } else if str_eq(name, "MaxHp") {
            CrucibleEffect::MaxHp(number_field(vals))
        } else if str_eq(name, "CritChance") {
            CrucibleEffect::CritChance(number_field(vals))
        } else if str_eq(name, "LifeSteal") {
            CrucibleEffect::LifeSteal(number_field(vals))
        } else if str_eq(name, "SpellPower") {
            CrucibleEffect::SpellPower(number_field(vals))
        } else if str_eq(name, "FocusRegen") {
            CrucibleEffect::FocusRegen(number_field(vals))
        } else if str_eq(name, "GoldFind") {
            CrucibleEffect::GoldFind(number_field(vals))
        } else if str_eq(name, "RadicalFind") {
            CrucibleEffect::RadicalFind(number_field(vals))
        } else if str_eq(name, "DodgeChance") {
            CrucibleEffect::DodgeChance(number_field(vals))
        } else if str_eq(name, "MovementBonus") {
            CrucibleEffect::MovementBonus(number_field(vals))
        } else if str_eq(name, "BurnOnHit") {
            match proc_fields(vals) {
                Some((d, t)) => CrucibleEffect::BurnOnHit { damage: d, turns: t },
                None => CrucibleEffect::BurnOnHit { damage: 1, turns: 3 },
            }
        } else if str_eq(name, "PoisonOnHit") {
            match proc_fields(vals) {
                Some((d, t)) => CrucibleEffect::PoisonOnHit { damage: d, turns: t },
                None => CrucibleEffect::PoisonOnHit { damage: 1, turns: 3 },
            }
        } else if str_eq(name, "ShieldOnKill") {
            CrucibleEffect::ShieldOnKill
        } else if str_eq(name, "HealOnKill") {
            CrucibleEffect::HealOnKill(number_field(vals))
        } else if str_eq(name, "FocusOnKill") {
            CrucibleEffect::FocusOnKill(number_field(vals))
        } else if str_eq(name, "HardAnswerDamage") {
            CrucibleEffect::HardAnswerDamage(number_field(vals))
        } else if str_eq(name, "HardAnswerHeal") {
            CrucibleEffect::HardAnswerHeal(number_field(vals))
        } else if str_eq(name, "ComboExtender") {
            CrucibleEffect::ComboExtender
        } else if str_eq(name, "DoubleStrike") {
            CrucibleEffect::DoubleStrike(number_field(vals))
        } else if str_eq(name, "ArmorPierce") {
            CrucibleEffect::ArmorPierce(number_field(vals))
        } else if str_eq(name, "OverchargeProc") {
            CrucibleEffect::OverchargeProc
        } else if str_eq(name, "EmergencyRepair") {
            CrucibleEffect::EmergencyRepair(number_field(vals))
        } else if str_eq(name, "KineticAbsorber") {
            CrucibleEffect::KineticAbsorber
        } else if str_eq(name, "NeuralSync") {
            CrucibleEffect::NeuralSync
        } else if str_eq(name, "TemporalFlux") {
            CrucibleEffect::TemporalFlux
        } else {
            CrucibleEffect::BonusDamage(0)
        }
    }
}

/// The tag of `e`, as `CrucibleEffect::effect_to_tag`.
pub fn effect_tag(e: &CrucibleEffect) -> (s: String)
    ensures
        s@ == tag_spec(*e),
{
    e.effect_to_tag()
}

/// The effect a tag decodes to, as `CrucibleEffect::effect_from_tag`.
pub fn effect_from_tag(tag: &str) -> (e: CrucibleEffect)
    ensures
        e == effect_of_tag(tag@),
{
    CrucibleEffect::effect_from_tag(tag)
}

proof fn lemma_decimal_plain(n: i32)
    ensures
        no_separator(decimal(n as int)),
{
    let m: nat = if n < 0 { (-n) as nat } else { n as nat };
    lemma_digits_value(m);
    let s = decimal(n as int);
    if n < 0 {
        assert forall|j: int| 0 <= j < s.len() implies #[trigger] s[j] != ':' && s[j] != ',' by {
            if j > 0 {
                assert(s[j] == digits(m)[j - 1]);
            }
        }
    }
}

pub(crate) proof fn lemma_name_plain(e: CrucibleEffect)
    ensures
        no_separator(effect_name(e)),
        forall|j: int| 0 <= j < effect_name(e).len() ==> #[trigger] effect_name(e)[j] != '"' && effect_name(e)[j] != '\\',
{
    match e {
        CrucibleEffect::BonusDamage(_) => {
            reveal_strlit("BonusDamage");
        },
        CrucibleEffect::BonusArmor(_) => {
            reveal_strlit("BonusArmor");
        },
        CrucibleEffect::MaxHp(_) => {
            reveal_strlit("MaxHp");
        },
        CrucibleEffect::CritChance(_) => {
            reveal_strlit("CritChance");
        },
        CrucibleEffect::LifeSteal(_) => {
            reveal_strlit("LifeSteal");
        },
        CrucibleEffect::SpellPower(_) => {
            reveal_strlit("SpellPower");
        },
        CrucibleEffect::FocusRegen(_) => {
            reveal_strlit("FocusRegen");
        },
        CrucibleEffect::GoldFind(_) => {
            reveal_strlit("GoldFind");
        },
        CrucibleEffect::RadicalFind(_) => {
            reveal_strlit("RadicalFind");
        },
        CrucibleEffect::DodgeChance(_) => {
            reveal_strlit("DodgeChance");
        },
        CrucibleEffect::MovementBonus(_) => {
            reveal_strlit("MovementBonus");
        },
        CrucibleEffect::BurnOnHit { .. } => {
            reveal_strlit("BurnOnHit");
        },
        CrucibleEffect::PoisonOnHit { .. } => {
            reveal_strlit("PoisonOnHit");
        },
        CrucibleEffect::ShieldOnKill => {
            reveal_strlit("ShieldOnKill");
        },
        CrucibleEffect::HealOnKill(_) => {
            reveal_strlit("HealOnKill");
        },
        CrucibleEffect::FocusOnKill(_) => {
            reveal_strlit("FocusOnKill");
        },
        CrucibleEffect::HardAnswerDamage(_) => {
            reveal_strlit("HardAnswerDamage");
        },
        CrucibleEffect::HardAnswerHeal(_) => {
            reveal_strlit("HardAnswerHeal");
        },
        CrucibleEffect::ComboExtender => {
            reveal_strlit("ComboExtender");
        },
        CrucibleEffect::DoubleStrike(_) => {
            reveal_strlit("DoubleStrike");
        },
        CrucibleEffect::ArmorPierce(_) => {
            reveal_strlit("ArmorPierce");
        },
        CrucibleEffect::OverchargeProc => {
            reveal_strlit("OverchargeProc");
        },
        CrucibleEffect::EmergencyRepair(_) => {
            reveal_strlit("EmergencyRepair");
        },
        CrucibleEffect::KineticAbsorber => {
            reveal_strlit("KineticAbsorber");
        },
        CrucibleEffect::NeuralSync => {
            reveal_strlit("NeuralSync");
        },
        CrucibleEffect::TemporalFlux => {
            reveal_strlit("TemporalFlux");
        },
    }
}

proof fn lemma_parts_of_name(e: CrucibleEffect, vals: Seq<char>)
    ensures
        effect_of_parts(effect_name(e), vals) == (match e {
            CrucibleEffect::BonusDamage(_) => CrucibleEffect::BonusDamage(number_or_zero(vals)),
            CrucibleEffect::BonusArmor(_) => CrucibleEffect::BonusArmor(number_or_zero(vals)),
            CrucibleEffect::MaxHp(_) => CrucibleEffect::MaxHp(number_or_zero(vals)),
            CrucibleEffect::CritChance(_) => CrucibleEffect::CritChance(number_or_zero(vals)),
            CrucibleEffect::LifeSteal(_) => CrucibleEffect::LifeSteal(number_or_zero(vals)),
            CrucibleEffect::SpellPower(_) => CrucibleEffect::SpellPower(number_or_zero(vals)),
            CrucibleEffect::FocusRegen(_) => CrucibleEffect::FocusRegen(number_or_zero(vals)),
            CrucibleEffect::GoldFind(_) => CrucibleEffect::GoldFind(number_or_zero(vals)),
            CrucibleEffect::RadicalFind(_) => CrucibleEffect::RadicalFind(number_or_zero(vals)),
            CrucibleEffect::DodgeChance(_) => CrucibleEffect::DodgeChance(number_or_zero(vals)),
            CrucibleEffect::MovementBonus(_) => CrucibleEffect::MovementBonus(number_or_zero(vals)),
            CrucibleEffect::BurnOnHit { .. } => match proc_values(vals) {
                Some((d, t)) => CrucibleEffect::BurnOnHit { damage: d, turns: t },
                None => CrucibleEffect::BurnOnHit { damage: 1, turns: 3 },
            },
            CrucibleEffect::PoisonOnHit { .. } => match proc_values(vals) {
                Some((d, t)) => CrucibleEffect::PoisonOnHit { damage: d, turns: t },
                None => CrucibleEffect::PoisonOnHit { damage: 1, turns: 3 },
            },
            CrucibleEffect::ShieldOnKill => CrucibleEffect::ShieldOnKill,
            CrucibleEffect::HealOnKill(_) => CrucibleEffect::HealOnKill(number_or_zero(vals)),
            CrucibleEffect::FocusOnKill(_) => CrucibleEffect::FocusOnKill(number_or_zero(vals)),
            CrucibleEffect::HardAnswerDamage(_) => CrucibleEffect::HardAnswerDamage(number_or_zero(vals)),
            CrucibleEffect::HardAnswerHeal(_) => CrucibleEffect::HardAnswerHeal(number_or_zero(vals)),
            CrucibleEffect::ComboExtender => CrucibleEffect::ComboExtender,
            CrucibleEffect::DoubleStrike(_) => CrucibleEffect::DoubleStrike(number_or_zero(vals)),
            CrucibleEffect::ArmorPierce(_) => CrucibleEffect::ArmorPierce(number_or_zero(vals)),
            CrucibleEffect::OverchargeProc => CrucibleEffect::OverchargeProc,
            CrucibleEffect::EmergencyRepair(_) => CrucibleEffect::EmergencyRepair(number_or_zero(vals)),
            CrucibleEffect::KineticAbsorber => CrucibleEffect::KineticAbsorber,
            CrucibleEffect::NeuralSync => CrucibleEffect::NeuralSync,
            CrucibleEffect::TemporalFlux => CrucibleEffect::TemporalFlux,
        }),
{
    match e {
        CrucibleEffect::BonusDamage(_) => {
            reveal_strlit("BonusDamage");
        },
        CrucibleEffect::BonusArmor(_) => {
            reveal_strlit("BonusArmor");
            reveal_strlit("BonusDamage");
            assert("BonusArmor"@.len() != "BonusDamage"@.len());
        },
        CrucibleEffect::MaxHp(_) => {
            reveal_strlit("MaxHp");
            reveal_strlit("BonusDamage");
            assert("MaxHp"@.len() != "BonusDamage"@.len());
            reveal_strlit("BonusArmor");
            assert("MaxHp"@.len() != "BonusArmor"@.len());
        },
        CrucibleEffect::CritChance(_) => {
            reveal_strlit("CritChance");
            reveal_strlit("BonusDamage");
            assert("CritChance"@.len() != "BonusDamage"@.len());
            reveal_strlit("BonusArmor");
            assert("CritChance"@[0] != "BonusArmor"@[0]);
            reveal_strlit("MaxHp");
            assert("CritChance"@.len() != "MaxHp"@.len());
        },
        CrucibleEffect::LifeSteal(_) => {
            reveal_strlit("LifeSteal");
            reveal_strlit("BonusDamage");
            assert("LifeSteal"@.len() != "BonusDamage"@.len());
            reveal_strlit("BonusArmor");
            assert("LifeSteal"@.len() != "BonusArmor"@.len());
            reveal_strlit("MaxHp");
            assert("LifeSteal"@.len() != "MaxHp"@.len());
            reveal_strlit("CritChance");
            assert("LifeSteal"@.len() != "CritChance"@.len());
        },
        CrucibleEffect::SpellPower(_) => {
            reveal_strlit("SpellPower");
            reveal_strlit("BonusDamage");
            assert("SpellPower"@.len() != "BonusDamage"@.len());
            reveal_strlit("BonusArmor");
            assert("SpellPower"@[0] != "BonusArmor"@[0]);
            reveal_strlit("MaxHp");
            assert("SpellPower"@.len() != "MaxHp"@.len());
            reveal_strlit("CritChance");
            assert("SpellPower"@[0] != "CritChance"@[0]);
            reveal_strlit("LifeSteal");
            assert("SpellPower"@.len() != "LifeSteal"@.len());
        },
        CrucibleEffect::FocusRegen(_) => {
            reveal_strlit("FocusRegen");
            reveal_strlit("BonusDamage");
            assert("FocusRegen"@.len() != "BonusDamage"@.len());
            reveal_strlit("BonusArmor");
            assert("FocusRegen"@[0] != "BonusArmor"@[0]);
            reveal_strlit("MaxHp");
            assert("FocusRegen"@.len() != "MaxHp"@.len());
            reveal_strlit("CritChance");
            assert("FocusRegen"@[0] != "CritChance"@[0]);
            reveal_strlit("LifeSteal");
            assert("FocusRegen"@.len() != "LifeSteal"@.len());
            reveal_strlit("SpellPower");
            assert("FocusRegen"@[0] != "SpellPower"@[0]);
        },
        CrucibleEffect::GoldFind(_) => {
            reveal_strlit("GoldFind");
            reveal_strlit("BonusDamage");
            assert("GoldFind"@.len() != "BonusDamage"@.len());
            reveal_strlit("BonusArmor");
            assert("GoldFind"@.len() != "BonusArmor"@.len());
            reveal_strlit("MaxHp");
            assert("GoldFind"@.len() != "MaxHp"@.len());
            reveal_strlit("CritChance");
            assert("GoldFind"@.len() != "CritChance"@.len());
            reveal_strlit("LifeSteal");
            assert("GoldFind"@.len() != "LifeSteal"@.len());
            reveal_strlit("SpellPower");
            assert("GoldFind"@.len() != "SpellPower"@.len());
            reveal_strlit("FocusRegen");
            assert("GoldFind"@.len() != "FocusRegen"@.len());
        },
        CrucibleEffect::RadicalFind(_) => {
            reveal_strlit("RadicalFind");
            reveal_strlit("BonusDamage");
            assert("RadicalFind"@[0] != "BonusDamage"@[0]);
            reveal_strlit("BonusArmor");
            assert("RadicalFind"@.len() != "BonusArmor"@.len());
            reveal_strlit("MaxHp");
            assert("RadicalFind"@.len() != "MaxHp"@.len());
            reveal_strlit("CritChance");
            assert("RadicalFind"@.len() != "CritChance"@.len());
            reveal_strlit("LifeSteal");
            assert("RadicalFind"@.len() != "LifeSteal"@.len());
            reveal_strlit("SpellPower");
            assert("RadicalFind"@.len() != "SpellPower"@.len());
            reveal_strlit("FocusRegen");
            assert("RadicalFind"@.len() != "FocusRegen"@.len());
            reveal_strlit("GoldFind");
            assert("RadicalFind"@.len() != "GoldFind"@.len());
        },
        CrucibleEffect::DodgeChance(_) => {
            reveal_strlit("DodgeChance");
            reveal_strlit("BonusDamage");
            assert("DodgeChance"@[0] != "BonusDamage"@[0]);
            reveal_strlit("BonusArmor");
            assert("DodgeChance"@.len() != "BonusArmor"@.len());
            reveal_strlit("MaxHp");
            assert("DodgeChance"@.len() != "MaxHp"@.len());
            reveal_strlit("CritChance");
            assert("DodgeChance"@.len() != "CritChance"@.len());
            reveal_strlit("LifeSteal");
            assert("DodgeChance"@.len() != "LifeSteal"@.len());
            reveal_strlit("SpellPower");
            assert("DodgeChance"@.len() != "SpellPower"@.len());
            reveal_strlit("FocusRegen");
            assert("DodgeChance"@.len() != "FocusRegen"@.len());
            reveal_strlit("GoldFind");
            assert("DodgeChance"@.len() != "GoldFind"@.len());
            reveal_strlit("RadicalFind");
            assert("DodgeChance"@[0] != "RadicalFind"@[0]);
        },
        CrucibleEffect::MovementBonus(_) => {
            reveal_strlit("MovementBonus");
            reveal_strlit("BonusDamage");
            assert("MovementBonus"@.len() != "BonusDamage"@.len());
            reveal_strlit("BonusArmor");
            assert("MovementBonus"@.len() != "BonusArmor"@.len());
            reveal_strlit("MaxHp");
            assert("MovementBonus"@.len() != "MaxHp"@.len());
            reveal_strlit("CritChance");
            assert("MovementBonus"@.len() != "CritChance"@.len());
            reveal_strlit("LifeSteal");
            assert("MovementBonus"@.len() != "LifeSteal"@.len());
            reveal_strlit("SpellPower");
            assert("MovementBonus"@.len() != "SpellPower"@.len());
            reveal_strlit("FocusRegen");
            assert("MovementBonus"@.len() != "FocusRegen"@.len());
            reveal_strlit("GoldFind");
            assert("MovementBonus"@.len() != "GoldFind"@.len());
            reveal_strlit("RadicalFind");
            assert("MovementBonus"@.len() != "RadicalFind"@.len());
            reveal_strlit("DodgeChance");
            assert("MovementBonus"@.len() != "DodgeChance"@.len());
        },
        CrucibleEffect::BurnOnHit { .. } => {
            reveal_strlit("BurnOnHit");
            reveal_strlit("BonusDamage");
            assert("BurnOnHit"@.len() != "BonusDamage"@.len());
            reveal_strlit("BonusArmor");
            assert("BurnOnHit"@.len() != "BonusArmor"@.len());
            reveal_strlit("MaxHp");
            assert("BurnOnHit"@.len() != "MaxHp"@.len());
            reveal_strlit("CritChance");
            assert("BurnOnHit"@.len() != "CritChance"@.len());
            reveal_strlit("LifeSteal");
            assert("BurnOnHit"@[0] != "LifeSteal"@[0]);
            reveal_strlit("SpellPower");
            assert("BurnOnHit"@.len() != "SpellPower"@.len());
            reveal_strlit("FocusRegen");
            assert("BurnOnHit"@.len() != "FocusRegen"@.len());
            reveal_strlit("GoldFind");
            assert("BurnOnHit"@.len() != "GoldFind"@.len());
            reveal_strlit("RadicalFind");
            assert("BurnOnHit"@.len() != "RadicalFind"@.len());
            reveal_strlit("DodgeChance");
            assert("BurnOnHit"@.len() != "DodgeChance"@.len());
            reveal_strlit("MovementBonus");
            assert("BurnOnHit"@.len() != "MovementBonus"@.len());
        },
        CrucibleEffect::PoisonOnHit { .. } => {
            reveal_strlit("PoisonOnHit");
            reveal_strlit("BonusDamage");
            assert("PoisonOnHit"@[0] != "BonusDamage"@[0]);
            reveal_strlit("BonusArmor");
            assert("PoisonOnHit"@.len() != "BonusArmor"@.len());
            reveal_strlit("MaxHp");
            assert("PoisonOnHit"@.len() != "MaxHp"@.len());
            reveal_strlit("CritChance");
            assert("PoisonOnHit"@.len() != "CritChance"@.len());
            reveal_strlit("LifeSteal");
            assert("PoisonOnHit"@.len() != "LifeSteal"@.len());
            reveal_strlit("SpellPower");
            assert("PoisonOnHit"@.len() != "SpellPower"@.len());
            reveal_strlit("FocusRegen");
            assert("PoisonOnHit"@.len() != "FocusRegen"@.len());
            reveal_strlit("GoldFind");
            assert("PoisonOnHit"@.len() != "GoldFind"@.len());
            reveal_strlit("RadicalFind");
            assert("PoisonOnHit"@[0] != "RadicalFind"@[0]);
            reveal_strlit("DodgeChance");
            assert("PoisonOnHit"@[0] != "DodgeChance"@[0]);
            reveal_strlit("MovementBonus");
            assert("PoisonOnHit"@.len() != "MovementBonus"@.len());
            reveal_strlit("BurnOnHit");
            assert("PoisonOnHit"@.len() != "BurnOnHit"@.len());
        },
        CrucibleEffect::ShieldOnKill => {
            reveal_strlit("ShieldOnKill");
            reveal_strlit("BonusDamage");
            assert("ShieldOnKill"@.len() != "BonusDamage"@.len());
            reveal_strlit("BonusArmor");
            assert("ShieldOnKill"@.len() != "BonusArmor"@.len());
            reveal_strlit("MaxHp");
            assert("ShieldOnKill"@.len() != "MaxHp"@.len());
            reveal_strlit("CritChance");
            assert("ShieldOnKill"@.len() != "CritChance"@.len());
            reveal_strlit("LifeSteal");
            assert("ShieldOnKill"@.len() != "LifeSteal"@.len());
            reveal_strlit("SpellPower");
            assert("ShieldOnKill"@.len() != "SpellPower"@.len());
            reveal_strlit("FocusRegen");
            assert("ShieldOnKill"@.len() != "FocusRegen"@.len());
            reveal_strlit("GoldFind");
            assert("ShieldOnKill"@.len() != "GoldFind"@.len());
            reveal_strlit("RadicalFind");
            assert("ShieldOnKill"@.len() != "RadicalFind"@.len());
            reveal_strlit("DodgeChance");
            assert("ShieldOnKill"@.len() != "DodgeChance"@.len());
            reveal_strlit("MovementBonus");
            assert("ShieldOnKill"@.len() != "MovementBonus"@.len());
            reveal_strlit("BurnOnHit");
            assert("ShieldOnKill"@.len() != "BurnOnHit"@.len());
            reveal_strlit("PoisonOnHit");
            assert("ShieldOnKill"@.len() != "PoisonOnHit"@.len());
        },
        CrucibleEffect::HealOnKill(_) => {
            reveal_strlit("HealOnKill");
            reveal_strlit("BonusDamage");
            assert("HealOnKill"@.len() != "BonusDamage"@.len());
            reveal_strlit("BonusArmor");
            assert("HealOnKill"@[0] != "BonusArmor"@[0]);
            reveal_strlit("MaxHp");
            assert("HealOnKill"@.len() != "MaxHp"@.len());
            reveal_strlit("CritChance");
            assert("HealOnKill"@[0] != "CritChance"@[0]);
            reveal_strlit("LifeSteal");
            assert("HealOnKill"@.len() != "LifeSteal"@.len());
            reveal_strlit("SpellPower");
            assert("HealOnKill"@[0] != "SpellPower"@[0]);
            reveal_strlit("FocusRegen");
            assert("HealOnKill"@[0] != "FocusRegen"@[0]);
            reveal_strlit("GoldFind");
            assert("HealOnKill"@.len() != "GoldFind"@.len());
            reveal_strlit("RadicalFind");
            assert("HealOnKill"@.len() != "RadicalFind"@.len());
            reveal_strlit("DodgeChance");
            assert("HealOnKill"@.len() != "DodgeChance"@.len());
            reveal_strlit("MovementBonus");
            assert("HealOnKill"@.len() != "MovementBonus"@.len());
            reveal_strlit("BurnOnHit");
            assert("HealOnKill"@.len() != "BurnOnHit"@.len());
            reveal_strlit("PoisonOnHit");
            assert("HealOnKill"@.len() != "PoisonOnHit"@.len());
            reveal_strlit("ShieldOnKill");
            assert("HealOnKill"@.len() != "ShieldOnKill"@.len());
        },
        CrucibleEffect::FocusOnKill(_) => {
            reveal_strlit("FocusOnKill");
            reveal_strlit("BonusDamage");
            assert("FocusOnKill"@[0] != "BonusDamage"@[0]);
            reveal_strlit("BonusArmor");
            assert("FocusOnKill"@.len() != "BonusArmor"@.len());
            reveal_strlit("MaxHp");
            assert("FocusOnKill"@.len() != "MaxHp"@.len());
            reveal_strlit("CritChance");
            assert("FocusOnKill"@.len() != "CritChance"@.len());
            reveal_strlit("LifeSteal");
            assert("FocusOnKill"@.len() != "LifeSteal"@.len());
            reveal_strlit("SpellPower");
            assert("FocusOnKill"@.len() != "SpellPower"@.len());
            reveal_strlit("FocusRegen");
            assert("FocusOnKill"@.len() != "FocusRegen"@.len());
            reveal_strlit("GoldFind");
            assert("FocusOnKill"@.len() != "GoldFind"@.len());
            reveal_strlit("RadicalFind");
            assert("FocusOnKill"@[0] != "RadicalFind"@[0]);
            reveal_strlit("DodgeChance");
            assert("FocusOnKill"@[0] != "DodgeChance"@[0]);
            reveal_strlit("MovementBonus");
            assert("FocusOnKill"@.len() != "MovementBonus"@.len());
            reveal_strlit("BurnOnHit");
            assert("FocusOnKill"@.len() != "BurnOnHit"@.len());
            reveal_strlit("PoisonOnHit");
            assert("FocusOnKill"@[0] != "PoisonOnHit"@[0]);
            reveal_strlit("ShieldOnKill");
            assert("FocusOnKill"@.len() != "ShieldOnKill"@.len());
            reveal_strlit("HealOnKill");
            assert("FocusOnKill"@.len() != "HealOnKill"@.len());
        },
        CrucibleEffect::HardAnswerDamage(_) => {
            reveal_strlit("HardAnswerDamage");
            reveal_strlit("BonusDamage");
            assert("HardAnswerDamage"@.len() != "BonusDamage"@.len());
            reveal_strlit("BonusArmor");
            assert("HardAnswerDamage"@.len() != "BonusArmor"@.len());
            reveal_strlit("MaxHp");
            assert("HardAnswerDamage"@.len() != "MaxHp"@.len());
            reveal_strlit("CritChance");
            assert("HardAnswerDamage"@.len() != "CritChance"@.len());
            reveal_strlit("LifeSteal");
            assert("HardAnswerDamage"@.len() != "LifeSteal"@.len());
            reveal_strlit("SpellPower");
            assert("HardAnswerDamage"@.len() != "SpellPower"@.len());
            reveal_strlit("FocusRegen");
            assert("HardAnswerDamage"@.len() != "FocusRegen"@.len());
            reveal_strlit("GoldFind");
            assert("HardAnswerDamage"@.len() != "GoldFind"@.len());
            reveal_strlit("RadicalFind");
            assert("HardAnswerDamage"@.len() != "RadicalFind"@.len());
            reveal_strlit("DodgeChance");
            assert("HardAnswerDamage"@.len() != "DodgeChance"@.len());
            reveal_strlit("MovementBonus");
            assert("HardAnswerDamage"@.len() != "MovementBonus"@.len());
            reveal_strlit("BurnOnHit");
            assert("HardAnswerDamage"@.len() != "BurnOnHit"@.len());
            reveal_strlit("PoisonOnHit");
            assert("HardAnswerDamage"@.len() != "PoisonOnHit"@.len());
            reveal_strlit("ShieldOnKill");
            assert("HardAnswerDamage"@.len() != "ShieldOnKill"@.len());
            reveal_strlit("HealOnKill");
            assert("HardAnswerDamage"@.len() != "HealOnKill"@.len());
            reveal_strlit("FocusOnKill");
            assert("HardAnswerDamage"@.len() != "FocusOnKill"@.len());
        },
        CrucibleEffect::HardAnswerHeal(_) => {
            reveal_strlit("HardAnswerHeal");
            reveal_strlit("BonusDamage");
            assert("HardAnswerHeal"@.len() != "BonusDamage"@.len());
            reveal_strlit("BonusArmor");
            assert("HardAnswerHeal"@.len() != "BonusArmor"@.len());
            reveal_strlit("MaxHp");
            assert("HardAnswerHeal"@.len() != "MaxHp"@.len());
            reveal_strlit("CritChance");
            assert("HardAnswerHeal"@.len() != "CritChance"@.len());
            reveal_strlit("LifeSteal");
            assert("HardAnswerHeal"@.len() != "LifeSteal"@.len());
            reveal_strlit("SpellPower");
            assert("HardAnswerHeal"@.len() != "SpellPower"@.len());
            reveal_strlit("FocusRegen");
            assert("HardAnswerHeal"@.len() != "FocusRegen"@.len());
            reveal_strlit("GoldFind");
            assert("HardAnswerHeal"@.len() != "GoldFind"@.len());
            reveal_strlit("RadicalFind");
            assert("HardAnswerHeal"@.len() != "RadicalFind"@.len());
            reveal_strlit("DodgeChance");
            assert("HardAnswerHeal"@.len() != "DodgeChance"@.len());
            reveal_strlit("MovementBonus");
            assert("HardAnswerHeal"@.len() != "MovementBonus"@.len());
            reveal_strlit("BurnOnHit");
            assert("HardAnswerHeal"@.len() != "BurnOnHit"@.len());
            reveal_strlit("PoisonOnHit");
            assert("HardAnswerHeal"@.len() != "PoisonOnHit"@.len());
            reveal_strlit("ShieldOnKill");
            assert("HardAnswerHeal"@.len() != "ShieldOnKill"@.len());
            reveal_strlit("HealOnKill");
            assert("HardAnswerHeal"@.len() != "HealOnKill"@.len());
            reveal_strlit("FocusOnKill");
            assert("HardAnswerHeal"@.len() != "FocusOnKill"@.len());
            reveal_strlit("HardAnswerDamage");
            assert("HardAnswerHeal"@.len() != "HardAnswerDamage"@.len());
        },
        CrucibleEffect::ComboExtender => {
            reveal_strlit("ComboExtender");
            reveal_strlit("BonusDamage");
            assert("ComboExtender"@.len() != "BonusDamage"@.len());
            reveal_strlit("BonusArmor");
            assert("ComboExtender"@.len() != "BonusArmor"@.len());
            reveal_strlit("MaxHp");
            assert("ComboExtender"@.len() != "MaxHp"@.len());
            reveal_strlit("CritChance");
            assert("ComboExtender"@.len() != "CritChance"@.len());
            reveal_strlit("LifeSteal");
            assert("ComboExtender"@.len() != "LifeSteal"@.len());
            reveal_strlit("SpellPower");
            assert("ComboExtender"@.len() != "SpellPower"@.len());
            reveal_strlit("FocusRegen");
            assert("ComboExtender"@.len() != "FocusRegen"@.len());
            reveal_strlit("GoldFind");
            assert("ComboExtender"@.len() != "GoldFind"@.len());
            reveal_strlit("RadicalFind");
            assert("ComboExtender"@.len() != "RadicalFind"@.len());
            reveal_strlit("DodgeChance");
            assert("ComboExtender"@.len() != "DodgeChance"@.len());
            reveal_strlit("MovementBonus");
            assert("ComboExtender"@[0] != "MovementBonus"@[0]);
            reveal_strlit("BurnOnHit");
            assert("ComboExtender"@.len() != "BurnOnHit"@.len());
            reveal_strlit("PoisonOnHit");
            assert("ComboExtender"@.len() != "PoisonOnHit"@.len());
            reveal_strlit("ShieldOnKill");
            assert("ComboExtender"@.len() != "ShieldOnKill"@.len());
            reveal_strlit("HealOnKill");
            assert("ComboExtender"@.len() != "HealOnKill"@.len());
            reveal_strlit("FocusOnKill");
            assert("ComboExtender"@.len() != "FocusOnKill"@.len());
            reveal_strlit("HardAnswerDamage");
            assert("ComboExtender"@.len() != "HardAnswerDamage"@.len());
            reveal_strlit("HardAnswerHeal");
            assert("ComboExtender"@.len() != "HardAnswerHeal"@.len());
        },
        CrucibleEffect::DoubleStrike(_) => {
            reveal_strlit("DoubleStrike");
            reveal_strlit("BonusDamage");
            assert("DoubleStrike"@.len() != "BonusDamage"@.len());
            reveal_strlit("BonusArmor");
            assert("DoubleStrike"@.len() != "BonusArmor"@.len());
            reveal_strlit("MaxHp");
            assert("DoubleStrike"@.len() != "MaxHp"@.len());
            reveal_strlit("CritChance");
            assert("DoubleStrike"@.len() != "CritChance"@.len());
            reveal_strlit("LifeSteal");
            assert("DoubleStrike"@.len() != "LifeSteal"@.len());
            reveal_strlit("SpellPower");
            assert("DoubleStrike"@.len() != "SpellPower"@.len());
            reveal_strlit("FocusRegen");
            assert("DoubleStrike"@.len() != "FocusRegen"@.len());
            reveal_strlit("GoldFind");
            assert("DoubleStrike"@.len() != "GoldFind"@.len());
            reveal_strlit("RadicalFind");
            assert("DoubleStrike"@.len() != "RadicalFind"@.len());
            reveal_strlit("DodgeChance");
            assert("DoubleStrike"@.len() != "DodgeChance"@.len());
            reveal_strlit("MovementBonus");
            assert("DoubleStrike"@.len() != "MovementBonus"@.len());
            reveal_strlit("BurnOnHit");
            assert("DoubleStrike"@.len() != "BurnOnHit"@.len());
            reveal_strlit("PoisonOnHit");
            assert("DoubleStrike"@.len() != "PoisonOnHit"@.len());
            reveal_strlit("ShieldOnKill");
            assert("DoubleStrike"@[0] != "ShieldOnKill"@[0]);
            reveal_strlit("HealOnKill");
            assert("DoubleStrike"@.len() != "HealOnKill"@.len());
            reveal_strlit("FocusOnKill");
            assert("DoubleStrike"@.len() != "FocusOnKill"@.len());
            reveal_strlit("HardAnswerDamage");
            assert("DoubleStrike"@.len() != "HardAnswerDamage"@.len());
            reveal_strlit("HardAnswerHeal");
            assert("DoubleStrike"@.len() != "HardAnswerHeal"@.len());
            reveal_strlit("ComboExtender");
            assert("DoubleStrike"@.len() != "ComboExtender"@.len());
        },
        CrucibleEffect::ArmorPierce(_) => {
            reveal_strlit("ArmorPierce");
            reveal_strlit("BonusDamage");
            assert("ArmorPierce"@[0] != "BonusDamage"@[0]);
            reveal_strlit("BonusArmor");
            assert("ArmorPierce"@.len() != "BonusArmor"@.len());
            reveal_strlit("MaxHp");
            assert("ArmorPierce"@.len() != "MaxHp"@.len());
            reveal_strlit("CritChance");
            assert("ArmorPierce"@.len() != "CritChance"@.len());
            reveal_strlit("LifeSteal");
            assert("ArmorPierce"@.len() != "LifeSteal"@.len());
            reveal_strlit("SpellPower");
            assert("ArmorPierce"@.len() != "SpellPower"@.len());
            reveal_strlit("FocusRegen");
            assert("ArmorPierce"@.len() != "FocusRegen"@.len());
            reveal_strlit("GoldFind");
            assert("ArmorPierce"@.len() != "GoldFind"@.len());
            reveal_strlit("RadicalFind");
            assert("ArmorPierce"@[0] != "RadicalFind"@[0]);
            reveal_strlit("DodgeChance");
            assert("ArmorPierce"@[0] != "DodgeChance"@[0]);
            reveal_strlit("MovementBonus");
            assert("ArmorPierce"@.len() != "MovementBonus"@.len());
            reveal_strlit("BurnOnHit");
            assert("ArmorPierce"@.len() != "BurnOnHit"@.len());
            reveal_strlit("PoisonOnHit");
            assert("ArmorPierce"@[0] != "PoisonOnHit"@[0]);
            reveal_strlit("ShieldOnKill");
            assert("ArmorPierce"@.len() != "ShieldOnKill"@.len());
            reveal_strlit("HealOnKill");
            assert("ArmorPierce"@.len() != "HealOnKill"@.len());
            reveal_strlit("FocusOnKill");
            assert("ArmorPierce"@[0] != "FocusOnKill"@[0]);
            reveal_strlit("HardAnswerDamage");
            assert("ArmorPierce"@.len() != "HardAnswerDamage"@.len());
            reveal_strlit("HardAnswerHeal");
            assert("ArmorPierce"@.len() != "HardAnswerHeal"@.len());
            reveal_strlit("ComboExtender");
            assert("ArmorPierce"@.len() != "ComboExtender"@.len());
            reveal_strlit("DoubleStrike");
            assert("ArmorPierce"@.len() != "DoubleStrike"@.len());
        },
        CrucibleEffect::OverchargeProc => {
            reveal_strlit("OverchargeProc");
            reveal_strlit("BonusDamage");
            assert("OverchargeProc"@.len() != "BonusDamage"@.len());
            reveal_strlit("BonusArmor");
            assert("OverchargeProc"@.len() != "BonusArmor"@.len());
            reveal_strlit("MaxHp");
            assert("OverchargeProc"@.len() != "MaxHp"@.len());
            reveal_strlit("CritChance");
            assert("OverchargeProc"@.len() != "CritChance"@.len());
            reveal_strlit("LifeSteal");
            assert("OverchargeProc"@.len() != "LifeSteal"@.len());
            reveal_strlit("SpellPower");
            assert("OverchargeProc"@.len() != "SpellPower"@.len());
            reveal_strlit("FocusRegen");
            assert("OverchargeProc"@.len() != "FocusRegen"@.len());
            reveal_strlit("GoldFind");
            assert("OverchargeProc"@.len() != "GoldFind"@.len());
            reveal_strlit("RadicalFind");
            assert("OverchargeProc"@.len() != "RadicalFind"@.len());
            reveal_strlit("DodgeChance");
            assert("OverchargeProc"@.len() != "DodgeChance"@.len());
            reveal_strlit("MovementBonus");
            assert("OverchargeProc"@.len() != "MovementBonus"@.len());
            reveal_strlit("BurnOnHit");
            assert("OverchargeProc"@.len() != "BurnOnHit"@.len());
            reveal_strlit("PoisonOnHit");
            assert("OverchargeProc"@.len() != "PoisonOnHit"@.len());
            reveal_strlit("ShieldOnKill");
            assert("OverchargeProc"@.len() != "ShieldOnKill"@.len());
            reveal_strlit("HealOnKill");
            assert("OverchargeProc"@.len() != "HealOnKill"@.len());
            reveal_strlit("FocusOnKill");
            assert("OverchargeProc"@.len() != "FocusOnKill"@.len());
            reveal_strlit("HardAnswerDamage");
            assert("OverchargeProc"@.len() != "HardAnswerDamage"@.len());
            reveal_strlit("HardAnswerHeal");
            assert("OverchargeProc"@[0] != "HardAnswerHeal"@[0]);
            reveal_strlit("ComboExtender");
            assert("OverchargeProc"@.len() != "ComboExtender"@.len());
            reveal_strlit("DoubleStrike");
            assert("OverchargeProc"@.len() != "DoubleStrike"@.len());
            reveal_strlit("ArmorPierce");
            assert("OverchargeProc"@.len() != "ArmorPierce"@.len());
        },
        CrucibleEffect::EmergencyRepair(_) => {
            reveal_strlit("EmergencyRepair");
            reveal_strlit("BonusDamage");
            assert("EmergencyRepair"@.len() != "BonusDamage"@.len());
            reveal_strlit("BonusArmor");
            assert("EmergencyRepair"@.len() != "BonusArmor"@.len());
            reveal_strlit("MaxHp");
            assert("EmergencyRepair"@.len() != "MaxHp"@.len());
            reveal_strlit("CritChance");
            assert("EmergencyRepair"@.len() != "CritChance"@.len());
            reveal_strlit("LifeSteal");
            assert("EmergencyRepair"@.len() != "LifeSteal"@.len());
            reveal_strlit("SpellPower");
            assert("EmergencyRepair"@.len() != "SpellPower"@.len());
            reveal_strlit("FocusRegen");
            assert("EmergencyRepair"@.len() != "FocusRegen"@.len());
            reveal_strlit("GoldFind");
            assert("EmergencyRepair"@.len() != "GoldFind"@.len());
            reveal_strlit("RadicalFind");
            assert("EmergencyRepair"@.len() != "RadicalFind"@.len());
            reveal_strlit("DodgeChance");
            assert("EmergencyRepair"@.len() != "DodgeChance"@.len());
            reveal_strlit("MovementBonus");
            assert("EmergencyRepair"@.len() != "MovementBonus"@.len());
            reveal_strlit("BurnOnHit");
            assert("EmergencyRepair"@.len() != "BurnOnHit"@.len());
            reveal_strlit("PoisonOnHit");
            assert("EmergencyRepair"@.len() != "PoisonOnHit"@.len());
            reveal_strlit("ShieldOnKill");
            assert("EmergencyRepair"@.len() != "ShieldOnKill"@.len());
            reveal_strlit("HealOnKill");
            assert("EmergencyRepair"@.len() != "HealOnKill"@.len());
            reveal_strlit("FocusOnKill");
            assert("EmergencyRepair"@.len() != "FocusOnKill"@.len());
            reveal_strlit("HardAnswerDamage");
            assert("EmergencyRepair"@.len() != "HardAnswerDamage"@.len());
            reveal_strlit("HardAnswerHeal");
            assert("EmergencyRepair"@.len() != "HardAnswerHeal"@.len());
            reveal_strlit("ComboExtender");
            assert("EmergencyRepair"@.len() != "ComboExtender"@.len());
            reveal_strlit("DoubleStrike");
            assert("EmergencyRepair"@.len() != "DoubleStrike"@.len());
            reveal_strlit("ArmorPierce");
            assert("EmergencyRepair"@.len() != "ArmorPierce"@.len());
            reveal_strlit("OverchargeProc");
            assert("EmergencyRepair"@.len() != "OverchargeProc"@.len());
        },
        CrucibleEffect::KineticAbsorber => {
            reveal_strlit("KineticAbsorber");
            reveal_strlit("BonusDamage");
            assert("KineticAbsorber"@.len() != "BonusDamage"@.len());
            reveal_strlit("BonusArmor");
            assert("KineticAbsorber"@.len() != "BonusArmor"@.len());
            reveal_strlit("MaxHp");
            assert("KineticAbsorber"@.len() != "MaxHp"@.len());
            reveal_strlit("CritChance");
            assert("KineticAbsorber"@.len() != "CritChance"@.len());
            reveal_strlit("LifeSteal");
            assert("KineticAbsorber"@.len() != "LifeSteal"@.len());
            reveal_strlit("SpellPower");
            assert("KineticAbsorber"@.len() != "SpellPower"@.len());
            reveal_strlit("FocusRegen");
            assert("KineticAbsorber"@.len() != "FocusRegen"@.len());
            reveal_strlit("GoldFind");
            assert("KineticAbsorber"@.len() != "GoldFind"@.len());
            reveal_strlit("RadicalFind");
            assert("KineticAbsorber"@.len() != "RadicalFind"@.len());
            reveal_strlit("DodgeChance");
            assert("KineticAbsorber"@.len() != "DodgeChance"@.len());
            reveal_strlit("MovementBonus");
            assert("KineticAbsorber"@.len() != "MovementBonus"@.len());
            reveal_strlit("BurnOnHit");
            assert("KineticAbsorber"@.len() != "BurnOnHit"@.len());
            reveal_strlit("PoisonOnHit");
            assert("KineticAbsorber"@.len() != "PoisonOnHit"@.len());
            reveal_strlit("ShieldOnKill");
            assert("KineticAbsorber"@.len() != "ShieldOnKill"@.len());
            reveal_strlit("HealOnKill");
            assert("KineticAbsorber"@.len() != "HealOnKill"@.len());
            reveal_strlit("FocusOnKill");
            assert("KineticAbsorber"@.len() != "FocusOnKill"@.len());
            reveal_strlit("HardAnswerDamage");
            assert("KineticAbsorber"@.len() != "HardAnswerDamage"@.len());
            reveal_strlit("HardAnswerHeal");
            assert("KineticAbsorber"@.len() != "HardAnswerHeal"@.len());
            reveal_strlit("ComboExtender");
            assert("KineticAbsorber"@.len() != "ComboExtender"@.len());
            reveal_strlit("DoubleStrike");
            assert("KineticAbsorber"@.len() != "DoubleStrike"@.len());
            reveal_strlit("ArmorPierce");
            assert("KineticAbsorber"@.len() != "ArmorPierce"@.len());
            reveal_strlit("OverchargeProc");
            assert("KineticAbsorber"@.len() != "OverchargeProc"@.len());
            reveal_strlit("EmergencyRepair");
            assert("KineticAbsorber"@[0] != "EmergencyRepair"@[0]);
        },
        CrucibleEffect::NeuralSync => {
            reveal_strlit("NeuralSync");
            reveal_strlit("BonusDamage");
            assert("NeuralSync"@.len() != "BonusDamage"@.len());
            reveal_strlit("BonusArmor");
            assert("NeuralSync"@[0] != "BonusArmor"@[0]);
            reveal_strlit("MaxHp");
            assert("NeuralSync"@.len() != "MaxHp"@.len());
            reveal_strlit("CritChance");
            assert("NeuralSync"@[0] != "CritChance"@[0]);
            reveal_strlit("LifeSteal");
            assert("NeuralSync"@.len() != "LifeSteal"@.len());
            reveal_strlit("SpellPower");
            assert("NeuralSync"@[0] != "SpellPower"@[0]);
            reveal_strlit("FocusRegen");
            assert("NeuralSync"@[0] != "FocusRegen"@[0]);
            reveal_strlit("GoldFind");
            assert("NeuralSync"@.len() != "GoldFind"@.len());
            reveal_strlit("RadicalFind");
            assert("NeuralSync"@.len() != "RadicalFind"@.len());
            reveal_strlit("DodgeChance");
            assert("NeuralSync"@.len() != "DodgeChance"@.len());
            reveal_strlit("MovementBonus");
            assert("NeuralSync"@.len() != "MovementBonus"@.len());
            reveal_strlit("BurnOnHit");
            assert("NeuralSync"@.len() != "BurnOnHit"@.len());
            reveal_strlit("PoisonOnHit");
            assert("NeuralSync"@.len() != "PoisonOnHit"@.len());
            reveal_strlit("ShieldOnKill");
            assert("NeuralSync"@.len() != "ShieldOnKill"@.len());
            reveal_strlit("HealOnKill");
            assert("NeuralSync"@[0] != "HealOnKill"@[0]);
            reveal_strlit("FocusOnKill");
            assert("NeuralSync"@.len() != "FocusOnKill"@.len());
            reveal_strlit("HardAnswerDamage");
            assert("NeuralSync"@.len() != "HardAnswerDamage"@.len());
            reveal_strlit("HardAnswerHeal");
            assert("NeuralSync"@.len() != "HardAnswerHeal"@.len());
            reveal_strlit("ComboExtender");
            assert("NeuralSync"@.len() != "ComboExtender"@.len());
            reveal_strlit("DoubleStrike");
            assert("NeuralSync"@.len() != "DoubleStrike"@.len());
            reveal_strlit("ArmorPierce");
            assert("NeuralSync"@.len() != "ArmorPierce"@.len());
            reveal_strlit("OverchargeProc");
            assert("NeuralSync"@.len() != "OverchargeProc"@.len());
            reveal_strlit("EmergencyRepair");
            assert("NeuralSync"@.len() != "EmergencyRepair"@.len());
            reveal_strlit("KineticAbsorber");
            assert("NeuralSync"@.len() != "KineticAbsorber"@.len());
        },
        CrucibleEffect::TemporalFlux => {
            reveal_strlit("TemporalFlux");
            reveal_strlit("BonusDamage");
            assert("TemporalFlux"@.len() != "BonusDamage"@.len());
            reveal_strlit("BonusArmor");
            assert("TemporalFlux"@.len() != "BonusArmor"@.len());
            reveal_strlit("MaxHp");
            assert("TemporalFlux"@.len() != "MaxHp"@.len());
            reveal_strlit("CritChance");
            assert("TemporalFlux"@.len() != "CritChance"@.len());
            reveal_strlit("LifeSteal");
            assert("TemporalFlux"@.len() != "LifeSteal"@.len());
            reveal_strlit("SpellPower");
            assert("TemporalFlux"@.len() != "SpellPower"@.len());
            reveal_strlit("FocusRegen");
            assert("TemporalFlux"@.len() != "FocusRegen"@.len());
            reveal_strlit("GoldFind");
            assert("TemporalFlux"@.len() != "GoldFind"@.len());
            reveal_strlit("RadicalFind");
            assert("TemporalFlux"@.len() != "RadicalFind"@.len());
            reveal_strlit("DodgeChance");
            assert("TemporalFlux"@.len() != "DodgeChance"@.len());
            reveal_strlit("MovementBonus");
            assert("TemporalFlux"@.len() != "MovementBonus"@.len());
            reveal_strlit("BurnOnHit");
            assert("TemporalFlux"@.len() != "BurnOnHit"@.len());
            reveal_strlit("PoisonOnHit");
            assert("TemporalFlux"@.len() != "PoisonOnHit"@.len());
            reveal_strlit("ShieldOnKill");
            assert("TemporalFlux"@[0] != "ShieldOnKill"@[0]);
            reveal_strlit("HealOnKill");
            assert("TemporalFlux"@.len() != "HealOnKill"@.len());
            reveal_strlit("FocusOnKill");
            assert("TemporalFlux"@.len() != "FocusOnKill"@.len());
            reveal_strlit("HardAnswerDamage");
            assert("TemporalFlux"@.len() != "HardAnswerDamage"@.len());
            reveal_strlit("HardAnswerHeal");
            assert("TemporalFlux"@.len() != "HardAnswerHeal"@.len());
            reveal_strlit("ComboExtender");
            assert("TemporalFlux"@.len() != "ComboExtender"@.len());
            reveal_strlit("DoubleStrike");
            assert("TemporalFlux"@[0] != "DoubleStrike"@[0]);
            reveal_strlit("ArmorPierce");
            assert("TemporalFlux"@.len() != "ArmorPierce"@.len());
            reveal_strlit("OverchargeProc");
            assert("TemporalFlux"@.len() != "OverchargeProc"@.len());
            reveal_strlit("EmergencyRepair");
            assert("TemporalFlux"@.len() != "EmergencyRepair"@.len());
            reveal_strlit("KineticAbsorber");
            assert("TemporalFlux"@.len() != "KineticAbsorber"@.len());
            reveal_strlit("NeuralSync");
            assert("TemporalFlux"@.len() != "NeuralSync"@.len());
        },
    }
}

/// Decoding the tag of any effect gives back that effect.
pub proof fn lemma_tag_round_trip(e: CrucibleEffect)
    ensures
        effect_of_tag(tag_spec(e)) == e,
{
    let name = effect_name(e);
    let t = tag_spec(e);
    lemma_name_plain(e);
    lemma_parts_of_name(e, t.skip(name.len() + 1int));
    lemma_parts_of_name(e, Seq::empty());
    match e {
        CrucibleEffect::BurnOnHit { damage, turns } | CrucibleEffect::PoisonOnHit { damage, turns } => {
            let dd = decimal(damage as int);
            let dt = decimal(turns as int);
            lemma_decimal_plain(damage);
            lemma_decimal_plain(turns);
            lemma_parse_decimal(damage);
            lemma_parse_decimal(turns);
            assert(t =~= name + seq![':'] + (dd + seq![','] + dt));
            lemma_find_first(t, ':', name.len() as int);
            assert(t.take(name.len() as int) =~= name);
            let vals = t.skip(name.len() + 1int);
            assert(vals =~= dd + seq![','] + dt);
            lemma_find_first(vals, ',', dd.len() as int);
            assert(vals.take(dd.len() as int) =~= dd);
            assert(vals.skip(dd.len() + 1int) =~= dt);
            lemma_find_first(dt, ',', dt.len() as int);
        },
        CrucibleEffect::ShieldOnKill | CrucibleEffect::ComboExtender | CrucibleEffect::OverchargeProc
        | CrucibleEffect::KineticAbsorber | CrucibleEffect::NeuralSync | CrucibleEffect::TemporalFlux => {
            lemma_find_first(t, ':', t.len() as int);
        },
        _ => {
            let v: i32 = match e {
                CrucibleEffect::BonusDamage(n) => n,
                CrucibleEffect::BonusArmor(n) => n,
                CrucibleEffect::MaxHp(n) => n,
                CrucibleEffect::CritChance(n) => n,
                CrucibleEffect::LifeSteal(n) => n,
                CrucibleEffect::SpellPower(n) => n,
                CrucibleEffect::FocusRegen(n) => n,
                CrucibleEffect::GoldFind(n) => n,
                CrucibleEffect::RadicalFind(n) => n,
                CrucibleEffect::DodgeChance(n) => n,
                CrucibleEffect::MovementBonus(n) => n,
                CrucibleEffect::HealOnKill(n) => n,
                CrucibleEffect::FocusOnKill(n) => n,
                CrucibleEffect::HardAnswerDamage(n) => n,
                CrucibleEffect::HardAnswerHeal(n) => n,
                CrucibleEffect::DoubleStrike(n) => n,
                CrucibleEffect::ArmorPierce(n) => n,
                CrucibleEffect::EmergencyRepair(n) => n,
                _ => 0,
            };
            let dv = decimal(v as int);
            lemma_decimal_plain(v);
            lemma_parse_decimal(v);
            assert(t =~= name + seq![':'] + dv);
            lemma_find_first(t, ':', name.len() as int);
            assert(t.take(name.len() as int) =~= name);
            assert(t.skip(name.len() + 1int) =~= dv);
        },
    }
}

// ── Tree generation ─────────────────────────────────────────────────────────

/// One step of the splitmix64 generator: the output and the next state.
pub open spec fn splitmix_spec(seed: u64) -> (u64, u64) {
    let s = seed.wrapping_add(0x9e3779b97f4a7c15);
    let z1 = (s ^ (s >> 30u64)).wrapping_mul(0xbf58476d1ce4e5b9);
    let z2 = (z1 ^ (z1 >> 27u64)).wrapping_mul(0x94d049bb133111eb);
    (z2 ^ (z2 >> 31u64), s)
}

fn splitmix(seed: u64) -> (r: (u64, u64))
    ensures
        r == splitmix_spec(seed),
{
    let s = seed.wrapping_add(0x9e3779b97f4a7c15);
    let z1 = (s ^ (s >> 30u64)).wrapping_mul(0xbf58476d1ce4e5b9);
    let z2 = (z1 ^ (z1 >> 27u64)).wrapping_mul(0x94d049bb133111eb);
    (z2 ^ (z2 >> 31u64), s)
}

/// How many name prefixes a slot draws from.
pub open spec fn prefix_count(slot: EquipSlot) -> usize {
    match slot {
        EquipSlot::Weapon => 10,
        EquipSlot::Armor => 8,
        EquipSlot::Charm => 8,
    }
}

/// Every slot has five name suffixes.
pub open spec fn suffix_count() -> usize {
    5
}

/// Name prefix `k` of a slot's pool.
pub open spec fn prefix_word(slot: EquipSlot, k: usize) -> Seq<char> {
    match slot {
        EquipSlot::Weapon => if k == 0 { "Calibrated"@ } else if k == 1 { "Overcharged"@ } else if k == 2 { "Kinetic"@ } else if k == 3 { "Plasma"@ } else if k == 4 { "Focused"@ } else if k == 5 { "Lethal"@ } else if k == 6 { "Precision"@ } else if k == 7 { "Assault"@ } else if k == 8 { "Vampiric"@ } else { "Piercing"@ },
        EquipSlot::Armor => if k == 0 { "Reinforced"@ } else if k == 1 { "Reactive"@ } else if k == 2 { "Hardened"@ } else if k == 3 { "Adaptive"@ } else if k == 4 { "Kinetic"@ } else if k == 5 { "Nano"@ } else if k == 6 { "Ablative"@ } else { "Emergency"@ },
        EquipSlot::Charm => if k == 0 { "Quantum"@ } else if k == 1 { "Neural"@ } else if k == 2 { "Resonance"@ } else if k == 3 { "Salvage"@ } else if k == 4 { "Discovery"@ } else if k == 5 { "Focus"@ } else if k == 6 { "Temporal"@ } else { "Harmonic"@ },
    }
}

/// Name suffix `k` of a slot's pool.
pub open spec fn suffix_word(slot: EquipSlot, k: usize) -> Seq<char> {
    match slot {
        EquipSlot::Weapon => if k == 0 { "Core"@ } else if k == 1 { "Module"@ } else if k == 2 { "Circuit"@ } else if k == 3 { "Array"@ } else { "Chamber"@ },
        EquipSlot::Armor => if k == 0 { "Layer"@ } else if k == 1 { "Plating"@ } else if k == 2 { "Shell"@ } else if k == 3 { "Matrix"@ } else { "Weave"@ },
        EquipSlot::Charm => if k == 0 { "Link"@ } else if k == 1 { "Chip"@ } else if k == 2 { "Crystal"@ } else if k == 3 { "Node"@ } else { "Relay"@ },
    }
}

fn prefix_at(slot: EquipSlot, k: usize) -> (s: &'static str)
    ensures
        s@ == prefix_word(slot, k),
{
    match slot {
        EquipSlot::Weapon => if k == 0 { "Calibrated" } else if k == 1 { "Overcharged" } else if k == 2 { "Kinetic" } else if k == 3 { "Plasma" } else if k == 4 { "Focused" } else if k == 5 { "Lethal" } else if k == 6 { "Precision" } else if k == 7 { "Assault" } else if k == 8 { "Vampiric" } else { "Piercing" },
        EquipSlot::Armor => if k == 0 { "Reinforced" } else if k == 1 { "Reactive" } else if k == 2 { "Hardened" } else if k == 3 { "Adaptive" } else if k == 4 { "Kinetic" } else if k == 5 { "Nano" } else if k == 6 { "Ablative" } else { "Emergency" },
        EquipSlot::Charm => if k == 0 { "Quantum" } else if k == 1 { "Neural" } else if k == 2 { "Resonance" } else if k == 3 { "Salvage" } else if k == 4 { "Discovery" } else if k == 5 { "Focus" } else if k == 6 { "Temporal" } else { "Harmonic" },
    }
}

fn suffix_at(slot: EquipSlot, k: usize) -> (s: &'static str)
    ensures
        s@ == suffix_word(slot, k),
{
    match slot {
        EquipSlot::Weapon => if k == 0 { "Core" } else if k == 1 { "Module" } else if k == 2 { "Circuit" } else if k == 3 { "Array" } else { "Chamber" },
        EquipSlot::Armor => if k == 0 { "Layer" } else if k == 1 { "Plating" } else if k == 2 { "Shell" } else if k == 3 { "Matrix" } else { "Weave" },
        EquipSlot::Charm => if k == 0 { "Link" } else if k == 1 { "Chip" } else if k == 2 { "Crystal" } else if k == 3 { "Node" } else { "Relay" },
    }
}

/// A node name: a prefix and a suffix of the slot's pools picked by two
/// generator steps from `seed`, joined by a space.
pub open spec fn name_spec(slot: EquipSlot, seed: u64) -> Seq<char> {
    let (r1, s2) = splitmix_spec(seed);
    let (r2, _) = splitmix_spec(s2);
    prefix_word(slot, (r1 as usize) % prefix_count(slot)) + " "@ + suffix_word(slot, (r2 as usize) % suffix_count())
}

fn gen_name(slot: EquipSlot, seed: u64) -> (name: String)
    ensures
        name@ == name_spec(slot, seed),
{
    let (r1, s2) = splitmix(seed);
    let n: usize = match slot {
        EquipSlot::Weapon => 10,
        EquipSlot::Armor => 8,
        EquipSlot::Charm => 8,
    };
    let prefix = prefix_at(slot, (r1 as usize) % n);
    let (r2, _) = splitmix(s2);
    let suffix = suffix_at(slot, (r2 as usize) % 5);
    let mut name = String::from_str(prefix);
    name.append(" ");
    name.append(suffix);
    name
}

/// How many kinds of effect a slot's pool holds.
pub open spec fn pool_size_spec(slot: EquipSlot) -> usize {
    match slot {
        EquipSlot::Weapon => 10,
        EquipSlot::Armor => 8,
        EquipSlot::Charm => 9,
    }
}

fn pool_size(slot: EquipSlot) -> (n: usize)
    ensures
        n == pool_size_spec(slot),
{
    match slot {
        EquipSlot::Weapon => 10,
        EquipSlot::Armor => 8,
        EquipSlot::Charm => 9,
    }
}

/// Effect `index` of a slot's pool, its amount drawn from `seed`.
pub open spec fn effect_spec(slot: EquipSlot, index: usize, seed: u64) -> CrucibleEffect {
    let v = (1 + seed % 3) as i32;
    let pct = (5 + seed % 11) as i32;
    match slot {
        EquipSlot::Weapon => {
            let k = index % 10;
            if k == 0 {
                CrucibleEffect::BonusDamage(v)
            } else if k == 1 {
                CrucibleEffect::CritChance(pct)
            } else if k == 2 {
                CrucibleEffect::LifeSteal(v)
            } else if k == 3 {
                CrucibleEffect::SpellPower(v)
            } else if k == 4 {
                CrucibleEffect::DoubleStrike(pct)
            } else if k == 5 {
                CrucibleEffect::ArmorPierce(v)
            } else if k == 6 {
                CrucibleEffect::OverchargeProc
            } else if k == 7 {
                CrucibleEffect::BurnOnHit { damage: v, turns: (2 + seed % 2) as i32 }
            } else if k == 8 {
                CrucibleEffect::HardAnswerDamage(v)
            } else {
                CrucibleEffect::ComboExtender
            }
        },
        EquipSlot::Armor => {
            let k = index % 8;
            if k == 0 {
                CrucibleEffect::BonusArmor(v)
            } else if k == 1 {
                CrucibleEffect::MaxHp((2 + seed % 4) as i32)
            } else if k == 2 {
                CrucibleEffect::DodgeChance(pct)
            } else if k == 3 {
                CrucibleEffect::MovementBonus(v)
            } else if k == 4 {
                CrucibleEffect::EmergencyRepair((2 + seed % 3) as i32)
            } else if k == 5 {
                CrucibleEffect::KineticAbsorber
            } else if k == 6 {
                CrucibleEffect::ShieldOnKill
            } else {
                CrucibleEffect::HardAnswerHeal(v)
            }
        },
        EquipSlot::Charm => {
            let k = index % 9;
            if k == 0 {
                CrucibleEffect::GoldFind((10 + seed % 11) as i32)
            } else if k == 1 {
                CrucibleEffect::RadicalFind((10 + seed % 11) as i32)
            } else if k == 2 {
                CrucibleEffect::FocusRegen(v)
            } else if k == 3 {
                CrucibleEffect::SpellPower(v)
            } else if k == 4 {
                CrucibleEffect::NeuralSync
            } else if k == 5 {
                CrucibleEffect::TemporalFlux
            } else if k == 6 {
                CrucibleEffect::FocusOnKill(v)
            } else if k == 7 {
                CrucibleEffect::HealOnKill(v)
            } else {
                CrucibleEffect::HardAnswerDamage(v)
            }
        },
    }
}

fn generate_effect(slot: EquipSlot, index: usize, seed: u64) -> (e: CrucibleEffect)
    ensures
        e == effect_spec(slot, index, seed),
{
    let v = 1 + (seed % 3) as i32;
    let pct = 5 + (seed % 11) as i32;
    match slot {
        EquipSlot::Weapon => {
            let k = index % 10;
            if k == 0 {
                CrucibleEffect::BonusDamage(v)
            } else if k == 1 {
                CrucibleEffect::CritChance(pct)
            } else if k == 2 {
                CrucibleEffect::LifeSteal(v)
            } else if k == 3 {
                CrucibleEffect::SpellPower(v)
            } else if k == 4 {
                CrucibleEffect::DoubleStrike(pct)
            } else if k == 5 {
                CrucibleEffect::ArmorPierce(v)
            } else if k == 6 {
                CrucibleEffect::OverchargeProc
            } else if k == 7 {
                CrucibleEffect::BurnOnHit { damage: v, turns: 2 + (seed % 2) as i32 }
            } else if k == 8 {
                CrucibleEffect::HardAnswerDamage(v)
            } else {
                CrucibleEffect::ComboExtender
            }
        },
        EquipSlot::Armor => {
            let k = index % 8;
            if k == 0 {
                CrucibleEffect::BonusArmor(v)
            } else if k == 1 {
                CrucibleEffect::MaxHp(2 + (seed % 4) as i32)
            } else if k == 2 {
                CrucibleEffect::DodgeChance(pct)
            } else if k == 3 {
                CrucibleEffect::MovementBonus(v)
            } else if k == 4 {
                CrucibleEffect::EmergencyRepair(2 + (seed % 3) as i32)
            } else if k == 5 {
                CrucibleEffect::KineticAbsorber
            } else if k == 6 {
                CrucibleEffect::ShieldOnKill
            } else {
                CrucibleEffect::HardAnswerHeal(v)
            }
        },
        EquipSlot::Charm => {
            let k = index % 9;
            if k == 0 {
                CrucibleEffect::GoldFind(10 + (seed % 11) as i32)
            } else if k == 1 {
                CrucibleEffect::RadicalFind(10 + (seed % 11) as i32)
            } else if k == 2 {
                CrucibleEffect::FocusRegen(v)
            } else if k == 3 {
                CrucibleEffect::SpellPower(v)
            } else if k == 4 {
                CrucibleEffect::NeuralSync
            } else if k == 5 {
                CrucibleEffect::TemporalFlux
            } else if k == 6 {
                CrucibleEffect::FocusOnKill(v)
            } else if k == 7 {
                CrucibleEffect::HealOnKill(v)
            } else {
                CrucibleEffect::HardAnswerDamage(v)
            }
        },
    }
}

/// The sentence describing an effect.
pub open spec fn description_spec(e: CrucibleEffect) -> Seq<char> {
    match e {
        CrucibleEffect::BonusDamage(n) => "+"@ + decimal(n as int) + " damage on all attacks"@,
        CrucibleEffect::BonusArmor(n) => "+"@ + decimal(n as int) + " armor"@,
        CrucibleEffect::MaxHp(n) => "+"@ + decimal(n as int) + " max HP"@,
        CrucibleEffect::CritChance(n) => ""@ + decimal(n as int) + "% critical hit chance"@,
        CrucibleEffect::LifeSteal(n) => "+"@ + decimal(n as int) + " lifesteal on attacks"@,
        CrucibleEffect::SpellPower(n) => "+"@ + decimal(n as int) + " spell power"@,
        CrucibleEffect::FocusRegen(n) => "+"@ + decimal(n as int) + " focus regen per turn"@,
        CrucibleEffect::GoldFind(n) => "+"@ + decimal(n as int) + "% gold find"@,
        CrucibleEffect::RadicalFind(n) => "+"@ + decimal(n as int) + "% radical find"@,
        CrucibleEffect::DodgeChance(n) => ""@ + decimal(n as int) + "% dodge chance"@,
        CrucibleEffect::MovementBonus(n) => "+"@ + decimal(n as int) + " movement speed"@,
        CrucibleEffect::BurnOnHit { damage, turns } => "Burn ("@ + decimal(damage as int) + " dmg/turn, "@ + decimal(turns as int) + " turns)"@,
        CrucibleEffect::PoisonOnHit { damage, turns } => "Poison ("@ + decimal(damage as int) + " dmg/turn, "@ + decimal(turns as int) + " turns)"@,
        CrucibleEffect::ShieldOnKill => "Gain a shield after each kill"@,
        CrucibleEffect::HealOnKill(n) => "Heal "@ + decimal(n as int) + " HP per kill"@,
        CrucibleEffect::FocusOnKill(n) => "+"@ + decimal(n as int) + " focus on kill"@,
        CrucibleEffect::HardAnswerDamage(n) => "+"@ + decimal(n as int) + " damage on hard answers"@,
        CrucibleEffect::HardAnswerHeal(n) => "+"@ + decimal(n as int) + " heal on hard answers"@,
        CrucibleEffect::ComboExtender => "Wrong answers only halve combo"@,
        CrucibleEffect::DoubleStrike(n) => ""@ + decimal(n as int) + "% chance to strike twice"@,
        CrucibleEffect::ArmorPierce(n) => "Ignore "@ + decimal(n as int) + " enemy armor"@,
        CrucibleEffect::OverchargeProc => "15% chance for +50% damage"@,
        CrucibleEffect::EmergencyRepair(n) => "Auto-heal "@ + decimal(n as int) + " HP once per fight below 25%"@,
        CrucibleEffect::KineticAbsorber => "Store 50% damage taken, add to next attack"@,
        CrucibleEffect::NeuralSync => "+50% SRS accuracy recording"@,
        CrucibleEffect::TemporalFlux => "10% chance for bonus action after kill"@,
    }
}

fn effect_description(effect: &CrucibleEffect) -> (s: String)
    ensures
        s@ == description_spec(*effect),
{
    match *effect {
        CrucibleEffect::BonusDamage(n) => with_int("+", n as i64, " damage on all attacks"),
        CrucibleEffect::BonusArmor(n) => with_int("+", n as i64, " armor"),
        CrucibleEffect::MaxHp(n) => with_int("+", n as i64, " max HP"),
        CrucibleEffect::CritChance(n) => with_int("", n as i64, "% critical hit chance"),
        CrucibleEffect::LifeSteal(n) => with_int("+", n as i64, " lifesteal on attacks"),
        CrucibleEffect::SpellPower(n) => with_int("+", n as i64, " spell power"),
        CrucibleEffect::FocusRegen(n) => with_int("+", n as i64, " focus regen per turn"),
        CrucibleEffect::GoldFind(n) => with_int("+", n as i64, "% gold find"),
        CrucibleEffect::RadicalFind(n) => with_int("+", n as i64, "% radical find"),
        CrucibleEffect::DodgeChance(n) => with_int("", n as i64, "% dodge chance"),
        CrucibleEffect::MovementBonus(n) => with_int("+", n as i64, " movement speed"),
        CrucibleEffect::BurnOnHit { damage, turns } => {
            let mut s = with_int("Burn (", damage as i64, " dmg/turn, ");
            push_int(&mut s, turns as i64);
            s.append(" turns)");
            s
        },
        CrucibleEffect::PoisonOnHit { damage, turns } => {
            let mut s = with_int("Poison (", damage as i64, " dmg/turn, ");
            push_int(&mut s, turns as i64);
            s.append(" turns)");
            s
        },
        CrucibleEffect::ShieldOnKill => String::from_str("Gain a shield after each kill"),
        CrucibleEffect::HealOnKill(n) => with_int("Heal ", n as i64, " HP per kill"),
        CrucibleEffect::FocusOnKill(n) => with_int("+", n as i64, " focus on kill"),
        CrucibleEffect::HardAnswerDamage(n) => with_int("+", n as i64, " damage on hard answers"),
        CrucibleEffect::HardAnswerHeal(n) => with_int("+", n as i64, " heal on hard answers"),
        CrucibleEffect::ComboExtender => String::from_str("Wrong answers only halve combo"),
        CrucibleEffect::DoubleStrike(n) => with_int("", n as i64, "% chance to strike twice"),
        CrucibleEffect::ArmorPierce(n) => with_int("Ignore ", n as i64, " enemy armor"),
        CrucibleEffect::OverchargeProc => String::from_str("15% chance for +50% damage"),
        CrucibleEffect::EmergencyRepair(n) => with_int("Auto-heal ", n as i64, " HP once per fight below 25%"),
        CrucibleEffect::KineticAbsorber => String::from_str("Store 50% damage taken, add to next attack"),
        CrucibleEffect::NeuralSync => String::from_str("+50% SRS accuracy recording"),
        CrucibleEffect::TemporalFlux => String::from_str("10% chance for bonus action after kill"),
    }
}

/// XP a node of ring `ring` costs: nothing at the root, then 10, 25, 50,
/// and 80 from the fourth ring on.
pub open spec fn ring_cost_spec(ring: usize) -> u32 {
    if ring == 0 {
        0
    } else if ring == 1 {
        10
    } else if ring == 2 {
        25
    } else if ring == 3 {
        50
    } else {
        80
    }
}

fn ring_cost(ring: usize) -> (c: u32)
    ensures
        c == ring_cost_spec(ring),
{
    if ring == 0 {
        0
    } else if ring == 1 {
        10
    } else if ring == 2 {
        25
    } else if ring == 3 {
        50
    } else {
        80
    }
}

// ── Crucible state ──────────────────────────────────────────────────────────

/// Where a node sits in the drawing of its tree, in whole numbers; the
/// screen position is computed from these where the tree is drawn.
#[derive(Clone, Copy, Debug, PartialEq, Eq, Structural)]
pub enum NodeLayout {
    /// The root, at the centre.
    Root,
    /// A first-ring node: the ring is turned by `turn` thousandths of a full
    /// turn, and this is child `slot` of `of`, spaced evenly.
    FirstRing { turn: u64, slot: usize, of: usize },
    /// A deeper node fanned out from `parent`, which sits on ring
    /// `parent_ring`; this is child `slot` of `of`.
    Branch { parent: usize, parent_ring: usize, slot: usize, of: usize },
    /// Read back from a saved form, which keeps the node's drawn position.
    Saved,
}

/// A generated node of a crucible tree.
#[derive(Clone, Debug)]
pub struct CrucibleNodeDyn {
    pub name: String,
    pub description: String,
    pub effect: CrucibleEffect,
    pub xp_cost: u32,
    pub layout: NodeLayout,
}

/// An item's crucible tree: its nodes, adjacency lists, which nodes are
/// unlocked, the XP banked on the item, and per-fight state.
#[derive(Clone, Debug)]
pub struct CrucibleState {
    pub nodes: Vec<CrucibleNodeDyn>,
    pub edges: Vec<Vec<usize>>,
    pub allocated: Vec<bool>,
    pub xp: u32,
    pub emergency_used: bool,
    pub kinetic_stored: i32,
}

/// Effects of the unlocked nodes among the first `k`, in node order.
pub open spec fn active_upto(nodes: Seq<CrucibleNodeDyn>, allocated: Seq<bool>, k: int) -> Seq<CrucibleEffect>
    decreases k,
{
    if k <= 0 {
        Seq::empty()
    } else {
        let r = active_upto(nodes, allocated, k - 1);
        if allocated[k - 1] {
            r.push(nodes[k - 1].effect)
        } else {
            r
        }
    }
}

impl CrucibleState {
    /// Every node has an adjacency list and an unlocked flag, and every edge
    /// leads to a node.
    pub open spec fn wf(&self) -> bool {
        &&& self.edges@.len() == self.nodes@.len()
        &&& self.allocated@.len() == self.nodes@.len()
        &&& forall|i: int, k: int|
            0 <= i < self.edges@.len() && 0 <= k < self.edges@[i]@.len() ==> (#[trigger] self.edges@[i]@[k])
                < self.nodes@.len()
    }

    /// Effects of the unlocked nodes, in node order.
    pub open spec fn active_spec(&self) -> Seq<CrucibleEffect> {
        active_upto(self.nodes@, self.allocated@, self.allocated@.len() as int)
    }

    /// Node `i` is next to an unlocked node.
    pub open spec fn touches_unlocked(&self, i: int) -> bool {
        exists|k: int| 0 <= k < self.edges@[i]@.len() && self.allocated@[self.edges@[i]@[k] as int]
    }

    /// Node `i` can be unlocked now: it exists, is locked, its cost is
    /// covered, and it touches an unlocked node.
    pub open spec fn allocatable(&self, i: int) -> bool {
        &&& 0 <= i < self.nodes@.len()
        &&& !self.allocated@[i]
        &&& self.xp >= self.nodes@[i].xp_cost
        &&& self.touches_unlocked(i)
    }

    /// An inactive state: no tree, no XP.
    pub fn empty() -> (s: Self)
        ensures
            s.wf(),
            s.nodes@.len() == 0,
            s.xp == 0,
            !s.emergency_used,
            s.kinetic_stored == 0,
    {
        CrucibleState {
            nodes: Vec::new(),
            edges: Vec::new(),
            allocated: Vec::new(),
            xp: 0,
            emergency_used: false,
            kinetic_stored: 0,
        }
    }

    fn touches(&self, idx: usize) -> (b: bool)
        requires
            self.wf(),
            idx < self.nodes@.len(),
        ensures
            b == self.touches_unlocked(idx as int),
    {
        let list = &self.edges[idx];
        let mut k: usize = 0;
        while k < list.len()
            invariant
                self.wf(),
                idx < self.nodes@.len(),
                list@ == self.edges@[idx as int]@,
                k <= list@.len(),
                forall|j: int| 0 <= j < k ==> !self.allocated@[list@[j] as int],
            decreases list@.len() - k,
        {
            if self.allocated[list[k]] {
                return true;
            }
            k += 1;
        }
        false
    }

    /// Whether node `idx` can be unlocked: it exists, is still locked, the
    /// banked XP covers its cost, and a neighbour is unlocked.
    pub fn can_allocate(&self, idx: usize) -> (b: bool)
        requires
            self.wf(),
        ensures
            b == self.allocatable(idx as int),
    {
        if idx >= self.nodes.len() {
            return false;
        }
        if self.allocated[idx] {
            return false;
        }
        if self.xp < self.nodes[idx].xp_cost {
            return false;
        }
        self.touches(idx)
    }

    /// Unlocks node `idx` when it can be, paying its cost from the banked XP;
    /// reports whether it did.
    pub fn allocate(&mut self, idx: usize) -> (done: bool)
        requires
            old(self).wf(),
        ensures
            final(self).wf(),
            done == old(self).allocatable(idx as int),
            done ==> final(self).xp == old(self).xp - old(self).nodes@[idx as int].xp_cost,
            done ==> final(self).allocated@ == old(self).allocated@.update(idx as int, true),
            !done ==> final(self).xp == old(self).xp && final(self).allocated@ == old(self).allocated@,
            final(self).nodes@ == old(self).nodes@,
            final(self).edges@ == old(self).edges@,
            final(self).emergency_used == old(self).emergency_used,
            final(self).kinetic_stored == old(self).kinetic_stored,
    {
        if !self.can_allocate(idx) {
            return false;
        }
        self.xp = self.xp - self.nodes[idx].xp_cost;
        self.allocated.set(idx, true);
        true
    }

    /// Banks `amount` more XP; nothing unlocks by itself.
    pub fn gain_xp(&mut self, amount: u32)
        requires
            old(self).xp + amount <= u32::MAX,
        ensures
            final(self).xp == old(self).xp + amount,
            final(self).nodes@ == old(self).nodes@,
            final(self).edges@ == old(self).edges@,
            final(self).allocated@ == old(self).allocated@,
            final(self).emergency_used == old(self).emergency_used,
            final(self).kinetic_stored == old(self).kinetic_stored,
    {
        self.xp = self.xp + amount;
    }

    /// Effects of all unlocked nodes, in node order.
    pub fn active_effects(&self) -> (es: Vec<CrucibleEffect>)
        requires
            self.wf(),
        ensures
            es@ == self.active_spec(),
    {
        let mut es: Vec<CrucibleEffect> = Vec::new();
        let mut i: usize = 0;
        while i < self.allocated.len()
            invariant
                self.wf(),
                i <= self.allocated@.len(),
                es@ == active_upto(self.nodes@, self.allocated@, i as int),
            decreases self.allocated@.len() - i,
        {
            if self.allocated[i] {
                es.push(self.nodes[i].effect);
            }
            i += 1;
        }
        es
    }

    /// Number of unlocked nodes.
    pub fn unlocked_count(&self) -> (n: usize)
        requires
            self.wf(),
        ensures
            n == self.active_spec().len(),
    {
        let mut n: usize = 0;
        let mut i: usize = 0;
        while i < self.allocated.len()
            invariant
                self.wf(),
                i <= self.allocated@.len(),
                n == active_upto(self.nodes@, self.allocated@, i as int).len(),
                n <= i,
            decreases self.allocated@.len() - i,
        {
            if self.allocated[i] {
                n += 1;
            }
            i += 1;
        }
        n
    }

    /// Clears the per-fight state: the emergency repair is ready again and no
    /// kinetic charge is stored.
    pub fn reset_fight(&mut self)
        ensures
            !final(self).emergency_used,
            final(self).kinetic_stored == 0,
            final(self).nodes@ == old(self).nodes@,
            final(self).edges@ == old(self).edges@,
            final(self).allocated@ == old(self).allocated@,
            final(self).xp == old(self).xp,
    {
        self.emergency_used = false;
        self.kinetic_stored = 0;
    }

    /// XP still needed for node `i`, none when banked XP covers it.
    pub open spec fn shortfall(&self, i: int) -> int {
        if self.nodes@[i].xp_cost > self.xp {
            self.nodes@[i].xp_cost - self.xp
        } else {
            0
        }
    }

    /// Node `i` is locked and next to an unlocked node.
    pub open spec fn frontier(&self, i: int) -> bool {
        0 <= i < self.nodes@.len() && !self.allocated@[i] && self.touches_unlocked(i)
    }

    /// A node can be unlocked right now exactly when some locked node next to
    /// an unlocked one misses no XP, that is when `xp_to_next` reports 0.
    pub proof fn lemma_unlock_now_iff_nothing_missing(&self)
        ensures
            (exists|i: int| self.allocatable(i)) <==> (exists|i: int| self.frontier(i) && self.shortfall(i) == 0),
    {
        if exists|i: int| self.allocatable(i) {
            let i = choose|i: int| self.allocatable(i);
            assert(self.frontier(i) && self.shortfall(i) == 0);
        }
        if exists|i: int| self.frontier(i) && self.shortfall(i) == 0 {
            let i = choose|i: int| self.frontier(i) && self.shortfall(i) == 0;
            assert(self.allocatable(i));
        }
    }

    /// Banking more XP never takes away a node that could be unlocked: a tree
    /// that differs only in holding at least as much XP can unlock every node
    /// this one can.
    pub proof fn lemma_more_xp_keeps_unlockable(&self, richer: &CrucibleState, i: int)
        requires
            richer.nodes@ == self.nodes@,
            richer.edges@ == self.edges@,
            richer.allocated@ == self.allocated@,
            richer.xp >= self.xp,
            self.allocatable(i),
        ensures
            richer.allocatable(i),
    {
    }

    /// XP still missing for the cheapest locked node next to an unlocked
    /// one, or `None` when there is no such node.
    pub fn xp_to_next(&self) -> (r: Option<u32>)
        requires
            self.wf(),
        ensures
            r is None <==> forall|i: int| !self.frontier(i),
            r matches Some(v) ==> (exists|i: int| self.frontier(i) && v == self.shortfall(i)) && forall|i: int|
                self.frontier(i) ==> v <= self.shortfall(i),
    {
        let mut cheapest: Option<u32> = None;
        let mut i: usize = 0;
        while i < self.nodes.len()
            invariant
                self.wf(),
                i <= self.nodes@.len(),
                cheapest is None <==> forall|j: int| 0 <= j < i ==> !self.frontier(j),
                cheapest matches Some(v) ==> (exists|j: int| 0 <= j < i && self.frontier(j) && v == self.shortfall(j))
                    && forall|j: int| 0 <= j < i && self.frontier(j) ==> v <= self.shortfall(j),
            decreases self.nodes@.len() - i,
        {
            let ghost before = cheapest;
            if !self.allocated[i] && self.touches(i) {
                let needed = self.nodes[i].xp_cost.saturating_sub(self.xp);
                assert(needed == self.shortfall(i as int));
                assert(self.frontier(i as int));
                match cheapest {
                    None => {
                        cheapest = Some(needed);
                    },
                    Some(prev) => {
                        if needed < prev {
                            cheapest = Some(needed);
                        }
                    },
                }
                assert(cheapest matches Some(v) ==> v <= needed);
            } else {
                assert(!self.frontier(i as int));
            }
            proof {
                if let Some(v) = cheapest {
                    assert forall|j: int| 0 <= j < i + 1 && self.frontier(j) implies v <= self.shortfall(j) by {
                        if j < i {
                            assert(before matches Some(pv) && pv <= self.shortfall(j));
                        }
                    }
                }
            }
            i += 1;
        }
        cheapest
    }

    /// Trees no longer branch on a choice; nothing is ever pending.
    pub fn pending_branch(&self) -> (b: bool)
        ensures
            !b,
    {
        false
    }

    /// Trees no longer branch on a choice; this changes nothing.
    pub fn choose_branch(&mut self, left: bool)
        ensures
            *final(self) == *old(self),
    {
    }
}

/// Ring of node `i`: how many parent steps lead back to the root, the
/// parent of a node being the first entry of its adjacency list.
pub open spec fn depth(edges: Seq<Vec<usize>>, i: int) -> int
    decreases i,
{
    if i <= 0 || i >= edges.len() || edges[i]@.len() == 0 || edges[i]@[0] >= i {
        0
    } else {
        depth(edges, edges[i]@[0] as int) + 1
    }
}

/// The adjacency lists of `n` nodes form a tree hanging from node 0: every
/// other node lists first its parent, which comes before it; every other
/// neighbour is a child, which lists this node first; edges lead to nodes and
/// go both ways, and no list repeats a node. So each node but the root has
/// exactly one parent edge, and the tree has `n - 1` edges.
pub open spec fn tree_linked(n: int, edges: Seq<Vec<usize>>) -> bool {
    &&& edges.len() == n
    &&& forall|i: int, k: int| 0 <= i < n && 0 <= k < edges[i]@.len() ==> (#[trigger] edges[i]@[k]) < n
    &&& forall|i: int| 0 < i < n ==> (#[trigger] edges[i]@).len() >= 1 && edges[i]@[0] < i
    &&& forall|i: int, k: int|
        0 <= i < n && 0 <= k < edges[i]@.len() ==> edges[(#[trigger] edges[i]@[k]) as int]@.contains(i as usize)
    &&& forall|i: int, k: int|
        0 <= i < n && 0 <= k < edges[i]@.len() && !(k == 0 && i > 0) ==> edges[(#[trigger] edges[i]@[k]) as int]@[0] == i
    &&& forall|i: int| 0 <= i < n ==> (#[trigger] edges[i]@).no_duplicates()
}

/// Number of nodes a tree of `rarity` grown from `seed` gets.
pub open spec fn tree_size(rarity: ItemRarity, seed: u64) -> usize {
    let (lo, hi): (usize, usize) = match rarity {
        ItemRarity::Normal => (3, 5),
        ItemRarity::Magic => (6, 9),
        ItemRarity::Rare => (10, 14),
        ItemRarity::Unique => (15, 20),
    };
    (lo + (splitmix_spec(seed).0 as usize) % ((hi - lo + 1) as usize)) as usize
}

/// `e` is one of the slot's pool effects with some drawn amount.
pub open spec fn drawn_from(slot: EquipSlot, e: CrucibleEffect) -> bool {
    exists|k: usize, sd: u64| e == effect_spec(slot, k, sd)
}

/// Whether `e` belongs to the effect pool of `slot`, with an amount in the
/// range that pool gives it. Weapons draw damage, crits, life steal, spell
/// power, double strikes, armor pierce, overcharge, burning hits, hard-answer
/// damage and combo extension; armor draws armor, health, dodge, movement,
/// emergency repair, kinetic absorption, shields on kill and hard-answer
/// healing; charms draw gold and radical finding, focus regeneration, spell
/// power, neural sync, temporal flux, focus and healing on kill and
/// hard-answer damage.
pub open spec fn in_pool(slot: EquipSlot, e: CrucibleEffect) -> bool {
    match slot {
        EquipSlot::Weapon => match e {
            CrucibleEffect::BonusDamage(n) => 1 <= n <= 3,
            CrucibleEffect::CritChance(n) => 5 <= n <= 15,
            CrucibleEffect::LifeSteal(n) => 1 <= n <= 3,
            CrucibleEffect::SpellPower(n) => 1 <= n <= 3,
            CrucibleEffect::DoubleStrike(n) => 5 <= n <= 15,
            CrucibleEffect::ArmorPierce(n) => 1 <= n <= 3,
            CrucibleEffect::OverchargeProc => true,
            CrucibleEffect::BurnOnHit { damage, turns } => 1 <= damage <= 3 && 2 <= turns <= 3,
            CrucibleEffect::HardAnswerDamage(n) => 1 <= n <= 3,
            CrucibleEffect::ComboExtender => true,
            _ => false,
        },
        EquipSlot::Armor => match e {
            CrucibleEffect::BonusArmor(n) => 1 <= n <= 3,
            CrucibleEffect::MaxHp(n) => 2 <= n <= 5,
            CrucibleEffect::DodgeChance(n) => 5 <= n <= 15,
            CrucibleEffect::MovementBonus(n) => 1 <= n <= 3,
            CrucibleEffect::EmergencyRepair(n) => 2 <= n <= 4,
            CrucibleEffect::KineticAbsorber => true,
            CrucibleEffect::ShieldOnKill => true,
            CrucibleEffect::HardAnswerHeal(n) => 1 <= n <= 3,
            _ => false,
        },
        EquipSlot::Charm => match e {
            CrucibleEffect::GoldFind(n) => 10 <= n <= 20,
            CrucibleEffect::RadicalFind(n) => 10 <= n <= 20,
            CrucibleEffect::FocusRegen(n) => 1 <= n <= 3,
            CrucibleEffect::SpellPower(n) => 1 <= n <= 3,
            CrucibleEffect::NeuralSync => true,
            CrucibleEffect::TemporalFlux => true,
            CrucibleEffect::FocusOnKill(n) => 1 <= n <= 3,
            CrucibleEffect::HealOnKill(n) => 1 <= n <= 3,
            CrucibleEffect::HardAnswerDamage(n) => 1 <= n <= 3,
            _ => false,
        },
    }
}

/// Every effect drawn for a slot comes from that slot's pool, with an amount
/// in the pool's range; the armor pool starts with the armor bonus, so an
/// armor draw is an armor bonus exactly at the pool's first position.
pub proof fn lemma_drawn_effect_in_pool(slot: EquipSlot, index: usize, seed: u64)
    ensures
        in_pool(slot, effect_spec(slot, index, seed)),
        (effect_spec(EquipSlot::Armor, index, seed) is BonusArmor) == (index % 8 == 0),
{
}

/// Every node of a freshly grown tree carries an effect of its slot's pool:
/// an armor tree never grants a weapon's damage bonus.
pub proof fn lemma_grown_tree_effects_in_pool(st: CrucibleState, slot: EquipSlot, n: int)
    requires
        grown_tree(st, slot, n),
    ensures
        forall|i: int| 0 <= i < n ==> in_pool(slot, #[trigger] st.nodes@[i].effect),
        slot == EquipSlot::Armor ==> forall|i: int| 0 <= i < n ==> !(#[trigger] st.nodes@[i].effect is BonusDamage),
{
    assert forall|i: int| 0 <= i < n implies in_pool(slot, #[trigger] st.nodes@[i].effect) by {
        assert(drawn_from(slot, st.nodes@[i].effect));
        let (k, sd) = choose|k: usize, sd: u64| st.nodes@[i].effect == effect_spec(slot, k, sd);
        lemma_drawn_effect_in_pool(slot, k, sd);
    }
}

/// `name` joins a prefix and a suffix of the slot's pools as some draw
/// picks them.
pub open spec fn named_from(slot: EquipSlot, name: Seq<char>) -> bool {
    exists|sd: u64| name == name_spec(slot, sd)
}

/// A freshly grown tree for `slot` of `n` nodes: a tree from node 0, only
/// the root unlocked and free, every other node costing what its ring
/// costs, effects from the slot's pool with their matching descriptions,
/// names from the slot's pools, no XP banked.
pub open spec fn grown_tree(st: CrucibleState, slot: EquipSlot, n: int) -> bool {
    &&& st.wf()
    &&& st.nodes@.len() == n
    &&& tree_linked(n, st.edges@)
    &&& st.allocated@[0]
    &&& st.nodes@[0].layout == NodeLayout::Root
    &&& forall|i: int| 0 < i < n ==> !(#[trigger] st.allocated@[i])
    &&& forall|i: int| 0 <= i < n ==> (#[trigger] st.nodes@[i]).xp_cost == ring_cost_spec(depth(st.edges@, i) as usize)
    &&& forall|i: int| 0 <= i < n ==> (#[trigger] st.nodes@[i]).description@ == description_spec(st.nodes@[i].effect)
    &&& forall|i: int| 0 <= i < n ==> drawn_from(slot, (#[trigger] st.nodes@[i]).effect)
    &&& forall|i: int| 0 <= i < n ==> named_from(slot, (#[trigger] st.nodes@[i]).name@)
    &&& st.xp == 0
    &&& !st.emergency_used
    &&& st.kinetic_stored == 0
}

/// A path of nodes from the root along edges.
pub open spec fn root_path(edges: Seq<Vec<usize>>, p: Seq<usize>) -> bool {
    &&& p.len() >= 1
    &&& p[0] == 0
    &&& forall|k: int| 0 <= k < p.len() - 1 ==> edges[p[k] as int]@.contains(#[trigger] p[k + 1])
}

/// Every node of a tree hanging from node 0 can be reached from the root.
pub proof fn lemma_tree_connected(n: int, edges: Seq<Vec<usize>>, i: int)
    requires
        tree_linked(n, edges),
        0 <= i < n <= usize::MAX,
    ensures
        exists|p: Seq<usize>| root_path(edges, p) && p.last() == i,
    decreases i,
{
    if i == 0 {
        let p = seq![0usize];
        assert(root_path(edges, p) && p.last() == i);
    } else {
        let parent = edges[i]@[0] as int;
        assert(edges[i]@.len() >= 1);
        lemma_tree_connected(n, edges, parent);
        let p = choose|p: Seq<usize>| root_path(edges, p) && p.last() == parent;
        let q = p.push(i as usize);
        assert(edges[edges[i]@[0] as int]@.contains(i as usize));
        assert forall|k: int| 0 <= k < q.len() - 1 implies edges[q[k] as int]@.contains(#[trigger] q[k + 1]) by {
            if k < p.len() - 1 {
                assert(q[k] == p[k] && q[k + 1] == p[k + 1]);
            } else {
                assert(q[k] == p.last());
                assert(q[k + 1] == i as usize);
            }
        }
        assert(q[0] == p[0]);
        assert(root_path(edges, q) && q.last() == i);
    }
}

fn make_node(name: String, effect: CrucibleEffect, xp_cost: u32, layout: NodeLayout) -> (node: CrucibleNodeDyn)
    ensures
        node.name@ == name@,
        node.effect == effect,
        node.description@ == description_spec(effect),
        node.xp_cost == xp_cost,
        node.layout == layout,
{
    let description = effect_description(&effect);
    CrucibleNodeDyn { name, description, effect, xp_cost, layout }
}

/// Adds `j` to the adjacency list of `i`.
fn push_edge(edges: &mut Vec<Vec<usize>>, i: usize, j: usize)
    requires
        i < old(edges)@.len(),
    ensures
        final(edges)@.len() == old(edges)@.len(),
        final(edges)@[i as int]@ == old(edges)@[i as int]@.push(j),
        forall|k: int| 0 <= k < old(edges)@.len() && k != i ==> final(edges)@[k] == old(edges)@[k],
{
    let mut list = edges.remove(i);
    list.push(j);
    edges.insert(i, list);
}

/// The nodes of a tree under construction, with the ring of each.
pub struct TreeBuild {
    pub nodes: Vec<CrucibleNodeDyn>,
    pub edges: Vec<Vec<usize>>,
    pub rings: Vec<usize>,
}

impl TreeBuild {
    /// The tree so far: linked from node 0, each node one ring past its
    /// parent and costing that ring's price, effects and names drawn from
    /// the slot's pools.
    pub open spec fn sound(&self, slot: EquipSlot) -> bool {
        let n = self.nodes@.len() as int;
        &&& n >= 1
        &&& self.edges@.len() == n
        &&& self.rings@.len() == n
        &&& tree_linked(n, self.edges@)
        &&& self.rings@[0] == 0
        &&& self.nodes@[0].layout == NodeLayout::Root
        &&& forall|i: int| 0 < i < n ==> (#[trigger] self.rings@[i]) == self.rings@[self.edges@[i]@[0] as int] + 1
        &&& forall|i: int| 0 <= i < n ==> (#[trigger] self.rings@[i]) <= n
        &&& forall|i: int| 0 <= i < n ==> (#[trigger] self.nodes@[i]).xp_cost == ring_cost_spec(self.rings@[i])
        &&& forall|i: int| 0 <= i < n ==> (#[trigger] self.nodes@[i]).description@ == description_spec(self.nodes@[i].effect)
        &&& forall|i: int| 0 <= i < n ==> drawn_from(slot, (#[trigger] self.nodes@[i]).effect)
        &&& forall|i: int| 0 <= i < n ==> named_from(slot, (#[trigger] self.nodes@[i]).name@)
    }
}


proof fn lemma_link_child(oe: Seq<Vec<usize>>, e: Seq<Vec<usize>>, parent: int, child: int)
    requires
        tree_linked(child, oe),
        0 <= parent < child < 0x10000,
        e.len() == child + 1,
        e[child]@ == seq![parent as usize],
        e[parent]@ == oe[parent]@.push(child as usize),
        forall|k: int| 0 <= k < child && k != parent ==> e[k] == oe[k],
    ensures
        tree_linked(child + 1, e),
{
    let n = child + 1;
    assert forall|i: int, k: int| 0 <= i < n && 0 <= k < e[i]@.len() implies (#[trigger] e[i]@[k]) < n by {
        if i < child && i != parent {
            assert(e[i] == oe[i]);
        } else if i == parent && k < oe[i]@.len() {
            assert(e[i]@[k] == oe[i]@[k]);
        }
    }
    assert forall|i: int| 0 < i < n implies (#[trigger] e[i]@).len() >= 1 && e[i]@[0] < i by {
        if i < child && i != parent {
            assert(e[i] == oe[i]);
        } else if i == parent {
            assert(oe[i]@.len() >= 1);
            assert(e[i]@[0] == oe[i]@[0]);
        }
    }
    assert forall|i: int, k: int| 0 <= i < n && 0 <= k < e[i]@.len() implies e[(#[trigger] e[i]@[k]) as int]@.contains(
        i as usize,
    ) by {
        let j = e[i]@[k] as int;
        if i == child {
            assert(j == parent);
            assert(e[parent]@.last() == child as usize);
        } else if i == parent && k == oe[i]@.len() {
            assert(j == child);
            assert(e[child]@[0] == parent as usize);
        } else {
            if i != parent {
                assert(e[i] == oe[i]);
            } else {
                assert(e[i]@[k] == oe[i]@[k]);
            }
            assert(j < child);
            assert(oe[j]@.contains(i as usize));
            let m = choose|m: int| 0 <= m < oe[j]@.len() && oe[j]@[m] == i as usize;
            if j != parent {
                assert(e[j] == oe[j]);
            } else {
                assert(e[j]@[m] == oe[j]@[m]);
            }
        }
    }
}

/// Draws one node (effect kind, effect amount, name) from the generator
/// state `s` and hangs it under `parent` on ring `ring`.
fn add_child(
    t: &mut TreeBuild,
    parent: usize,
    ring: usize,
    layout: NodeLayout,
    slot: EquipSlot,
    ps: usize,
    s: u64,
) -> (next: u64)
    requires
        old(t).sound(slot),
        parent < old(t).nodes@.len(),
        old(t).rings@[parent as int] + 1 == ring,
        ps == pool_size_spec(slot),
        old(t).nodes@.len() < 64,
    ensures
        final(t).sound(slot),
        final(t).nodes@.len() == old(t).nodes@.len() + 1,
        final(t).rings@ == old(t).rings@.push(ring),
        final(t).nodes@.last().layout == layout,
        forall|i: int| 0 <= i < old(t).nodes@.len() ==> #[trigger] final(t).nodes@[i] == old(t).nodes@[i],
{
    let child = t.nodes.len();
    let (re, s1) = splitmix(s);
    let ei = (re as usize) % ps;
    let (rv, s2) = splitmix(s1);
    let eff = generate_effect(slot, ei, rv);
    let (rn, s3) = splitmix(s2);
    let name = gen_name(slot, rn);
    let cost = ring_cost(ring);
    let ghost old_t = *t;
    t.nodes.push(make_node(name, eff, cost, layout));
    let mut list: Vec<usize> = Vec::new();
    list.push(parent);
    t.edges.push(list);
    push_edge(&mut t.edges, parent, child);
    t.rings.push(ring);
    proof {
        lemma_link_child(old_t.edges@, t.edges@, parent as int, child as int);
        let n = child as int + 1;
        let e = t.edges@;
        let oe = old_t.edges@;
        assert forall|i: int| 0 < i < n implies (#[trigger] t.rings@[i]) == t.rings@[t.edges@[i]@[0] as int] + 1 by {
            if i < child && i != parent {
                assert(e[i] == oe[i]);
            } else if i == parent {
                assert(e[i]@[0] == oe[i]@[0]);
            }
        }
        assert forall|i: int| 0 <= i < n implies drawn_from(slot, (#[trigger] t.nodes@[i]).effect) by {
            if i == child {
                assert(t.nodes@[i].effect == effect_spec(slot, ei, rv));
            } else {
                assert(t.nodes@[i] == old_t.nodes@[i]);
            }
        }
        assert forall|i: int| 0 <= i < n implies named_from(slot, (#[trigger] t.nodes@[i]).name@) by {
            if i == child {
                assert(t.nodes@[i].name@ == name_spec(slot, rn));
            } else {
                assert(t.nodes@[i] == old_t.nodes@[i]);
            }
        }
    }
    s3
}

/// Indices of the nodes on ring `r`, in increasing order.
fn nodes_on_ring(rings: &Vec<usize>, r: usize) -> (v: Vec<usize>)
    ensures
        forall|k: int| 0 <= k < v@.len() ==> (#[trigger] v@[k]) < rings@.len() && rings@[v@[k] as int] == r,
        forall|i: int| 0 <= i < rings@.len() && rings@[i] == r ==> v@.contains(i as usize),
{
    let mut v: Vec<usize> = Vec::new();
    let mut i: usize = 0;
    while i < rings.len()
        invariant
            i <= rings@.len(),
            forall|k: int| 0 <= k < v@.len() ==> (#[trigger] v@[k]) < i && rings@[v@[k] as int] == r,
            forall|j: int| 0 <= j < i && rings@[j] == r ==> v@.contains(j as usize),
        decreases rings@.len() - i,
    {
        if rings[i] == r {
            let ghost before = v@;
            v.push(i);
            proof {
                assert forall|j: int| 0 <= j < i + 1 && rings@[j] == r implies v@.contains(j as usize) by {
                    if j == i {
                        assert(v@[before.len() as int] == i);
                    } else {
                        let k = choose|k: int| 0 <= k < before.len() && before[k] == j as usize;
                        assert(v@[k] == before[k]);
                    }
                }
            }
        }
        i += 1;
    }
    v
}

/// Grows one ring: the first ring is 1 to 3 children of the root spread
/// around it; each later ring gives every node of the current ring 1 or 2
/// children, until the tree has `count` nodes.
fn grow_ring(t: &mut TreeBuild, current: usize, count: usize, slot: EquipSlot, ps: usize, s: u64) -> (next: u64)
    requires
        old(t).sound(slot),
        old(t).nodes@.len() < count <= 20,
        ps == pool_size_spec(slot),
        current < 20,
        exists|i: int| 0 <= i < old(t).rings@.len() && old(t).rings@[i] == current,
        forall|i: int| 0 <= i < old(t).rings@.len() ==> (#[trigger] old(t).rings@[i]) <= current,
        current == 0 ==> forall|i: int| 0 < i < old(t).rings@.len() ==> (#[trigger] old(t).rings@[i]) > 0,
    ensures
        final(t).sound(slot),
        old(t).nodes@.len() < final(t).nodes@.len() <= count,
        forall|i: int| 0 <= i < final(t).rings@.len() ==> (#[trigger] final(t).rings@[i]) <= current + 1,
        exists|i: int| 0 <= i < final(t).rings@.len() && final(t).rings@[i] == current + 1,
        forall|i: int| 0 < i < final(t).rings@.len() ==> (#[trigger] final(t).rings@[i]) > 0,
{
    let ring_nodes = nodes_on_ring(&t.rings, current);
    let ghost start_rings = t.rings@;
    let next_ring = current + 1;
    let mut s = s;
    let start = t.nodes.len();
    if current == 0 {
        let remaining = count - t.nodes.len();
        let (rc, s1) = splitmix(s);
        s = s1;
        let want = 1 + (rc as usize % 3);
        let num = if want < remaining { want } else { remaining };
        let (r_rot, s2) = splitmix(s);
        s = s2;
        let mut c: usize = 0;
        while c < num
            invariant
                t.sound(slot),
                t.nodes@.len() == start + c,
                start < count <= 20,
                1 <= num <= count - start,
                c <= num,
                ps == pool_size_spec(slot),
                next_ring == 1,
                forall|i: int| 0 <= i < t.rings@.len() ==> (#[trigger] t.rings@[i]) <= 1,
                forall|i: int| 0 < i < start ==> (#[trigger] t.rings@[i]) > 0,
                forall|i: int| start <= i < t.rings@.len() ==> (#[trigger] t.rings@[i]) == 1,
                t.rings@[0] == 0,
            decreases num - c,
        {
            s = add_child(t, 0, next_ring, NodeLayout::FirstRing { turn: r_rot % 1000, slot: c, of: num }, slot, ps, s);
            c += 1;
        }
        assert(t.rings@[start as int] == 1);
    } else {
        let mut p: usize = 0;
        while p < ring_nodes.len()
            invariant
                t.sound(slot),
                start <= t.nodes@.len() <= count <= 20,
                start < count,
                p > 0 ==> t.nodes@.len() > start,
                ps == pool_size_spec(slot),
                next_ring == current + 1,
                current < 20,
                forall|k: int| 0 <= k < ring_nodes@.len() ==> (#[trigger] ring_nodes@[k]) < start,
                forall|k: int| 0 <= k < ring_nodes@.len() ==> t.rings@[(#[trigger] ring_nodes@[k]) as int] == current,
                ring_nodes@.len() > 0,
                forall|i: int| 0 <= i < start ==> (#[trigger] t.rings@[i]) <= current,
                forall|i: int| 0 < i < start ==> (#[trigger] t.rings@[i]) > 0,
                forall|i: int| start <= i < t.rings@.len() ==> (#[trigger] t.rings@[i]) == next_ring,
                start_rings.len() == start,
                forall|i: int| 0 <= i < start ==> (#[trigger] t.rings@[i]) == start_rings[i],
                forall|k: int| 0 <= k < ring_nodes@.len() ==> start_rings[(#[trigger] ring_nodes@[k]) as int] == current,
            ensures
                t.nodes@.len() > start,
            decreases ring_nodes@.len() - p,
        {
            if t.nodes.len() >= count {
                break;
            }
            let parent = ring_nodes[p];
            let remaining = count - t.nodes.len();
            let (rc, s1) = splitmix(s);
            s = s1;
            let want = 1 + (rc as usize % 2);
            let num = if want < remaining { want } else { remaining };
            let before = t.nodes.len();
            let mut c: usize = 0;
            while c < num
                invariant
                    t.sound(slot),
                    t.nodes@.len() == before + c,
                    start <= before < count <= 20,
                    1 <= num <= count - before,
                    c <= num,
                    ps == pool_size_spec(slot),
                    next_ring == current + 1,
                    parent < start,
                    t.rings@[parent as int] == current,
                    forall|i: int| 0 <= i < start ==> (#[trigger] t.rings@[i]) <= current,
                    forall|i: int| 0 < i < start ==> (#[trigger] t.rings@[i]) > 0,
                    forall|i: int| start <= i < t.rings@.len() ==> (#[trigger] t.rings@[i]) == next_ring,
                    start_rings.len() == start,
                    forall|i: int| 0 <= i < start ==> (#[trigger] t.rings@[i]) == start_rings[i],
                decreases num - c,
            {
                s = add_child(
                    t,
                    parent,
                    next_ring,
                    NodeLayout::Branch { parent, parent_ring: current, slot: c, of: num },
                    slot,
                    ps,
                    s,
                );
                c += 1;
            }
            p += 1;
        }
        assert(t.nodes@.len() > start);
        assert(t.rings@[start as int] == next_ring);
    }
    s
}

/// A tree of just the root, drawn from the generator state `s`.
fn root_only(slot: EquipSlot, ps: usize, s: u64) -> (r: (TreeBuild, u64))
    requires
        ps == pool_size_spec(slot),
    ensures
        r.0.sound(slot),
        r.0.nodes@.len() == 1,
{
    let (r_e, s1) = splitmix(s);
    let eidx = (r_e as usize) % ps;
    let (r2, s2) = splitmix(s1);
    let effect = generate_effect(slot, eidx, r2);
    let (r3, s3) = splitmix(s2);
    let name = gen_name(slot, r3);
    let mut t = TreeBuild { nodes: Vec::new(), edges: Vec::new(), rings: Vec::new() };
    t.nodes.push(make_node(name, effect, 0, NodeLayout::Root));
    t.edges.push(Vec::new());
    t.rings.push(0);
    proof {
        assert(t.nodes@[0].effect == effect_spec(slot, eidx, r2));
        assert(t.nodes@[0].name@ == name_spec(slot, r3));
    }
    (t, s3)
}

/// The finished tree: the root unlocked, no XP banked.
#[verifier::rlimit(40)]
fn finish_tree(t: TreeBuild, slot: EquipSlot) -> (st: CrucibleState)
    requires
        t.sound(slot),
    ensures
        grown_tree(st, slot, t.nodes@.len() as int),
{
    proof {
        lemma_rings_are_depths(&t, slot);
    }
    let allocated = root_unlocked(t.nodes.len());
    CrucibleState { nodes: t.nodes, edges: t.edges, allocated, xp: 0, emergency_used: false, kinetic_stored: 0 }
}

/// Unlock flags for `n` nodes: the root only.
fn root_unlocked(n: usize) -> (v: Vec<bool>)
    requires
        n >= 1,
    ensures
        v@.len() == n,
        v@[0],
        forall|j: int| 0 < j < n ==> !(#[trigger] v@[j]),
{
    let mut v: Vec<bool> = Vec::new();
    v.push(true);
    let mut i: usize = 1;
    while i < n
        invariant
            1 <= i <= n,
            v@.len() == i,
            v@[0],
            forall|j: int| 0 < j < i ==> !(#[trigger] v@[j]),
        decreases n - i,
    {
        v.push(false);
        i += 1;
    }
    v
}

impl CrucibleState {
    /// Grows the tree for `slot` and `rarity` from `seed`: a root, unlocked
    /// and free, then rings of children until the rarity's node count
    /// (3-5, 6-9, 10-14 or 15-20, picked by the seed) is reached. Effects,
    /// amounts and names all come from one splitmix stream.
    pub fn generate(slot: EquipSlot, rarity: ItemRarity, seed: u64) -> (st: Self)
        ensures
            grown_tree(st, slot, tree_size(rarity, seed) as int),
    {
        let (lo, hi): (usize, usize) = match rarity {
            ItemRarity::Normal => (3, 5),
            ItemRarity::Magic => (6, 9),
            ItemRarity::Rare => (10, 14),
            ItemRarity::Unique => (15, 20),
        };
        let (r, s0) = splitmix(seed);
        let count = lo + (r as usize % (hi - lo + 1));
        let ps = pool_size(slot);
        let (mut t, mut s) = root_only(slot, ps, s0);
        let mut current: usize = 0;
        while t.nodes.len() < count
            invariant
                t.sound(slot),
                t.nodes@.len() <= count,
                3 <= count <= 20,
                ps == pool_size_spec(slot),
                current <= t.nodes@.len(),
                t.nodes@.len() < count ==> exists|i: int| 0 <= i < t.rings@.len() && t.rings@[i] == current,
                forall|i: int| 0 <= i < t.rings@.len() ==> (#[trigger] t.rings@[i]) <= current,
                current == 0 ==> forall|i: int| 0 < i < t.rings@.len() ==> (#[trigger] t.rings@[i]) > 0,
            decreases count - t.nodes@.len(),
        {
            s = grow_ring(&mut t, current, count, slot, ps, s);
            current = current + 1;
        }
        finish_tree(t, slot)
    }
}

/// The ring recorded for each node is its depth in the tree.
proof fn lemma_rings_are_depths(t: &TreeBuild, slot: EquipSlot)
    requires
        t.sound(slot),
    ensures
        forall|i: int| 0 <= i < t.rings@.len() ==> (#[trigger] t.rings@[i]) == depth(t.edges@, i),
{
    assert forall|i: int| 0 <= i < t.rings@.len() implies (#[trigger] t.rings@[i]) == depth(t.edges@, i) by {
        lemma_ring_depth(t, slot, i);
    }
}

proof fn lemma_ring_depth(t: &TreeBuild, slot: EquipSlot, i: int)
    requires
        t.sound(slot),
        0 <= i < t.rings@.len(),
    ensures
        t.rings@[i] == depth(t.edges@, i),
    decreases i,
{
    if i > 0 {
        let p = t.edges@[i]@[0] as int;
        assert(t.edges@[i]@.len() >= 1 && p < i);
        lemma_ring_depth(t, slot, p);
    }
}

/// Generated trees are connected: every node can be reached from the root
/// along the tree's edges.
pub proof fn lemma_generated_tree_connected(st: CrucibleState, slot: EquipSlot, n: int, i: int)
    requires
        grown_tree(st, slot, n),
        n <= 20,
        0 <= i < n,
    ensures
        exists|p: Seq<usize>| root_path(st.edges@, p) && p.last() == i,
{
    lemma_tree_connected(n, st.edges@, i);
}

/// Multiplicative hash of a name's bytes, wrapping in 64 bits.
pub open spec fn name_hash64(bytes: Seq<u8>) -> u64
    decreases bytes.len(),
{
    if bytes.len() == 0 {
        0
    } else {
        name_hash64(bytes.drop_last()).wrapping_mul(31).wrapping_add(bytes.last() as u64)
    }
}

impl CrucibleState {
    /// The tree of a piece of equipment: a normal-rarity tree for its slot,
    /// seeded by a hash of its name.
    pub fn for_equipment(equipment: &Equipment) -> (st: Self)
        ensures
            grown_tree(st, equipment.slot, tree_size(ItemRarity::Normal, name_hash64(encode_utf8(equipment.name@))) as int),
    {
        let bytes = equipment.name.as_str().as_bytes_vec();
        let mut hash: u64 = 0;
        let mut i: usize = 0;
        while i < bytes.len()
            invariant
                i <= bytes.len(),
                bytes@ == encode_utf8(equipment.name@),
                hash == name_hash64(bytes@.take(i as int)),
            decreases bytes.len() - i,
        {
            proof {
                assert(bytes@.take(i + 1).drop_last() =~= bytes@.take(i as int));
            }
            hash = hash.wrapping_mul(31).wrapping_add(bytes[i] as u64);
            i += 1;
        }
        proof {
            assert(bytes@.take(i as int) =~= bytes@);
        }
        Self::generate(equipment.slot, ItemRarity::Normal, hash)
    }
}

// ── Totals across equipped items ─────────────────────────────────────────────

/// Effects of all unlocked nodes of the given trees, tree by tree.
pub open spec fn all_effects(states: Seq<&CrucibleState>) -> Seq<CrucibleEffect>
    decreases states.len(),
{
    if states.len() == 0 {
        Seq::empty()
    } else {
        all_effects(states.drop_last()) + states.last().active_spec()
    }
}

/// Every tree is well formed.
pub open spec fn all_wf(states: Seq<&CrucibleState>) -> bool {
    forall|i: int| 0 <= i < states.len() ==> (#[trigger] states[i]).wf()
}

fn flat_effects(states: &[&CrucibleState]) -> (v: Vec<CrucibleEffect>)
    requires
        all_wf(states@),
    ensures
        v@ == all_effects(states@),
{
    let mut v: Vec<CrucibleEffect> = Vec::new();
    let mut i: usize = 0;
    while i < states.len()
        invariant
            all_wf(states@),
            i <= states@.len(),
            v@ == all_effects(states@.take(i as int)),
        decreases states@.len() - i,
    {
        let es = states[i].active_effects();
        let ghost base = v@;
        let mut k: usize = 0;
        while k < es.len()
            invariant
                k <= es@.len(),
                v@ == base + es@.take(k as int),
            decreases es@.len() - k,
        {
            v.push(es[k]);
            proof {
                assert(es@.take(k + 1) =~= es@.take(k as int).push(es@[k as int]));
            }
            k += 1;
        }
        proof {
            assert(es@.take(k as int) =~= es@);
            assert(states@.take(i + 1).drop_last() =~= states@.take(i as int));
        }
        i += 1;
    }
    proof {
        assert(states@.take(i as int) =~= states@);
    }
    v
}

/// Effects that trees add up across items.
#[derive(Clone, Copy, PartialEq, Eq, Debug, Structural)]
pub enum Tally {
    BonusDamage,
    BonusArmor,
    MaxHp,
    CritChance,
    SpellPower,
    DodgeChance,
    GoldFind,
    RadicalFind,
    FocusRegen,
    LifeSteal,
    HealOnKill,
    ArmorPierce,
    HardAnswerDamage,
    HardAnswerHeal,
    DoubleStrike,
    MovementBonus,
    FocusOnKill,
    EmergencyRepair,
}

/// What `e` adds to the total of `t`.
pub open spec fn amount(e: CrucibleEffect, t: Tally) -> int {
    match t {
        Tally::BonusDamage => if let CrucibleEffect::BonusDamage(n) = e { n as int } else { 0 },
        Tally::BonusArmor => if let CrucibleEffect::BonusArmor(n) = e { n as int } else { 0 },
        Tally::MaxHp => if let CrucibleEffect::MaxHp(n) = e { n as int } else { 0 },
        Tally::CritChance => if let CrucibleEffect::CritChance(n) = e { n as int } else { 0 },
        Tally::SpellPower => if let CrucibleEffect::SpellPower(n) = e { n as int } else { 0 },
        Tally::DodgeChance => if let CrucibleEffect::DodgeChance(n) = e { n as int } else { 0 },
        Tally::GoldFind => if let CrucibleEffect::GoldFind(n) = e { n as int } else { 0 },
        Tally::RadicalFind => if let CrucibleEffect::RadicalFind(n) = e { n as int } else { 0 },
        Tally::FocusRegen => if let CrucibleEffect::FocusRegen(n) = e { n as int } else { 0 },
        Tally::LifeSteal => if let CrucibleEffect::LifeSteal(n) = e { n as int } else { 0 },
        Tally::HealOnKill => if let CrucibleEffect::HealOnKill(n) = e { n as int } else { 0 },
        Tally::ArmorPierce => if let CrucibleEffect::ArmorPierce(n) = e { n as int } else { 0 },
        Tally::HardAnswerDamage => if let CrucibleEffect::HardAnswerDamage(n) = e { n as int } else { 0 },
        Tally::HardAnswerHeal => if let CrucibleEffect::HardAnswerHeal(n) = e { n as int } else { 0 },
        Tally::DoubleStrike => if let CrucibleEffect::DoubleStrike(n) = e { n as int } else { 0 },
        Tally::MovementBonus => if let CrucibleEffect::MovementBonus(n) = e { n as int } else { 0 },
        Tally::FocusOnKill => if let CrucibleEffect::FocusOnKill(n) = e { n as int } else { 0 },
        Tally::EmergencyRepair => if let CrucibleEffect::EmergencyRepair(n) = e { n as int } else { 0 },
    }
}

fn amount_of(e: CrucibleEffect, t: Tally) -> (r: i32)
    ensures
        r == amount(e, t),
{
    match t {
        Tally::BonusDamage => if let CrucibleEffect::BonusDamage(n) = e { n } else { 0 },
        Tally::BonusArmor => if let CrucibleEffect::BonusArmor(n) = e { n } else { 0 },
        Tally::MaxHp => if let CrucibleEffect::MaxHp(n) = e { n } else { 0 },
        Tally::CritChance => if let CrucibleEffect::CritChance(n) = e { n } else { 0 },
        Tally::SpellPower => if let CrucibleEffect::SpellPower(n) = e { n } else { 0 },
        Tally::DodgeChance => if let CrucibleEffect::DodgeChance(n) = e { n } else { 0 },
        Tally::GoldFind => if let CrucibleEffect::GoldFind(n) = e { n } else { 0 },
        Tally::RadicalFind => if let CrucibleEffect::RadicalFind(n) = e { n } else { 0 },
        Tally::FocusRegen => if let CrucibleEffect::FocusRegen(n) = e { n } else { 0 },
        Tally::LifeSteal => if let CrucibleEffect::LifeSteal(n) = e { n } else { 0 },
        Tally::HealOnKill => if let CrucibleEffect::HealOnKill(n) = e { n } else { 0 },
        Tally::ArmorPierce => if let CrucibleEffect::ArmorPierce(n) = e { n } else { 0 },
        Tally::HardAnswerDamage => if let CrucibleEffect::HardAnswerDamage(n) = e { n } else { 0 },
        Tally::HardAnswerHeal => if let CrucibleEffect::HardAnswerHeal(n) = e { n } else { 0 },
        Tally::DoubleStrike => if let CrucibleEffect::DoubleStrike(n) = e { n } else { 0 },
        Tally::MovementBonus => if let CrucibleEffect::MovementBonus(n) = e { n } else { 0 },
        Tally::FocusOnKill => if let CrucibleEffect::FocusOnKill(n) = e { n } else { 0 },
        Tally::EmergencyRepair => if let CrucibleEffect::EmergencyRepair(n) = e { n } else { 0 },
    }
}

/// Sum of `t` over `es`.
pub open spec fn total(es: Seq<CrucibleEffect>, t: Tally) -> int
    decreases es.len(),
{
    if es.len() == 0 {
        0
    } else {
        total(es.drop_last(), t) + amount(es.last(), t)
    }
}

/// The effect that tally `t` adds up, carrying amount `n`.
pub open spec fn tally_effect(t: Tally, n: i32) -> CrucibleEffect {
    match t {
        Tally::BonusDamage => CrucibleEffect::BonusDamage(n),
        Tally::BonusArmor => CrucibleEffect::BonusArmor(n),
        Tally::MaxHp => CrucibleEffect::MaxHp(n),
        Tally::CritChance => CrucibleEffect::CritChance(n),
        Tally::SpellPower => CrucibleEffect::SpellPower(n),
        Tally::DodgeChance => CrucibleEffect::DodgeChance(n),
        Tally::GoldFind => CrucibleEffect::GoldFind(n),
        Tally::RadicalFind => CrucibleEffect::RadicalFind(n),
        Tally::FocusRegen => CrucibleEffect::FocusRegen(n),
        Tally::LifeSteal => CrucibleEffect::LifeSteal(n),
        Tally::HealOnKill => CrucibleEffect::HealOnKill(n),
        Tally::ArmorPierce => CrucibleEffect::ArmorPierce(n),
        Tally::HardAnswerDamage => CrucibleEffect::HardAnswerDamage(n),
        Tally::HardAnswerHeal => CrucibleEffect::HardAnswerHeal(n),
        Tally::DoubleStrike => CrucibleEffect::DoubleStrike(n),
        Tally::MovementBonus => CrucibleEffect::MovementBonus(n),
        Tally::FocusOnKill => CrucibleEffect::FocusOnKill(n),
        Tally::EmergencyRepair => CrucibleEffect::EmergencyRepair(n),
    }
}

/// Each total counts only its own effect: a single effect of tally `t` with
/// amount `n` adds `n` to the total of `t` and nothing to any other total
/// (so armor bonuses never count as damage, nor damage as armor).
pub proof fn lemma_total_counts_own_effect(t: Tally, u: Tally, n: i32)
    ensures
        total(seq![tally_effect(t, n)], u) == if t == u { n as int } else { 0 },
{
    let es = seq![tally_effect(t, n)];
    assert(es.drop_last() =~= Seq::<CrucibleEffect>::empty());
    assert(es.last() == tally_effect(t, n));
    assert(total(es, u) == total(es.drop_last(), u) + amount(es.last(), u));
    assert(total(Seq::<CrucibleEffect>::empty(), u) == 0);
}

/// Effects without an amount (procs and specials) add to no total.
pub proof fn lemma_total_ignores_procs(e: CrucibleEffect, t: Tally)
    requires
        e is BurnOnHit || e is PoisonOnHit || e is ShieldOnKill || e is ComboExtender || e is OverchargeProc
            || e is KineticAbsorber || e is NeuralSync || e is TemporalFlux,
    ensures
        total(seq![e], t) == 0,
{
    let es = seq![e];
    assert(es.drop_last() =~= Seq::<CrucibleEffect>::empty());
    assert(es.last() == e);
    assert(total(es, t) == total(es.drop_last(), t) + amount(es.last(), t));
    assert(total(Seq::<CrucibleEffect>::empty(), t) == 0);
}

/// The total over two lists joined is the sum of their totals.
pub proof fn lemma_total_append(a: Seq<CrucibleEffect>, b: Seq<CrucibleEffect>, t: Tally)
    ensures
        total(a + b, t) == total(a, t) + total(b, t),
    decreases b.len(),
{
    if b.len() == 0 {
        assert(a + b =~= a);
    } else {
        assert((a + b).drop_last() =~= a + b.drop_last());
        lemma_total_append(a, b.drop_last(), t);
    }
}

/// Every running total of `t` over `es` stays within `i32`.
pub open spec fn running_totals_fit(es: Seq<CrucibleEffect>, t: Tally) -> bool {
    forall|k: int| 0 <= k <= es.len() ==> i32::MIN <= #[trigger] total(es.take(k), t) <= i32::MAX
}

/// Sum of `t` over the unlocked nodes of all trees.
pub fn sum_tally(states: &[&CrucibleState], t: Tally) -> (r: i32)
    requires
        all_wf(states@),
        running_totals_fit(all_effects(states@), t),
    ensures
        r == total(all_effects(states@), t),
{
    let es = flat_effects(states);
    let mut acc: i32 = 0;
    let mut k: usize = 0;
    assert(es@.take(0) =~= Seq::<CrucibleEffect>::empty());
    while k < es.len()
        invariant
            k <= es@.len(),
            running_totals_fit(es@, t),
            acc == total(es@.take(k as int), t),
        decreases es@.len() - k,
    {
        proof {
            assert(es@.take(k + 1).drop_last() =~= es@.take(k as int));
            assert(i32::MIN <= total(es@.take(k + 1), t) <= i32::MAX);
        }
        acc = acc + amount_of(es[k], t);
        k += 1;
    }
    proof {
        assert(es@.take(k as int) =~= es@);
    }
    acc
}

/// Total `BonusDamage` of the unlocked nodes of all trees.
pub fn aggregate_bonus_damage(states: &[&CrucibleState]) -> (r: i32)
    requires
        all_wf(states@),
        running_totals_fit(all_effects(states@), Tally::BonusDamage),
    ensures
        r == total(all_effects(states@), Tally::BonusDamage),
{
    sum_tally(states, Tally::BonusDamage)
}

/// Total `BonusArmor` of the unlocked nodes of all trees.
pub fn aggregate_bonus_armor(states: &[&CrucibleState]) -> (r: i32)
    requires
        all_wf(states@),
        running_totals_fit(all_effects(states@), Tally::BonusArmor),
    ensures
        r == total(all_effects(states@), Tally::BonusArmor),
{
    sum_tally(states, Tally::BonusArmor)
}

/// Total `MaxHp` of the unlocked nodes of all trees.
pub fn aggregate_max_hp(states: &[&CrucibleState]) -> (r: i32)
    requires
        all_wf(states@),
        running_totals_fit(all_effects(states@), Tally::MaxHp),
    ensures
        r == total(all_effects(states@), Tally::MaxHp),
{
    sum_tally(states, Tally::MaxHp)
}

/// Total `CritChance` of the unlocked nodes of all trees.
pub fn aggregate_crit_chance(states: &[&CrucibleState]) -> (r: i32)
    requires
        all_wf(states@),
        running_totals_fit(all_effects(states@), Tally::CritChance),
    ensures
        r == total(all_effects(states@), Tally::CritChance),
{
    sum_tally(states, Tally::CritChance)
}

/// Total `SpellPower` of the unlocked nodes of all trees.
pub fn aggregate_spell_power(states: &[&CrucibleState]) -> (r: i32)
    requires
        all_wf(states@),
        running_totals_fit(all_effects(states@), Tally::SpellPower),
    ensures
        r == total(all_effects(states@), Tally::SpellPower),
{
    sum_tally(states, Tally::SpellPower)
}

/// Total `DodgeChance` of the unlocked nodes of all trees.
pub fn aggregate_dodge_chance(states: &[&CrucibleState]) -> (r: i32)
    requires
        all_wf(states@),
        running_totals_fit(all_effects(states@), Tally::DodgeChance),
    ensures
        r == total(all_effects(states@), Tally::DodgeChance),
{
    sum_tally(states, Tally::DodgeChance)
}

/// Total `GoldFind` of the unlocked nodes of all trees.
pub fn aggregate_gold_find(states: &[&CrucibleState]) -> (r: i32)
    requires
        all_wf(states@),
        running_totals_fit(all_effects(states@), Tally::GoldFind),
    ensures
        r == total(all_effects(states@), Tally::GoldFind),
{
    sum_tally(states, Tally::GoldFind)
}

/// Total `RadicalFind` of the unlocked nodes of all trees.
pub fn aggregate_radical_find(states: &[&CrucibleState]) -> (r: i32)
    requires
        all_wf(states@),
        running_totals_fit(all_effects(states@), Tally::RadicalFind),
    ensures
        r == total(all_effects(states@), Tally::RadicalFind),
{
    sum_tally(states, Tally::RadicalFind)
}

/// Total `FocusRegen` of the unlocked nodes of all trees.
pub fn aggregate_focus_regen(states: &[&CrucibleState]) -> (r: i32)
    requires
        all_wf(states@),
        running_totals_fit(all_effects(states@), Tally::FocusRegen),
    ensures
        r == total(all_effects(states@), Tally::FocusRegen),
{
    sum_tally(states, Tally::FocusRegen)
}

/// Total `LifeSteal` of the unlocked nodes of all trees.
pub fn aggregate_lifesteal(states: &[&CrucibleState]) -> (r: i32)
    requires
        all_wf(states@),
        running_totals_fit(all_effects(states@), Tally::LifeSteal),
    ensures
        r == total(all_effects(states@), Tally::LifeSteal),
{
    sum_tally(states, Tally::LifeSteal)
}

/// Total `HealOnKill` of the unlocked nodes of all trees.
pub fn aggregate_heal_on_kill(states: &[&CrucibleState]) -> (r: i32)
    requires
        all_wf(states@),
        running_totals_fit(all_effects(states@), Tally::HealOnKill),
    ensures
        r == total(all_effects(states@), Tally::HealOnKill),
{
    sum_tally(states, Tally::HealOnKill)
}

/// Total `ArmorPierce` of the unlocked nodes of all trees.
pub fn aggregate_armor_pierce(states: &[&CrucibleState]) -> (r: i32)
    requires
        all_wf(states@),
        running_totals_fit(all_effects(states@), Tally::ArmorPierce),
    ensures
        r == total(all_effects(states@), Tally::ArmorPierce),
{
    sum_tally(states, Tally::ArmorPierce)
}

/// Total `HardAnswerDamage` of the unlocked nodes of all trees.
pub fn aggregate_hard_answer_damage(states: &[&CrucibleState]) -> (r: i32)
    requires
        all_wf(states@),
        running_totals_fit(all_effects(states@), Tally::HardAnswerDamage),
    ensures
        r == total(all_effects(states@), Tally::HardAnswerDamage),
{
    sum_tally(states, Tally::HardAnswerDamage)
}

/// Total `HardAnswerHeal` of the unlocked nodes of all trees.
pub fn aggregate_hard_answer_heal(states: &[&CrucibleState]) -> (r: i32)
    requires
        all_wf(states@),
        running_totals_fit(all_effects(states@), Tally::HardAnswerHeal),
    ensures
        r == total(all_effects(states@), Tally::HardAnswerHeal),
{
    sum_tally(states, Tally::HardAnswerHeal)
}

/// Total `DoubleStrike` of the unlocked nodes of all trees.
pub fn aggregate_double_strike(states: &[&CrucibleState]) -> (r: i32)
    requires
        all_wf(states@),
        running_totals_fit(all_effects(states@), Tally::DoubleStrike),
    ensures
        r == total(all_effects(states@), Tally::DoubleStrike),
{
    sum_tally(states, Tally::DoubleStrike)
}

/// Total `MovementBonus` of the unlocked nodes of all trees.
pub fn aggregate_movement_bonus(states: &[&CrucibleState]) -> (r: i32)
    requires
        all_wf(states@),
        running_totals_fit(all_effects(states@), Tally::MovementBonus),
    ensures
        r == total(all_effects(states@), Tally::MovementBonus),
{
    sum_tally(states, Tally::MovementBonus)
}

/// Total `FocusOnKill` of the unlocked nodes of all trees.
pub fn aggregate_focus_on_kill(states: &[&CrucibleState]) -> (r: i32)
    requires
        all_wf(states@),
        running_totals_fit(all_effects(states@), Tally::FocusOnKill),
    ensures
        r == total(all_effects(states@), Tally::FocusOnKill),
{
    sum_tally(states, Tally::FocusOnKill)
}

/// Total `EmergencyRepair` of the unlocked nodes of all trees.
pub fn emergency_repair_amount(states: &[&CrucibleState]) -> (r: i32)
    requires
        all_wf(states@),
        running_totals_fit(all_effects(states@), Tally::EmergencyRepair),
    ensures
        r == total(all_effects(states@), Tally::EmergencyRepair),
{
    sum_tally(states, Tally::EmergencyRepair)
}

/// Effects that a tree either has or has not.
#[derive(Clone, Copy, PartialEq, Eq, Debug, Structural)]
pub enum Flag {
    ComboExtender,
    OverchargeProc,
    ShieldOnKill,
    NeuralSync,
    TemporalFlux,
    KineticAbsorber,
}

/// `e` is the effect `f` names.
pub open spec fn is_flag(e: CrucibleEffect, f: Flag) -> bool {
    match f {
        Flag::ComboExtender => e is ComboExtender,
        Flag::OverchargeProc => e is OverchargeProc,
        Flag::ShieldOnKill => e is ShieldOnKill,
        Flag::NeuralSync => e is NeuralSync,
        Flag::TemporalFlux => e is TemporalFlux,
        Flag::KineticAbsorber => e is KineticAbsorber,
    }
}

fn flag_of(e: CrucibleEffect, f: Flag) -> (b: bool)
    ensures
        b == is_flag(e, f),
{
    match f {
        Flag::ComboExtender => matches!(e, CrucibleEffect::ComboExtender),
        Flag::OverchargeProc => matches!(e, CrucibleEffect::OverchargeProc),
        Flag::ShieldOnKill => matches!(e, CrucibleEffect::ShieldOnKill),
        Flag::NeuralSync => matches!(e, CrucibleEffect::NeuralSync),
        Flag::TemporalFlux => matches!(e, CrucibleEffect::TemporalFlux),
        Flag::KineticAbsorber => matches!(e, CrucibleEffect::KineticAbsorber),
    }
}

/// Whether some unlocked node of some tree has the effect `f`.
pub fn has_effect(states: &[&CrucibleState], f: Flag) -> (b: bool)
    requires
        all_wf(states@),
    ensures
        b == exists|k: int| 0 <= k < all_effects(states@).len() && is_flag(all_effects(states@)[k], f),
{
    let es = flat_effects(states);
    let mut k: usize = 0;
    while k < es.len()
        invariant
            k <= es@.len(),
            es@ == all_effects(states@),
            forall|j: int| 0 <= j < k ==> !is_flag(es@[j], f),
        decreases es@.len() - k,
    {
        if flag_of(es[k], f) {
            assert(is_flag(es@[k as int], f));
            return true;
        }
        k += 1;
    }
    false
}

/// Whether some unlocked node of some tree has `ComboExtender`.
pub fn has_combo_extender(states: &[&CrucibleState]) -> (b: bool)
    requires
        all_wf(states@),
    ensures
        b == exists|k: int| 0 <= k < all_effects(states@).len() && is_flag(all_effects(states@)[k], Flag::ComboExtender),
{
    has_effect(states, Flag::ComboExtender)
}

/// Whether some unlocked node of some tree has `OverchargeProc`.
pub fn has_overcharge_proc(states: &[&CrucibleState]) -> (b: bool)
    requires
        all_wf(states@),
    ensures
        b == exists|k: int| 0 <= k < all_effects(states@).len() && is_flag(all_effects(states@)[k], Flag::OverchargeProc),
{
    has_effect(states, Flag::OverchargeProc)
}

/// Whether some unlocked node of some tree has `ShieldOnKill`.
pub fn has_shield_on_kill(states: &[&CrucibleState]) -> (b: bool)
    requires
        all_wf(states@),
    ensures
        b == exists|k: int| 0 <= k < all_effects(states@).len() && is_flag(all_effects(states@)[k], Flag::ShieldOnKill),
{
    has_effect(states, Flag::ShieldOnKill)
}

/// Whether some unlocked node of some tree has `NeuralSync`.
pub fn has_neural_sync(states: &[&CrucibleState]) -> (b: bool)
    requires
        all_wf(states@),
    ensures
        b == exists|k: int| 0 <= k < all_effects(states@).len() && is_flag(all_effects(states@)[k], Flag::NeuralSync),
{
    has_effect(states, Flag::NeuralSync)
}

/// Whether some unlocked node of some tree has `TemporalFlux`.
pub fn has_temporal_flux(states: &[&CrucibleState]) -> (b: bool)
    requires
        all_wf(states@),
    ensures
        b == exists|k: int| 0 <= k < all_effects(states@).len() && is_flag(all_effects(states@)[k], Flag::TemporalFlux),
{
    has_effect(states, Flag::TemporalFlux)
}

/// Whether some unlocked node of some tree has `KineticAbsorber`.
pub fn has_kinetic_absorber(states: &[&CrucibleState]) -> (b: bool)
    requires
        all_wf(states@),
    ensures
        b == exists|k: int| 0 <= k < all_effects(states@).len() && is_flag(all_effects(states@)[k], Flag::KineticAbsorber),
{
    has_effect(states, Flag::KineticAbsorber)
}

/// The damage and turns of the first on-hit proc (poison or burn as
/// `poison` says) among `es`.
pub open spec fn first_proc(es: Seq<CrucibleEffect>, poison: bool) -> Option<(i32, i32)>
    decreases es.len(),
{
    if es.len() == 0 {
        None
    } else {
        match (es[0], poison) {
            (CrucibleEffect::BurnOnHit { damage, turns }, false) => Some((damage, turns)),
            (CrucibleEffect::PoisonOnHit { damage, turns }, true) => Some((damage, turns)),
            _ => first_proc(es.drop_first(), poison),
        }
    }
}

fn first_proc_of(states: &[&CrucibleState], poison: bool) -> (r: Option<(i32, i32)>)
    requires
        all_wf(states@),
    ensures
        r == first_proc(all_effects(states@), poison),
{
    let es = flat_effects(states);
    let mut k: usize = 0;
    assert(es@.skip(0) =~= es@);
    while k < es.len()
        invariant
            k <= es@.len(),
            es@ == all_effects(states@),
            first_proc(es@, poison) == first_proc(es@.skip(k as int), poison),
        decreases es@.len() - k,
    {
        proof {
            assert(es@.skip(k as int).drop_first() =~= es@.skip(k + 1));
            assert(es@.skip(k as int)[0] == es@[k as int]);
        }
        match es[k] {
            CrucibleEffect::BurnOnHit { damage, turns } => {
                if !poison {
                    assert(es@.skip(k as int).len() > 0);
                    assert(first_proc(es@.skip(k as int), poison) == Some((damage, turns)));
                    return Some((damage, turns));
                }
            },
            CrucibleEffect::PoisonOnHit { damage, turns } => {
                if poison {
                    assert(es@.skip(k as int).len() > 0);
                    assert(first_proc(es@.skip(k as int), poison) == Some((damage, turns)));
                    return Some((damage, turns));
                }
            },
            _ => {},
        }
        k += 1;
    }
    None
}

/// The effect a flag stands for.
pub open spec fn flag_effect(f: Flag) -> CrucibleEffect {
    match f {
        Flag::ComboExtender => CrucibleEffect::ComboExtender,
        Flag::OverchargeProc => CrucibleEffect::OverchargeProc,
        Flag::ShieldOnKill => CrucibleEffect::ShieldOnKill,
        Flag::NeuralSync => CrucibleEffect::NeuralSync,
        Flag::TemporalFlux => CrucibleEffect::TemporalFlux,
        Flag::KineticAbsorber => CrucibleEffect::KineticAbsorber,
    }
}

/// A flag is raised by its own effect and by no other.
pub proof fn lemma_flag_matches_only_its_effect(e: CrucibleEffect, f: Flag)
    ensures
        is_flag(e, f) == (e == flag_effect(f)),
{
}

/// The proc a search looks for: poison-on-hit when `poison`, else burn-on-hit,
/// with damage `d` over `t` turns.
pub open spec fn proc_effect(poison: bool, d: i32, t: i32) -> CrucibleEffect {
    if poison {
        CrucibleEffect::PoisonOnHit { damage: d, turns: t }
    } else {
        CrucibleEffect::BurnOnHit { damage: d, turns: t }
    }
}

/// Whether `e` is a proc of the kind searched for.
pub open spec fn proc_kind(e: CrucibleEffect, poison: bool) -> bool {
    if poison {
        e is PoisonOnHit
    } else {
        e is BurnOnHit
    }
}

/// The search for an on-hit proc finds the first effect of the kind asked
/// for: nothing when there is none, else the damage and turns of the one at
/// some position with none of that kind before it.
pub proof fn lemma_first_proc_is_first(es: Seq<CrucibleEffect>, poison: bool)
    ensures
        first_proc(es, poison) is None <==> forall|k: int| 0 <= k < es.len() ==> !proc_kind(#[trigger] es[k], poison),
        first_proc(es, poison) matches Some(p) ==> exists|k: int|
            0 <= k < es.len() && #[trigger] es[k] == proc_effect(poison, p.0, p.1) && forall|j: int|
                0 <= j < k ==> !proc_kind(#[trigger] es[j], poison),
    decreases es.len(),
{
    if es.len() > 0 {
        let rest = es.drop_first();
        lemma_first_proc_is_first(rest, poison);
        assert forall|k: int| 0 < k < es.len() implies es[k] == #[trigger] rest[k - 1] by {}
        match (es[0], poison) {
            (CrucibleEffect::BurnOnHit { damage, turns }, false) => {
                assert(es[0] == proc_effect(poison, damage, turns));
            },
            (CrucibleEffect::PoisonOnHit { damage, turns }, true) => {
                assert(es[0] == proc_effect(poison, damage, turns));
            },
            _ => {
                assert(!proc_kind(es[0], poison));
                if first_proc(rest, poison) is None {
                    assert forall|k: int| 0 <= k < es.len() implies !proc_kind(#[trigger] es[k], poison) by {
                        if k > 0 {
                            assert(!proc_kind(rest[k - 1], poison));
                        }
                    }
                } else {
                    let p = first_proc(rest, poison)->0;
                    let k = choose|k: int|
                        0 <= k < rest.len() && #[trigger] rest[k] == proc_effect(poison, p.0, p.1) && forall|j: int|
                            0 <= j < k ==> !proc_kind(#[trigger] rest[j], poison);
                    assert(es[k + 1] == proc_effect(poison, p.0, p.1));
                    assert forall|j: int| 0 <= j < k + 1 implies !proc_kind(#[trigger] es[j], poison) by {
                        if j > 0 {
                            assert(!proc_kind(rest[j - 1], poison));
                        }
                    }
                    let w = rest[k];
                    assert(proc_kind(w, poison));
                    assert(proc_kind(es[k + 1], poison));
                }
            },
        }
    }
}

/// Damage and turns of the first burn-on-hit effect among the unlocked
/// nodes of all trees.
pub fn burn_on_hit(states: &[&CrucibleState]) -> (r: Option<(i32, i32)>)
    requires
        all_wf(states@),
    ensures
        r == first_proc(all_effects(states@), false),
{
    first_proc_of(states, false)
}

/// Damage and turns of the first poison-on-hit effect among the unlocked
/// nodes of all trees.
pub fn poison_on_hit(states: &[&CrucibleState]) -> (r: Option<(i32, i32)>)
    requires
        all_wf(states@),
    ensures
        r == first_proc(all_effects(states@), true),
{
    first_proc_of(states, true)
}

/// A chain of unlocked nodes from the root to its last node, each node
/// listing the one before it among its neighbours.
pub open spec fn unlocked_chain(st: CrucibleState, p: Seq<usize>) -> bool {
    &&& p.len() >= 1
    &&& p[0] == 0
    &&& forall|k: int| 0 <= k < p.len() ==> (#[trigger] p[k]) < st.nodes@.len() && st.allocated@[p[k] as int]
    &&& forall|k: int| 0 <= k < p.len() - 1 ==> st.edges@[p[k + 1] as int]@.contains(#[trigger] p[k])
}

/// Every unlocked node hangs from the root through unlocked nodes.
pub open spec fn unlocked_connected(st: CrucibleState) -> bool {
    forall|i: int|
        0 <= i < st.nodes@.len() && #[trigger] st.allocated@[i] ==> exists|p: Seq<usize>|
            unlocked_chain(st, p) && p.last() == i
}

/// A fresh tree's unlocked part, the root alone, hangs from the root.
pub proof fn lemma_grown_tree_unlocked_connected(st: CrucibleState, slot: EquipSlot, n: int)
    requires
        grown_tree(st, slot, n),
        n >= 1,
    ensures
        unlocked_connected(st),
{
    assert forall|i: int| 0 <= i < st.nodes@.len() && #[trigger] st.allocated@[i] implies exists|p: Seq<usize>|
        unlocked_chain(st, p) && p.last() == i by {
        assert(i == 0);
        let p = seq![0usize];
        assert(unlocked_chain(st, p) && p.last() == i);
    }
}

/// Unlocking a node keeps every unlocked node hanging from the root
/// through unlocked nodes.
pub proof fn lemma_allocate_keeps_unlocked_connected(before: CrucibleState, after: CrucibleState, idx: usize)
    requires
        before.wf(),
        unlocked_connected(before),
        before.allocatable(idx as int),
        after.nodes@ == before.nodes@,
        after.edges@ == before.edges@,
        after.allocated@ == before.allocated@.update(idx as int, true),
    ensures
        unlocked_connected(after),
{
    let k = choose|k: int| 0 <= k < before.edges@[idx as int]@.len() && before.allocated@[before.edges@[idx as int]@[k] as int];
    let j = before.edges@[idx as int]@[k] as int;
    assert(j < before.nodes@.len());
    assert(before.allocated@[j]);
    let pj = choose|p: Seq<usize>| unlocked_chain(before, p) && p.last() == j;
    assert forall|i: int| 0 <= i < after.nodes@.len() && #[trigger] after.allocated@[i] implies exists|p: Seq<usize>|
        unlocked_chain(after, p) && p.last() == i by {
        if i == idx {
            let q = pj.push(idx);
            assert forall|m: int| 0 <= m < q.len() implies (#[trigger] q[m]) < after.nodes@.len() && after.allocated@[q[m] as int] by {
                if m < pj.len() {
                    assert(q[m] == pj[m]);
                }
            }
            assert forall|m: int| 0 <= m < q.len() - 1 implies after.edges@[q[m + 1] as int]@.contains(#[trigger] q[m]) by {
                if m < pj.len() - 1 {
                    assert(q[m] == pj[m] && q[m + 1] == pj[m + 1]);
                } else {
                    assert(q[m] == j as usize);
                    assert(q[m + 1] == idx);
                    assert(before.edges@[idx as int]@[k] == j as usize);
                }
            }
            assert(q[0] == pj[0]);
            assert(unlocked_chain(after, q) && q.last() == i);
        } else {
            assert(before.allocated@[i]);
            let p = choose|p: Seq<usize>| unlocked_chain(before, p) && p.last() == i;
            assert forall|m: int| 0 <= m < p.len() implies (#[trigger] p[m]) < after.nodes@.len() && after.allocated@[p[m] as int] by {
                assert(before.allocated@[p[m] as int]);
            }
            assert(unlocked_chain(after, p) && p.last() == i);
        }
    }
}

// ── Saved form ───────────────────────────────────────────────────────────────

/// `s` with `"` and `\` escaped by a backslash.
pub open spec fn escaped(s: Seq<char>) -> Seq<char>
    decreases s.len(),
{
    if s.len() == 0 {
        Seq::empty()
    } else {
        escaped(s.drop_last()) + if s.last() == '"' {
            seq!['\\', '"']
        } else if s.last() == '\\' {
            seq!['\\', '\\']
        } else {
            seq![s.last()]
        }
    }
}

/// `items` with `sep` between neighbours.
pub open spec fn joined(items: Seq<Seq<char>>, sep: Seq<char>) -> Seq<char>
    decreases items.len(),
{
    if items.len() == 0 {
        Seq::empty()
    } else if items.len() == 1 {
        items[0]
    } else {
        joined(items.drop_last(), sep) + sep + items.last()
    }
}

proof fn lemma_joined_step(items: Seq<Seq<char>>, sep: Seq<char>, i: int)
    requires
        0 <= i < items.len(),
    ensures
        joined(items.take(i + 1), sep) == joined(items.take(i), sep) + (if i > 0 { sep } else { Seq::empty() })
            + items[i],
{
    let t = items.take(i + 1);
    assert(t.drop_last() =~= items.take(i));
    if i == 0 {
        assert(joined(items.take(0), sep) =~= Seq::<char>::empty());
        assert(Seq::<char>::empty() + Seq::<char>::empty() + items[0] =~= items[0]);
    }
}

/// A string value quoted for the saved form.
pub open spec fn quoted(s: Seq<char>) -> Seq<char> {
    seq!['"'] + s + seq!['"']
}

/// Decimal text of each neighbour of one node, comma separated.
pub open spec fn edge_list_text(list: Seq<usize>) -> Seq<char> {
    joined(Seq::new(list.len(), |k: int| decimal(list[k] as int)), ","@)
}

/// Quoted, escaped node names.
pub open spec fn name_items(st: CrucibleState) -> Seq<Seq<char>> {
    Seq::new(st.nodes@.len(), |i: int| quoted(escaped(st.nodes@[i].name@)))
}

/// Quoted, escaped node descriptions.
pub open spec fn description_items(st: CrucibleState) -> Seq<Seq<char>> {
    Seq::new(st.nodes@.len(), |i: int| quoted(escaped(st.nodes@[i].description@)))
}

/// Quoted effect tags of the nodes.
pub open spec fn tag_items(st: CrucibleState) -> Seq<Seq<char>> {
    Seq::new(st.nodes@.len(), |i: int| quoted(tag_spec(st.nodes@[i].effect)))
}

/// Node costs in decimal.
pub open spec fn cost_items(st: CrucibleState) -> Seq<Seq<char>> {
    Seq::new(st.nodes@.len(), |i: int| decimal(st.nodes@[i].xp_cost as int))
}

/// Adjacency lists as text.
pub open spec fn edge_items(st: CrucibleState) -> Seq<Seq<char>> {
    Seq::new(st.edges@.len(), |i: int| edge_list_text(st.edges@[i]@))
}

/// Unlock flags as `1` and `0`.
pub open spec fn flag_items(st: CrucibleState) -> Seq<Seq<char>> {
    Seq::new(st.allocated@.len(), |i: int| if st.allocated@[i] { "1"@ } else { "0"@ })
}

/// The saved form of a tree, with the node positions already written as
/// text: node count, names, descriptions, effect tags, costs, positions,
/// adjacency lists separated by `;`, unlock flags as 1 and 0, banked XP.
pub open spec fn saved_form(st: CrucibleState, px: Seq<Seq<char>>, py: Seq<Seq<char>>) -> Seq<char> {
    "{\"nc\":"@ + decimal(st.nodes@.len() as int)
        + ",\"nm\":["@ + joined(name_items(st), ","@) + "]"@
        + ",\"ds\":["@ + joined(description_items(st), ","@) + "]"@
        + ",\"fx\":["@ + joined(tag_items(st), ","@) + "]"@
        + ",\"xc\":["@ + joined(cost_items(st), ","@) + "]"@
        + ",\"px\":["@ + joined(px, ","@) + "]"@
        + ",\"py\":["@ + joined(py, ","@) + "]"@
        + ",\"eg\":\""@ + joined(edge_items(st), ";"@) + "\""@
        + ",\"al\":["@ + joined(flag_items(st), ","@) + "]"@
        + ",\"xp\":"@ + decimal(st.xp as int) + "}"@
}

/// Appends `value` with `"` and `\` escaped.
fn json_push_escaped(out: &mut String, value: &str)
    ensures
        final(out)@ == old(out)@ + escaped(value@),
{
    let n = value.unicode_len();
    let mut i: usize = 0;
    proof {
        reveal_strlit("\\\"");
        reveal_strlit("\\\\");
    }
    while i < n
        invariant
            n == value@.len(),
            i <= n,
            out@ == old(out)@ + escaped(value@.take(i as int)),
        decreases n - i,
    {
        let c = value.get_char(i);
        proof {
            assert(value@.take(i + 1).drop_last() =~= value@.take(i as int));
            assert(value@.take(i + 1).last() == c);
        }
        let ghost before = out@;
        let ghost t = value@.take(i + 1);
        proof {
            reveal_strlit("\\\"");
            reveal_strlit("\\\\");
        }
        if c == '"' {
            out.append("\\\"");
            proof {
                assert(escaped(t) == escaped(t.drop_last()) + seq!['\\', '"']);
            }
        } else if c == '\\' {
            out.append("\\\\");
            proof {
                assert(escaped(t) == escaped(t.drop_last()) + seq!['\\', '\\']);
            }
        } else {
            out.append(value.substring_char(i, i + 1));
            proof {
                assert(value@.subrange(i as int, i + 1) =~= seq![c]);
                assert(escaped(t) == escaped(t.drop_last()) + seq![c]);
            }
        }
        proof {
            assert(out@ =~= old(out)@ + escaped(value@.take(i + 1)));
        }
        i += 1;
    }
    proof {
        assert(value@.take(i as int) =~= value@);
    }
}

/// Appends the comma-separated, quoted and escaped names (or descriptions).
fn push_node_texts(out: &mut String, st: &CrucibleState, descriptions: bool)
    ensures
        final(out)@ == old(out)@ + joined(if descriptions { description_items(*st) } else { name_items(*st) }, ","@),
{
    let ghost items = if descriptions { description_items(*st) } else { name_items(*st) };
    proof {
        reveal_strlit(",");
        reveal_strlit("\"");
        assert(items.take(0) =~= Seq::<Seq<char>>::empty());
    }
    let mut i: usize = 0;
    while i < st.nodes.len()
        invariant
            i <= st.nodes@.len(),
            items.len() == st.nodes@.len(),
            forall|k: int| 0 <= k < items.len() ==> items[k] == quoted(escaped(if descriptions { st.nodes@[k].description@ } else { st.nodes@[k].name@ })),
            out@ == old(out)@ + joined(items.take(i as int), ","@),
        decreases st.nodes@.len() - i,
    {
        let ghost before = out@;
        if i > 0 {
            out.append(",");
        }
        let ghost mid = out@;
        proof {
            reveal_strlit("\"");
        }
        out.append("\"");
        let text = if descriptions { st.nodes[i].description.as_str() } else { st.nodes[i].name.as_str() };
        json_push_escaped(out, text);
        out.append("\"");
        proof {
            assert(out@ =~= mid + quoted(escaped(text@)));
            assert(items[i as int] == quoted(escaped(text@)));
            lemma_joined_step(items, ","@, i as int);
            assert(out@ =~= old(out)@ + joined(items.take(i + 1), ","@));
        }
        i += 1;
    }
    proof {
        assert(items.take(i as int) =~= items);
    }
}

/// Appends the comma-separated, quoted effect tags.
fn push_tags(out: &mut String, st: &CrucibleState)
    ensures
        final(out)@ == old(out)@ + joined(tag_items(*st), ","@),
{
    let ghost items = tag_items(*st);
    proof {
        reveal_strlit(",");
        reveal_strlit("\"");
        assert(items.take(0) =~= Seq::<Seq<char>>::empty());
    }
    let mut i: usize = 0;
    while i < st.nodes.len()
        invariant
            i <= st.nodes@.len(),
            items.len() == st.nodes@.len(),
            forall|k: int| 0 <= k < items.len() ==> items[k] == quoted(tag_spec(st.nodes@[k].effect)),
            out@ == old(out)@ + joined(items.take(i as int), ","@),
        decreases st.nodes@.len() - i,
    {
        if i > 0 {
            out.append(",");
        }
        let ghost mid = out@;
        proof {
            reveal_strlit("\"");
        }
        out.append("\"");
        let tag = st.nodes[i].effect.effect_to_tag();
        out.append(tag.as_str());
        out.append("\"");
        proof {
            assert(out@ =~= mid + quoted(tag@));
            assert(items[i as int] == quoted(tag@));
            lemma_joined_step(items, ","@, i as int);
            assert(out@ =~= old(out)@ + joined(items.take(i + 1), ","@));
        }
        i += 1;
    }
    proof {
        assert(items.take(i as int) =~= items);
    }
}

/// Appends the comma-separated node costs.
fn push_costs(out: &mut String, st: &CrucibleState)
    ensures
        final(out)@ == old(out)@ + joined(cost_items(*st), ","@),
{
    let ghost items = cost_items(*st);
    proof {
        reveal_strlit(",");
        assert(items.take(0) =~= Seq::<Seq<char>>::empty());
    }
    let mut i: usize = 0;
    while i < st.nodes.len()
        invariant
            i <= st.nodes@.len(),
            items.len() == st.nodes@.len(),
            forall|k: int| 0 <= k < items.len() ==> items[k] == decimal(st.nodes@[k].xp_cost as int),
            out@ == old(out)@ + joined(items.take(i as int), ","@),
        decreases st.nodes@.len() - i,
    {
        if i > 0 {
            out.append(",");
        }
        push_int(out, st.nodes[i].xp_cost as i64);
        proof {
            lemma_joined_step(items, ","@, i as int);
            assert(out@ =~= old(out)@ + joined(items.take(i + 1), ","@));
        }
        i += 1;
    }
    proof {
        assert(items.take(i as int) =~= items);
    }
}

/// Appends the given texts, comma separated.
fn push_texts(out: &mut String, texts: &[String])
    ensures
        final(out)@ == old(out)@ + joined(texts@.map_values(|t: String| t@), ","@),
{
    let ghost items = texts@.map_values(|t: String| t@);
    proof {
        reveal_strlit(",");
        assert(items.take(0) =~= Seq::<Seq<char>>::empty());
    }
    let mut i: usize = 0;
    while i < texts.len()
        invariant
            i <= texts@.len(),
            items == texts@.map_values(|t: String| t@),
            out@ == old(out)@ + joined(items.take(i as int), ","@),
        decreases texts@.len() - i,
    {
        if i > 0 {
            out.append(",");
        }
        out.append(texts[i].as_str());
        proof {
            lemma_joined_step(items, ","@, i as int);
            assert(out@ =~= old(out)@ + joined(items.take(i + 1), ","@));
        }
        i += 1;
    }
    proof {
        assert(items.take(i as int) =~= items);
    }
}

/// Appends one adjacency list, comma separated.
fn push_edge_list(out: &mut String, list: &Vec<usize>)
    requires
        forall|k: int| 0 <= k < list@.len() ==> list@[k] <= i64::MAX,
    ensures
        final(out)@ == old(out)@ + edge_list_text(list@),
{
    let ghost items = Seq::new(list@.len(), |k: int| decimal(list@[k] as int));
    proof {
        reveal_strlit(",");
        assert(items.take(0) =~= Seq::<Seq<char>>::empty());
    }
    let mut i: usize = 0;
    while i < list.len()
        invariant
            i <= list@.len(),
            forall|k: int| 0 <= k < list@.len() ==> list@[k] <= i64::MAX,
            items == Seq::new(list@.len(), |k: int| decimal(list@[k] as int)),
            out@ == old(out)@ + joined(items.take(i as int), ","@),
        decreases list@.len() - i,
    {
        if i > 0 {
            out.append(",");
        }
        push_int(out, list[i] as i64);
        proof {
            lemma_joined_step(items, ","@, i as int);
            assert(out@ =~= old(out)@ + joined(items.take(i + 1), ","@));
        }
        i += 1;
    }
    proof {
        assert(items.take(i as int) =~= items);
    }
}

/// Appends every adjacency list, separated by `;`.
fn push_edges(out: &mut String, st: &CrucibleState)
    requires
        forall|i: int, k: int| 0 <= i < st.edges@.len() && 0 <= k < st.edges@[i]@.len() ==> (#[trigger] st.edges@[i]@[k]) <= i64::MAX,
    ensures
        final(out)@ == old(out)@ + joined(edge_items(*st), ";"@),
{
    let ghost items = edge_items(*st);
    proof {
        reveal_strlit(";");
        assert(items.take(0) =~= Seq::<Seq<char>>::empty());
    }
    let mut i: usize = 0;
    while i < st.edges.len()
        invariant
            i <= st.edges@.len(),
            forall|a: int, k: int| 0 <= a < st.edges@.len() && 0 <= k < st.edges@[a]@.len() ==> (#[trigger] st.edges@[a]@[k]) <= i64::MAX,
            items == edge_items(*st),
            out@ == old(out)@ + joined(items.take(i as int), ";"@),
        decreases st.edges@.len() - i,
    {
        if i > 0 {
            out.append(";");
        }
        push_edge_list(out, &st.edges[i]);
        proof {
            lemma_joined_step(items, ";"@, i as int);
            assert(out@ =~= old(out)@ + joined(items.take(i + 1), ";"@));
        }
        i += 1;
    }
    proof {
        assert(items.take(i as int) =~= items);
    }
}

/// Appends the unlock flags as 1 and 0, comma separated.
fn push_flags(out: &mut String, st: &CrucibleState)
    ensures
        final(out)@ == old(out)@ + joined(flag_items(*st), ","@),
{
    let ghost items = flag_items(*st);
    proof {
        reveal_strlit(",");
        assert(items.take(0) =~= Seq::<Seq<char>>::empty());
    }
    let mut i: usize = 0;
    while i < st.allocated.len()
        invariant
            i <= st.allocated@.len(),
            items == flag_items(*st),
            out@ == old(out)@ + joined(items.take(i as int), ","@),
        decreases st.allocated@.len() - i,
    {
        if i > 0 {
            out.append(",");
        }
        if st.allocated[i] {
            out.append("1");
        } else {
            out.append("0");
        }
        proof {
            lemma_joined_step(items, ","@, i as int);
            assert(out@ =~= old(out)@ + joined(items.take(i + 1), ","@));
        }
        i += 1;
    }
    proof {
        assert(items.take(i as int) =~= items);
    }
}

impl CrucibleState {
    /// The saved form of the tree, as JSON. The node positions come in as
    /// text, `px[i]` and `py[i]` for node `i`, written where they are
    /// computed.
    pub fn to_json(&self, px: &[String], py: &[String]) -> (json: String)
        requires
            self.wf(),
            self.nodes@.len() <= i64::MAX,
        ensures
            json@ == saved_form(*self, px@.map_values(|t: String| t@), py@.map_values(|t: String| t@)),
    {
        let ghost n = self.nodes@.len();
        proof {
            assert forall|i: int, k: int| 0 <= i < self.edges@.len() && 0 <= k < self.edges@[i]@.len() implies (
            #[trigger] self.edges@[i]@[k]) <= i64::MAX by {}
        }
        let mut out = String::from_str("{\"nc\":");
        push_int(&mut out, self.nodes.len() as i64);
        out.append(",\"nm\":[");
        push_node_texts(&mut out, self, false);
        out.append("]");
        out.append(",\"ds\":[");
        push_node_texts(&mut out, self, true);
        out.append("]");
        out.append(",\"fx\":[");
        push_tags(&mut out, self);
        out.append("]");
        out.append(",\"xc\":[");
        push_costs(&mut out, self);
        out.append("]");
        out.append(",\"px\":[");
        push_texts(&mut out, px);
        out.append("]");
        out.append(",\"py\":[");
        push_texts(&mut out, py);
        out.append("]");
        out.append(",\"eg\":\"");
        push_edges(&mut out, self);
        out.append("\"");
        out.append(",\"al\":[");
        push_flags(&mut out, self);
        out.append("]");
        out.append(",\"xp\":");
        push_int(&mut out, self.xp as i64);
        out.append("}");
        proof {
            let sf = saved_form(*self, px@.map_values(|t: String| t@), py@.map_values(|t: String| t@));
            assert(out@ =~= sf);
        }
        out
    }
}

} // verus!
