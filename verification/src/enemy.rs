//! Enemy entities that inhabit the station decks, and the radical-derived
//! actions and abilities of enemies and the player.

use vstd::prelude::*;
use vstd::string::StrSliceExecFns;
use crate::status::StatusInstance;
use crate::text::{str_eq, cat};

verus! {

#[derive(Clone, Copy, Debug, PartialEq, Eq, Structural)]
pub enum AiBehavior {
    Chase,
    Retreat,
    Ambush,
    Sentinel,
    Kiter,
    Pack,
}

#[derive(Clone, Copy, Debug, PartialEq, Eq, Structural)]
pub enum BossKind {
    PirateCaptain,
    HiveQueen,
    RogueAICore,
    VoidEntity,
    AncientGuardian,
    DriftLeviathan,
}

impl BossKind {
    pub open spec fn for_floor_spec(floor: i32) -> Option<Self> {
        if floor == 5 {
            Some(BossKind::PirateCaptain)
        } else if floor == 10 {
            Some(BossKind::HiveQueen)
        } else if floor == 15 {
            Some(BossKind::RogueAICore)
        } else if floor == 20 {
            Some(BossKind::VoidEntity)
        } else if floor == 25 {
            Some(BossKind::AncientGuardian)
        } else if floor == 30 {
            Some(BossKind::DriftLeviathan)
        } else {
            None
        }
    }

    /// The boss guarding a floor: one every fifth floor from 5 to 30.
    pub fn for_floor(floor: i32) -> (b: Option<Self>)
        ensures
            b == Self::for_floor_spec(floor),
    {
        match floor {
            5 => Some(BossKind::PirateCaptain),
            10 => Some(BossKind::HiveQueen),
            15 => Some(BossKind::RogueAICore),
            20 => Some(BossKind::VoidEntity),
            25 => Some(BossKind::AncientGuardian),
            30 => Some(BossKind::DriftLeviathan),
            _ => None,
        }
    }

    pub open spec fn title_spec(self) -> &'static str {
        match self {
            BossKind::PirateCaptain => "Pirate Captain",
            BossKind::HiveQueen => "Hive Queen",
            BossKind::RogueAICore => "Rogue AI Core",
            BossKind::VoidEntity => "Void Entity",
            BossKind::AncientGuardian => "Ancient Guardian",
            BossKind::DriftLeviathan => "Drift Leviathan",
        }
    }

    pub fn title(self) -> (t: &'static str)
        ensures
            t == self.title_spec(),
    {
        match self {
            BossKind::PirateCaptain => "Pirate Captain",
            BossKind::HiveQueen => "Hive Queen",
            BossKind::RogueAICore => "Rogue AI Core",
            BossKind::VoidEntity => "Void Entity",
            BossKind::AncientGuardian => "Ancient Guardian",
            BossKind::DriftLeviathan => "Drift Leviathan",
        }
    }
}

/// Special abilities derived from hanzi semantic components.
/// Each radical maps to exactly ONE skill (1:1 mapping).
#[derive(Clone, Copy, Debug, PartialEq, Eq, Structural)]
pub enum RadicalAction {

    /// 火 fire — Plasma DoT, spreading plasma terrain
    SpreadingWildfire,
    /// 水 water — Corrosive spray, Slow
    ErosiveFlow,
    /// 力 strength — Damage scales with missing HP
    OverwhelmingForce,
    /// 心 heart — Confuse for 2 turns
    DoubtSeed,
    /// 口 mouth — Deal 1 damage, steal a buff
    DevouringMaw,
    /// 目 eye — Mark: all attacks auto-hit +crit
    WitnessMark,
    /// 手 hand — Swap positions with target
    SleightReversal,
    /// 木 wood — Gravity field, +1 armor to self
    RootingGrasp,
    /// 田 field — Execute if HP<40%, else 1 dmg
    HarvestReaping,
    /// 日 sun — Clear own debuffs, buff allies
    RevealingDawn,
    /// 月 moon — Poison DoT 2 dmg for 3 turns
    WaningCurse,
    /// 人 person — If low HP: survive at 1, +2 dmg
    MortalResilience,
    /// 女 woman — Counter + thorn armor
    MaternalShield,
    /// 子 child — 1 dmg + mark for +2 future dmg
    PotentialBurst,
    /// 禾 grain — Confused 1 turn (miss chance)
    ChasingChaff,
    /// 十 cross — 50/50: 4 dmg or stun self
    CrossroadsGambit,
    /// 金 metal — +4 armor, can't dodge
    RigidStance,
    /// 土 earth — Slow 3 turns + 1 dmg
    GroundingWeight,
    /// 又 again — Repeat base damage attack
    EchoStrike,
    /// 寸 inch — Execute if HP<25%, else 1 dmg
    PreciseExecution,
    /// 刀 knife — 2 dmg + reduce max HP by 1
    CleavingCut,
    /// 言 speech — Slow 3 + Confused 1
    BindingOath,
    /// 足 foot — Dash to player + 1 dmg
    PursuingSteps,
    /// 糸 silk — Slow 3 + Bleed 1 for 2 turns
    EntanglingWeb,
    /// 门 gate — +3 armor, Slow self 1 turn
    ThresholdSeal,
    /// 马 horse — Dmg scales with distance, knockback 2
    CavalryCharge,
    /// 鸟 bird — Dodge + stored movement +2
    SoaringEscape,
    /// 雨 rain — 1 dmg + Bleed 1 for 3 turns
    DownpourBarrage,
    /// 石 stone — Slow 3 + give self +2 armor
    PetrifyingGaze,
    /// 虫 insect — 1 dmg, heal self for dealt+1
    ParasiticSwarm,
    /// 贝 shell — Self -2 HP, buff nearby allies
    MercenaryPact,
    /// 山 mountain — +3 armor, +1 fortify
    ImmovablePeak,
    /// 犬 beast — 3 dmg, self-dmg 1, heal 1
    SavageMaul,
    /// 弓 bow — Ranged: 3 dmg at dist>=3, else 1
    ArcingShot,
    /// 食 food — 2 dmg, heal for dealt, +1 max HP
    ConsumingBite,
    /// 衣 clothing — Dodge + fortify (stealth)
    CloakingGuise,
    /// 竹 bamboo — Counter + thorn armor 2 turns
    FlexibleCounter,
    /// 走 walk — Move 3 tiles toward player, dmg per tile
    BlitzAssault,
    /// 车 vehicle — 2 dmg + push 3 tiles
    CrushingWheels,
    /// 王 king — Force nearest ally to gain +2 dmg, approach player
    ImperialCommand,
    /// 大 big — All nearby allies +1 dmg, self +1 dmg
    MagnifyingAura,
    /// 小 small — 2 dmg ignoring all armor
    NeedleStrike,
    /// 工 craft — Burn 2 for 2 turns (delayed trap)
    ArtisanTrap,
    /// 白 white — Remove debuffs from self, heal 3
    CleansingLight,
    /// 页 page — Confuse all units in 2-tile radius for 1 turn
    ScatteringPages,
    /// 见 see — Remove all buffs from target (dispel)
    TrueVision,
    /// 气 air/energy — Drain focus/spirit from player
    QiDisruption,
    /// 广 wide — Create zone where enemy gets +1 damage
    ExpandingDomain,
    /// 穴 cave — Create CrackedFloor under player (delayed pit)
    SinkholeSnare,
    /// 耳 ear — 2 damage AoE in 2-tile radius + stun
    SonicBurst,
    /// 舌 tongue — Ranged 1 dmg + Poison for 2 turns
    VenomousLash,
    /// 身 body — Gain 2 armor + root self (can't move) 2 turns
    IronBodyStance,
    /// 角 horn — Charge toward player + 2 dmg + knockback
    GoreCrush,
    /// 酉 wine vessel — Steam tiles in radius, Confused 2 turns
    IntoxicatingMist,
    /// 豆 bean — Create Grass tiles, gain armor per adjacent Grass
    SproutingBarrier,
    /// 鱼 fish — Water tile under player + push 2, extra dmg on Water
    TidalSurge,
    /// 骨 bone — ArcingProjectile: 3 dmg + armor break
    BoneShatter,
    /// 革 leather — Gain +2 armor and +1 fortify (adaptive defense)
    AdaptiveShift,
    /// 鬥 fight — Self-damage 2 + gain +3 damage for 2 turns
    BerserkerFury,
    /// 隹 short-tailed bird — 3 ArcingProjectiles at random tiles near player
    FlockAssault,
}

/// The UI colour of an attack type.
pub open spec fn color_for_attack_type(t: Seq<char>) -> Seq<char> {
    if t == "Melee"@ || t == "Projectile"@ || t == "AoE"@ {
        "#ff6666"@
    } else if t == "Arcing (1 turn)"@ || t == "Arcing (2 turns)"@ {
        "#ff9944"@
    } else if t == "Self-buff"@ {
        "#6688ff"@
    } else if t == "Debuff"@ {
        "#ffcc44"@
    } else if t == "Support"@ {
        "#66cc66"@
    } else {
        "#cccccc"@
    }
}

impl RadicalAction {
    pub open spec fn radical_spec(self) -> &'static str {
        match self {
            RadicalAction::SpreadingWildfire => "火",
            RadicalAction::ErosiveFlow => "水",
            RadicalAction::OverwhelmingForce => "力",
            RadicalAction::DoubtSeed => "心",
            RadicalAction::DevouringMaw => "口",
            RadicalAction::WitnessMark => "目",
            RadicalAction::SleightReversal => "手",
            RadicalAction::RootingGrasp => "木",
            RadicalAction::HarvestReaping => "田",
            RadicalAction::RevealingDawn => "日",
            RadicalAction::WaningCurse => "月",
            RadicalAction::MortalResilience => "人",
            RadicalAction::MaternalShield => "女",
            RadicalAction::PotentialBurst => "子",
            RadicalAction::ChasingChaff => "禾",
            RadicalAction::CrossroadsGambit => "十",
            RadicalAction::RigidStance => "金",
            RadicalAction::GroundingWeight => "土",
            RadicalAction::EchoStrike => "又",
            RadicalAction::PreciseExecution => "寸",
            RadicalAction::CleavingCut => "刀",
            RadicalAction::BindingOath => "言",
            RadicalAction::PursuingSteps => "足",
            RadicalAction::EntanglingWeb => "糸",
            RadicalAction::ThresholdSeal => "门",
            RadicalAction::CavalryCharge => "马",
            RadicalAction::SoaringEscape => "鸟",
            RadicalAction::DownpourBarrage => "雨",
            RadicalAction::PetrifyingGaze => "石",
            RadicalAction::ParasiticSwarm => "虫",
            RadicalAction::MercenaryPact => "贝",
            RadicalAction::ImmovablePeak => "山",
            RadicalAction::SavageMaul => "犬",
            RadicalAction::ArcingShot => "弓",
            RadicalAction::ConsumingBite => "食",
            RadicalAction::CloakingGuise => "衣",
            RadicalAction::FlexibleCounter => "竹",
            RadicalAction::BlitzAssault => "走",
            RadicalAction::CrushingWheels => "车",
            RadicalAction::ImperialCommand => "王",
            RadicalAction::MagnifyingAura => "大",
            RadicalAction::NeedleStrike => "小",
            RadicalAction::ArtisanTrap => "工",
            RadicalAction::CleansingLight => "白",
            RadicalAction::ScatteringPages => "页",
            RadicalAction::TrueVision => "见",
            RadicalAction::QiDisruption => "气",
            RadicalAction::ExpandingDomain => "广",
            RadicalAction::SinkholeSnare => "穴",
            RadicalAction::SonicBurst => "耳",
            RadicalAction::VenomousLash => "舌",
            RadicalAction::IronBodyStance => "身",
            RadicalAction::GoreCrush => "角",
            RadicalAction::IntoxicatingMist => "酉",
            RadicalAction::SproutingBarrier => "豆",
            RadicalAction::TidalSurge => "鱼",
            RadicalAction::BoneShatter => "骨",
            RadicalAction::AdaptiveShift => "革",
            RadicalAction::BerserkerFury => "鬥",
            RadicalAction::FlockAssault => "隹",
        }
    }

    /// The radical this action comes from.
    pub fn radical(self) -> (r: &'static str)
        ensures
            r == self.radical_spec(),
    {
        match self {
            RadicalAction::SpreadingWildfire => "火",
            RadicalAction::ErosiveFlow => "水",
            RadicalAction::OverwhelmingForce => "力",
            RadicalAction::DoubtSeed => "心",
            RadicalAction::DevouringMaw => "口",
            RadicalAction::WitnessMark => "目",
            RadicalAction::SleightReversal => "手",
            RadicalAction::RootingGrasp => "木",
            RadicalAction::HarvestReaping => "田",
            RadicalAction::RevealingDawn => "日",
            RadicalAction::WaningCurse => "月",
            RadicalAction::MortalResilience => "人",
            RadicalAction::MaternalShield => "女",
            RadicalAction::PotentialBurst => "子",
            RadicalAction::ChasingChaff => "禾",
            RadicalAction::CrossroadsGambit => "十",
            RadicalAction::RigidStance => "金",
            RadicalAction::GroundingWeight => "土",
            RadicalAction::EchoStrike => "又",
            RadicalAction::PreciseExecution => "寸",
            RadicalAction::CleavingCut => "刀",
            RadicalAction::BindingOath => "言",
            RadicalAction::PursuingSteps => "足",
            RadicalAction::EntanglingWeb => "糸",
            RadicalAction::ThresholdSeal => "门",
            RadicalAction::CavalryCharge => "马",
            RadicalAction::SoaringEscape => "鸟",
            RadicalAction::DownpourBarrage => "雨",
            RadicalAction::PetrifyingGaze => "石",
            RadicalAction::ParasiticSwarm => "虫",
            RadicalAction::MercenaryPact => "贝",
            RadicalAction::ImmovablePeak => "山",
            RadicalAction::SavageMaul => "犬",
            RadicalAction::ArcingShot => "弓",
            RadicalAction::ConsumingBite => "食",
            RadicalAction::CloakingGuise => "衣",
            RadicalAction::FlexibleCounter => "竹",
            RadicalAction::BlitzAssault => "走",
            RadicalAction::CrushingWheels => "车",
            RadicalAction::ImperialCommand => "王",
            RadicalAction::MagnifyingAura => "大",
            RadicalAction::NeedleStrike => "小",
            RadicalAction::ArtisanTrap => "工",
            RadicalAction::CleansingLight => "白",
            RadicalAction::ScatteringPages => "页",
            RadicalAction::TrueVision => "见",
            RadicalAction::QiDisruption => "气",
            RadicalAction::ExpandingDomain => "广",
            RadicalAction::SinkholeSnare => "穴",
            RadicalAction::SonicBurst => "耳",
            RadicalAction::VenomousLash => "舌",
            RadicalAction::IronBodyStance => "身",
            RadicalAction::GoreCrush => "角",
            RadicalAction::IntoxicatingMist => "酉",
            RadicalAction::SproutingBarrier => "豆",
            RadicalAction::TidalSurge => "鱼",
            RadicalAction::BoneShatter => "骨",
            RadicalAction::AdaptiveShift => "革",
            RadicalAction::BerserkerFury => "鬥",
            RadicalAction::FlockAssault => "隹",
        }
    }

    pub open spec fn name_spec(self) -> &'static str {
        match self {
            RadicalAction::SpreadingWildfire => "\u{1F525} Plasma Overload",
            RadicalAction::ErosiveFlow => "\u{1F4A7} Acid Spray",
            RadicalAction::OverwhelmingForce => "\u{1F4AA} Overwhelming Force",
            RadicalAction::DoubtSeed => "\u{1F49C} Doubt Seed",
            RadicalAction::DevouringMaw => "\u{1F444} Devouring Maw",
            RadicalAction::WitnessMark => "\u{1F441} Witness Mark",
            RadicalAction::SleightReversal => "\u{270B} Sleight Reversal",
            RadicalAction::RootingGrasp => "\u{1F33F} Gravity Snare",
            RadicalAction::HarvestReaping => "\u{1F33E} Harvest Reaping",
            RadicalAction::RevealingDawn => "\u{2600} Revealing Dawn",
            RadicalAction::WaningCurse => "\u{1F319} Waning Curse",
            RadicalAction::MortalResilience => "\u{1F464} Mortal Resilience",
            RadicalAction::MaternalShield => "\u{1F495} Maternal Shield",
            RadicalAction::PotentialBurst => "\u{26A1} Potential Burst",
            RadicalAction::ChasingChaff => "\u{1F33E} Chasing Chaff",
            RadicalAction::CrossroadsGambit => "\u{2715} Crossroads Gambit",
            RadicalAction::RigidStance => "\u{1F6E1} Rigid Stance",
            RadicalAction::GroundingWeight => "\u{1F30D} Grounding Weight",
            RadicalAction::EchoStrike => "\u{1F504} Echo Strike",
            RadicalAction::PreciseExecution => "\u{1F4CF} Precise Execution",
            RadicalAction::CleavingCut => "\u{1F5E1} Cleaving Cut",
            RadicalAction::BindingOath => "\u{1F4DC} Binding Oath",
            RadicalAction::PursuingSteps => "\u{1F463} Pursuing Steps",
            RadicalAction::EntanglingWeb => "\u{1F578} Entangling Web",
            RadicalAction::ThresholdSeal => "\u{1F6AA} Threshold Seal",
            RadicalAction::CavalryCharge => "\u{1F434} Cavalry Charge",
            RadicalAction::SoaringEscape => "\u{1F426} Soaring Escape",
            RadicalAction::DownpourBarrage => "\u{1F327} Downpour Barrage",
            RadicalAction::PetrifyingGaze => "\u{1FAA8} Petrifying Gaze",
            RadicalAction::ParasiticSwarm => "\u{1F41B} Parasitic Swarm",
            RadicalAction::MercenaryPact => "\u{1F41A} Mercenary Pact",
            RadicalAction::ImmovablePeak => "\u{26F0} Immovable Peak",
            RadicalAction::SavageMaul => "\u{1F415} Savage Maul",
            RadicalAction::ArcingShot => "\u{1F3F9} Arcing Shot",
            RadicalAction::ConsumingBite => "\u{1F356} Consuming Bite",
            RadicalAction::CloakingGuise => "\u{1F458} Cloaking Guise",
            RadicalAction::FlexibleCounter => "\u{1F38B} Flexible Counter",
            RadicalAction::BlitzAssault => "\u{1F4A8} Blitz Assault",
            RadicalAction::CrushingWheels => "\u{1F6DE} Crushing Wheels",
            RadicalAction::ImperialCommand => "\u{1F451} Imperial Command",
            RadicalAction::MagnifyingAura => "\u{1F53A} Magnifying Aura",
            RadicalAction::NeedleStrike => "\u{1F53B} Needle Strike",
            RadicalAction::ArtisanTrap => "\u{2699} Artisan's Trap",
            RadicalAction::CleansingLight => "\u{2728} Cleansing Light",
            RadicalAction::ScatteringPages => "\u{1F4C4} Scattering Pages",
            RadicalAction::TrueVision => "\u{1F440} True Vision",
            RadicalAction::QiDisruption => "\u{1F32C} Qi Disruption",
            RadicalAction::ExpandingDomain => "\u{1F310} Expanding Domain",
            RadicalAction::SinkholeSnare => "\u{1F573} Sinkhole Snare",
            RadicalAction::SonicBurst => "\u{1F442} Sonic Burst",
            RadicalAction::VenomousLash => "\u{1F40D} Venomous Lash",
            RadicalAction::IronBodyStance => "\u{1F9CD} Iron Body Stance",
            RadicalAction::GoreCrush => "\u{1F402} Gore Crush",
            RadicalAction::IntoxicatingMist => "\u{1F37A} Intoxicating Mist",
            RadicalAction::SproutingBarrier => "\u{1F331} Sprouting Barrier",
            RadicalAction::TidalSurge => "\u{1F41F} Tidal Surge",
            RadicalAction::BoneShatter => "\u{1F9B4} Bone Shatter",
            RadicalAction::AdaptiveShift => "\u{1F6E1} Adaptive Shift",
            RadicalAction::BerserkerFury => "\u{1F4A2} Berserker Fury",
            RadicalAction::FlockAssault => "\u{1F426} Flock Assault",
        }
    }

    /// Display name.
    pub fn name(self) -> (r: &'static str)
        ensures
            r == self.name_spec(),
    {
        match self {
            RadicalAction::SpreadingWildfire => "\u{1F525} Plasma Overload",
            RadicalAction::ErosiveFlow => "\u{1F4A7} Acid Spray",
            RadicalAction::OverwhelmingForce => "\u{1F4AA} Overwhelming Force",
            RadicalAction::DoubtSeed => "\u{1F49C} Doubt Seed",
            RadicalAction::DevouringMaw => "\u{1F444} Devouring Maw",
            RadicalAction::WitnessMark => "\u{1F441} Witness Mark",
            RadicalAction::SleightReversal => "\u{270B} Sleight Reversal",
            RadicalAction::RootingGrasp => "\u{1F33F} Gravity Snare",
            RadicalAction::HarvestReaping => "\u{1F33E} Harvest Reaping",
            RadicalAction::RevealingDawn => "\u{2600} Revealing Dawn",
            RadicalAction::WaningCurse => "\u{1F319} Waning Curse",
            RadicalAction::MortalResilience => "\u{1F464} Mortal Resilience",
            RadicalAction::MaternalShield => "\u{1F495} Maternal Shield",
            RadicalAction::PotentialBurst => "\u{26A1} Potential Burst",
            RadicalAction::ChasingChaff => "\u{1F33E} Chasing Chaff",
            RadicalAction::CrossroadsGambit => "\u{2715} Crossroads Gambit",
            RadicalAction::RigidStance => "\u{1F6E1} Rigid Stance",
            RadicalAction::GroundingWeight => "\u{1F30D} Grounding Weight",
            RadicalAction::EchoStrike => "\u{1F504} Echo Strike",
            RadicalAction::PreciseExecution => "\u{1F4CF} Precise Execution",
            RadicalAction::CleavingCut => "\u{1F5E1} Cleaving Cut",
            RadicalAction::BindingOath => "\u{1F4DC} Binding Oath",
            RadicalAction::PursuingSteps => "\u{1F463} Pursuing Steps",
            RadicalAction::EntanglingWeb => "\u{1F578} Entangling Web",
            RadicalAction::ThresholdSeal => "\u{1F6AA} Threshold Seal",
            RadicalAction::CavalryCharge => "\u{1F434} Cavalry Charge",
            RadicalAction::SoaringEscape => "\u{1F426} Soaring Escape",
            RadicalAction::DownpourBarrage => "\u{1F327} Downpour Barrage",
            RadicalAction::PetrifyingGaze => "\u{1FAA8} Petrifying Gaze",
            RadicalAction::ParasiticSwarm => "\u{1F41B} Parasitic Swarm",
            RadicalAction::MercenaryPact => "\u{1F41A} Mercenary Pact",
            RadicalAction::ImmovablePeak => "\u{26F0} Immovable Peak",
            RadicalAction::SavageMaul => "\u{1F415} Savage Maul",
            RadicalAction::ArcingShot => "\u{1F3F9} Arcing Shot",
            RadicalAction::ConsumingBite => "\u{1F356} Consuming Bite",
            RadicalAction::CloakingGuise => "\u{1F458} Cloaking Guise",
            RadicalAction::FlexibleCounter => "\u{1F38B} Flexible Counter",
            RadicalAction::BlitzAssault => "\u{1F4A8} Blitz Assault",
            RadicalAction::CrushingWheels => "\u{1F6DE} Crushing Wheels",
            RadicalAction::ImperialCommand => "\u{1F451} Imperial Command",
            RadicalAction::MagnifyingAura => "\u{1F53A} Magnifying Aura",
            RadicalAction::NeedleStrike => "\u{1F53B} Needle Strike",
            RadicalAction::ArtisanTrap => "\u{2699} Artisan's Trap",
            RadicalAction::CleansingLight => "\u{2728} Cleansing Light",
            RadicalAction::ScatteringPages => "\u{1F4C4} Scattering Pages",
            RadicalAction::TrueVision => "\u{1F440} True Vision",
            RadicalAction::QiDisruption => "\u{1F32C} Qi Disruption",
            RadicalAction::ExpandingDomain => "\u{1F310} Expanding Domain",
            RadicalAction::SinkholeSnare => "\u{1F573} Sinkhole Snare",
            RadicalAction::SonicBurst => "\u{1F442} Sonic Burst",
            RadicalAction::VenomousLash => "\u{1F40D} Venomous Lash",
            RadicalAction::IronBodyStance => "\u{1F9CD} Iron Body Stance",
            RadicalAction::GoreCrush => "\u{1F402} Gore Crush",
            RadicalAction::IntoxicatingMist => "\u{1F37A} Intoxicating Mist",
            RadicalAction::SproutingBarrier => "\u{1F331} Sprouting Barrier",
            RadicalAction::TidalSurge => "\u{1F41F} Tidal Surge",
            RadicalAction::BoneShatter => "\u{1F9B4} Bone Shatter",
            RadicalAction::AdaptiveShift => "\u{1F6E1} Adaptive Shift",
            RadicalAction::BerserkerFury => "\u{1F4A2} Berserker Fury",
            RadicalAction::FlockAssault => "\u{1F426} Flock Assault",
        }
    }

    pub open spec fn description_spec(self) -> &'static str {
        match self {
            RadicalAction::SpreadingWildfire => "Burns for 1 damage over 3 turns, creates plasma terrain",
            RadicalAction::ErosiveFlow => "Corrodes defense, Slows for 3 turns",
            RadicalAction::OverwhelmingForce => "Damage scales with missing HP",
            RadicalAction::DoubtSeed => "Confuses for 2 turns",
            RadicalAction::DevouringMaw => "Deals 1 damage and steals a buff",
            RadicalAction::WitnessMark => "Marks target: attacks auto-hit with +2 damage",
            RadicalAction::SleightReversal => "Swaps positions with target",
            RadicalAction::RootingGrasp => "Gravity locks for 2 turns, gains +1 armor",
            RadicalAction::HarvestReaping => "Execute if HP<40%, else 1 damage",
            RadicalAction::RevealingDawn => "Clears own debuffs, buffs nearby allies",
            RadicalAction::WaningCurse => "Poison DoT: 2 damage for 3 turns",
            RadicalAction::MortalResilience => "If low HP: survive at 1 HP, gain +2 damage",
            RadicalAction::MaternalShield => "Gains counter-attack and thorn armor",
            RadicalAction::PotentialBurst => "Deals 1 damage + marks for +2 future damage",
            RadicalAction::ChasingChaff => "Confuses for 1 turn (miss chance)",
            RadicalAction::CrossroadsGambit => "50/50: deal 4 damage or stun self",
            RadicalAction::RigidStance => "Gains +4 armor, cannot dodge",
            RadicalAction::GroundingWeight => "Slows for 3 turns + 1 damage",
            RadicalAction::EchoStrike => "Repeats base damage attack",
            RadicalAction::PreciseExecution => "Execute if HP<25%, else 1 damage",
            RadicalAction::CleavingCut => "Deals 2 damage + reduces max HP by 1",
            RadicalAction::BindingOath => "Slows for 3 turns + Confuses for 1 turn",
            RadicalAction::PursuingSteps => "Dashes to player + 1 damage",
            RadicalAction::EntanglingWeb => "Slows for 3 turns + Bleed 1 for 2 turns",
            RadicalAction::ThresholdSeal => "Gains +3 armor, Slows self 1 turn",
            RadicalAction::CavalryCharge => "Damage scales with distance, knockback 2",
            RadicalAction::SoaringEscape => "Dodges next attack + gains +2 movement",
            RadicalAction::DownpourBarrage => "Deals 1 damage + Bleed 1 for 3 turns",
            RadicalAction::PetrifyingGaze => "Slows for 3 turns + gains +2 armor",
            RadicalAction::ParasiticSwarm => "Deals 1 damage, heals self for dealt+1",
            RadicalAction::MercenaryPact => "Self -2 HP, buffs nearby allies +1 damage",
            RadicalAction::ImmovablePeak => "Gains +3 armor and +1 fortify",
            RadicalAction::SavageMaul => "Deals 3 damage, self-damage 1, heals 1",
            RadicalAction::ArcingShot => "Ranged: 3 damage at distance>=3, else 1",
            RadicalAction::ConsumingBite => "Deals 2 damage, heals for dealt, +1 max HP",
            RadicalAction::CloakingGuise => "Dodges next attack + gains fortify",
            RadicalAction::FlexibleCounter => "Gains counter-attack + thorn armor 2 turns",
            RadicalAction::BlitzAssault => "Moves 3 tiles toward player, damage per tile moved",
            RadicalAction::CrushingWheels => "Deals 2 damage + pushes 3 tiles",
            RadicalAction::ImperialCommand => "Nearest ally gains +2 damage and approaches player",
            RadicalAction::MagnifyingAura => "All nearby allies and self gain +1 damage",
            RadicalAction::NeedleStrike => "Deals 2 damage ignoring all armor",
            RadicalAction::ArtisanTrap => "Burns for 2 damage over 2 turns",
            RadicalAction::CleansingLight => "Removes all debuffs, heals 3 HP",
            RadicalAction::ScatteringPages => "Confuses all units in 2-tile radius for 1 turn",
            RadicalAction::TrueVision => "Removes all buffs from target (dispel)",
            RadicalAction::QiDisruption => "Drains 3 spirit from the player",
            RadicalAction::ExpandingDomain => "Gains +1 damage in a 3x3 zone, +1 armor",
            RadicalAction::SinkholeSnare => "Creates cracked floor under player (1 turn to escape)",
            RadicalAction::SonicBurst => "2 damage to all in 2-tile radius + stun",
            RadicalAction::VenomousLash => "Ranged: 1 damage + Poison 2 for 2 turns",
            RadicalAction::IronBodyStance => "Gains +2 armor, roots self for 2 turns",
            RadicalAction::GoreCrush => "Charges 2 tiles + 2 damage + knockback 1",
            RadicalAction::IntoxicatingMist => "Creates Steam tiles, Confuses 2 turns",
            RadicalAction::SproutingBarrier => "Creates Grass tiles, +1 armor per adjacent Grass",
            RadicalAction::TidalSurge => "Water under player + push 2, bonus damage on Water",
            RadicalAction::BoneShatter => "Arcing 3 damage + removes armor (lands in 1 turn)",
            RadicalAction::AdaptiveShift => "Gains +2 armor and +1 fortify",
            RadicalAction::BerserkerFury => "Self-damage 2, gains +3 damage for 2 turns",
            RadicalAction::FlockAssault => "3 arcing projectiles at random tiles near player",
        }
    }

    /// What the action does.
    pub fn description(self) -> (r: &'static str)
        ensures
            r == self.description_spec(),
    {
        match self {
            RadicalAction::SpreadingWildfire => "Burns for 1 damage over 3 turns, creates plasma terrain",
            RadicalAction::ErosiveFlow => "Corrodes defense, Slows for 3 turns",
            RadicalAction::OverwhelmingForce => "Damage scales with missing HP",
            RadicalAction::DoubtSeed => "Confuses for 2 turns",
            RadicalAction::DevouringMaw => "Deals 1 damage and steals a buff",
            RadicalAction::WitnessMark => "Marks target: attacks auto-hit with +2 damage",
            RadicalAction::SleightReversal => "Swaps positions with target",
            RadicalAction::RootingGrasp => "Gravity locks for 2 turns, gains +1 armor",
            RadicalAction::HarvestReaping => "Execute if HP<40%, else 1 damage",
            RadicalAction::RevealingDawn => "Clears own debuffs, buffs nearby allies",
            RadicalAction::WaningCurse => "Poison DoT: 2 damage for 3 turns",
            RadicalAction::MortalResilience => "If low HP: survive at 1 HP, gain +2 damage",
            RadicalAction::MaternalShield => "Gains counter-attack and thorn armor",
            RadicalAction::PotentialBurst => "Deals 1 damage + marks for +2 future damage",
            RadicalAction::ChasingChaff => "Confuses for 1 turn (miss chance)",
            RadicalAction::CrossroadsGambit => "50/50: deal 4 damage or stun self",
            RadicalAction::RigidStance => "Gains +4 armor, cannot dodge",
            RadicalAction::GroundingWeight => "Slows for 3 turns + 1 damage",
            RadicalAction::EchoStrike => "Repeats base damage attack",
            RadicalAction::PreciseExecution => "Execute if HP<25%, else 1 damage",
            RadicalAction::CleavingCut => "Deals 2 damage + reduces max HP by 1",
            RadicalAction::BindingOath => "Slows for 3 turns + Confuses for 1 turn",
            RadicalAction::PursuingSteps => "Dashes to player + 1 damage",
            RadicalAction::EntanglingWeb => "Slows for 3 turns + Bleed 1 for 2 turns",
            RadicalAction::ThresholdSeal => "Gains +3 armor, Slows self 1 turn",
            RadicalAction::CavalryCharge => "Damage scales with distance, knockback 2",
            RadicalAction::SoaringEscape => "Dodges next attack + gains +2 movement",
            RadicalAction::DownpourBarrage => "Deals 1 damage + Bleed 1 for 3 turns",
            RadicalAction::PetrifyingGaze => "Slows for 3 turns + gains +2 armor",
            RadicalAction::ParasiticSwarm => "Deals 1 damage, heals self for dealt+1",
            RadicalAction::MercenaryPact => "Self -2 HP, buffs nearby allies +1 damage",
            RadicalAction::ImmovablePeak => "Gains +3 armor and +1 fortify",
            RadicalAction::SavageMaul => "Deals 3 damage, self-damage 1, heals 1",
            RadicalAction::ArcingShot => "Ranged: 3 damage at distance>=3, else 1",
            RadicalAction::ConsumingBite => "Deals 2 damage, heals for dealt, +1 max HP",
            RadicalAction::CloakingGuise => "Dodges next attack + gains fortify",
            RadicalAction::FlexibleCounter => "Gains counter-attack + thorn armor 2 turns",
            RadicalAction::BlitzAssault => "Moves 3 tiles toward player, damage per tile moved",
            RadicalAction::CrushingWheels => "Deals 2 damage + pushes 3 tiles",
            RadicalAction::ImperialCommand => "Nearest ally gains +2 damage and approaches player",
            RadicalAction::MagnifyingAura => "All nearby allies and self gain +1 damage",
            RadicalAction::NeedleStrike => "Deals 2 damage ignoring all armor",
            RadicalAction::ArtisanTrap => "Burns for 2 damage over 2 turns",
            RadicalAction::CleansingLight => "Removes all debuffs, heals 3 HP",
            RadicalAction::ScatteringPages => "Confuses all units in 2-tile radius for 1 turn",
            RadicalAction::TrueVision => "Removes all buffs from target (dispel)",
            RadicalAction::QiDisruption => "Drains 3 spirit from the player",
            RadicalAction::ExpandingDomain => "Gains +1 damage in a 3x3 zone, +1 armor",
            RadicalAction::SinkholeSnare => "Creates cracked floor under player (1 turn to escape)",
            RadicalAction::SonicBurst => "2 damage to all in 2-tile radius + stun",
            RadicalAction::VenomousLash => "Ranged: 1 damage + Poison 2 for 2 turns",
            RadicalAction::IronBodyStance => "Gains +2 armor, roots self for 2 turns",
            RadicalAction::GoreCrush => "Charges 2 tiles + 2 damage + knockback 1",
            RadicalAction::IntoxicatingMist => "Creates Steam tiles, Confuses 2 turns",
            RadicalAction::SproutingBarrier => "Creates Grass tiles, +1 armor per adjacent Grass",
            RadicalAction::TidalSurge => "Water under player + push 2, bonus damage on Water",
            RadicalAction::BoneShatter => "Arcing 3 damage + removes armor (lands in 1 turn)",
            RadicalAction::AdaptiveShift => "Gains +2 armor and +1 fortify",
            RadicalAction::BerserkerFury => "Self-damage 2, gains +3 damage for 2 turns",
            RadicalAction::FlockAssault => "3 arcing projectiles at random tiles near player",
        }
    }

    pub open spec fn range_info_spec(self) -> &'static str {
        match self {
            RadicalAction::SpreadingWildfire => "Medium (3)",
            RadicalAction::ErosiveFlow => "Medium (3)",
            RadicalAction::OverwhelmingForce => "Medium (3)",
            RadicalAction::DoubtSeed => "Medium (3)",
            RadicalAction::DevouringMaw => "Melee (1)",
            RadicalAction::WitnessMark => "Medium (3)",
            RadicalAction::SleightReversal => "Melee (1)",
            RadicalAction::RootingGrasp => "Medium (3)",
            RadicalAction::HarvestReaping => "Melee (1)",
            RadicalAction::RevealingDawn => "Self",
            RadicalAction::WaningCurse => "Medium (3)",
            RadicalAction::MortalResilience => "Self",
            RadicalAction::MaternalShield => "Self",
            RadicalAction::PotentialBurst => "Short (2)",
            RadicalAction::ChasingChaff => "Medium (3)",
            RadicalAction::CrossroadsGambit => "Medium (3)",
            RadicalAction::RigidStance => "Self",
            RadicalAction::GroundingWeight => "Medium (3)",
            RadicalAction::EchoStrike => "Melee (1)",
            RadicalAction::PreciseExecution => "Melee (1)",
            RadicalAction::CleavingCut => "Melee (1)",
            RadicalAction::BindingOath => "Medium (3)",
            RadicalAction::PursuingSteps => "Long (5+)",
            RadicalAction::EntanglingWeb => "Medium (3)",
            RadicalAction::ThresholdSeal => "Self",
            RadicalAction::CavalryCharge => "Long (5+)",
            RadicalAction::SoaringEscape => "Self",
            RadicalAction::DownpourBarrage => "Long (5+)",
            RadicalAction::PetrifyingGaze => "Medium (3)",
            RadicalAction::ParasiticSwarm => "Short (2)",
            RadicalAction::MercenaryPact => "Self",
            RadicalAction::ImmovablePeak => "Self",
            RadicalAction::SavageMaul => "Melee (1)",
            RadicalAction::ArcingShot => "Long (5+)",
            RadicalAction::ConsumingBite => "Melee (1)",
            RadicalAction::CloakingGuise => "Self",
            RadicalAction::FlexibleCounter => "Self",
            RadicalAction::BlitzAssault => "Long (5+)",
            RadicalAction::CrushingWheels => "Medium (3)",
            RadicalAction::ImperialCommand => "Self",
            RadicalAction::MagnifyingAura => "Self",
            RadicalAction::NeedleStrike => "Short (2)",
            RadicalAction::ArtisanTrap => "Medium (3)",
            RadicalAction::CleansingLight => "Self",
            RadicalAction::ScatteringPages => "AoE (2)",
            RadicalAction::TrueVision => "Medium (3)",
            RadicalAction::QiDisruption => "Medium (3)",
            RadicalAction::ExpandingDomain => "Self",
            RadicalAction::SinkholeSnare => "Long (5+)",
            RadicalAction::SonicBurst => "AoE (2)",
            RadicalAction::VenomousLash => "Medium (3)",
            RadicalAction::IronBodyStance => "Self",
            RadicalAction::GoreCrush => "Short (2)",
            RadicalAction::IntoxicatingMist => "AoE (2)",
            RadicalAction::SproutingBarrier => "Self",
            RadicalAction::TidalSurge => "Long (5+)",
            RadicalAction::BoneShatter => "Long (5+)",
            RadicalAction::AdaptiveShift => "Self",
            RadicalAction::BerserkerFury => "Self",
            RadicalAction::FlockAssault => "Long (5+)",
        }
    }

    /// Range shown in the UI.
    pub fn range_info(self) -> (r: &'static str)
        ensures
            r == self.range_info_spec(),
    {
        match self {
            RadicalAction::SpreadingWildfire => "Medium (3)",
            RadicalAction::ErosiveFlow => "Medium (3)",
            RadicalAction::OverwhelmingForce => "Medium (3)",
            RadicalAction::DoubtSeed => "Medium (3)",
            RadicalAction::DevouringMaw => "Melee (1)",
            RadicalAction::WitnessMark => "Medium (3)",
            RadicalAction::SleightReversal => "Melee (1)",
            RadicalAction::RootingGrasp => "Medium (3)",
            RadicalAction::HarvestReaping => "Melee (1)",
            RadicalAction::RevealingDawn => "Self",
            RadicalAction::WaningCurse => "Medium (3)",
            RadicalAction::MortalResilience => "Self",
            RadicalAction::MaternalShield => "Self",
            RadicalAction::PotentialBurst => "Short (2)",
            RadicalAction::ChasingChaff => "Medium (3)",
            RadicalAction::CrossroadsGambit => "Medium (3)",
            RadicalAction::RigidStance => "Self",
            RadicalAction::GroundingWeight => "Medium (3)",
            RadicalAction::EchoStrike => "Melee (1)",
            RadicalAction::PreciseExecution => "Melee (1)",
            RadicalAction::CleavingCut => "Melee (1)",
            RadicalAction::BindingOath => "Medium (3)",
            RadicalAction::PursuingSteps => "Long (5+)",
            RadicalAction::EntanglingWeb => "Medium (3)",
            RadicalAction::ThresholdSeal => "Self",
            RadicalAction::CavalryCharge => "Long (5+)",
            RadicalAction::SoaringEscape => "Self",
            RadicalAction::DownpourBarrage => "Long (5+)",
            RadicalAction::PetrifyingGaze => "Medium (3)",
            RadicalAction::ParasiticSwarm => "Short (2)",
            RadicalAction::MercenaryPact => "Self",
            RadicalAction::ImmovablePeak => "Self",
            RadicalAction::SavageMaul => "Melee (1)",
            RadicalAction::ArcingShot => "Long (5+)",
            RadicalAction::ConsumingBite => "Melee (1)",
            RadicalAction::CloakingGuise => "Self",
            RadicalAction::FlexibleCounter => "Self",
            RadicalAction::BlitzAssault => "Long (5+)",
            RadicalAction::CrushingWheels => "Medium (3)",
            RadicalAction::ImperialCommand => "Self",
            RadicalAction::MagnifyingAura => "Self",
            RadicalAction::NeedleStrike => "Short (2)",
            RadicalAction::ArtisanTrap => "Medium (3)",
            RadicalAction::CleansingLight => "Self",
            RadicalAction::ScatteringPages => "AoE (2)",
            RadicalAction::TrueVision => "Medium (3)",
            RadicalAction::QiDisruption => "Medium (3)",
            RadicalAction::ExpandingDomain => "Self",
            RadicalAction::SinkholeSnare => "Long (5+)",
            RadicalAction::SonicBurst => "AoE (2)",
            RadicalAction::VenomousLash => "Medium (3)",
            RadicalAction::IronBodyStance => "Self",
            RadicalAction::GoreCrush => "Short (2)",
            RadicalAction::IntoxicatingMist => "AoE (2)",
            RadicalAction::SproutingBarrier => "Self",
            RadicalAction::TidalSurge => "Long (5+)",
            RadicalAction::BoneShatter => "Long (5+)",
            RadicalAction::AdaptiveShift => "Self",
            RadicalAction::BerserkerFury => "Self",
            RadicalAction::FlockAssault => "Long (5+)",
        }
    }

    pub open spec fn damage_info_spec(self) -> &'static str {
        match self {
            RadicalAction::SpreadingWildfire => "DoT 1/turn ×3",
            RadicalAction::ErosiveFlow => "No damage",
            RadicalAction::OverwhelmingForce => "1-4 (scales HP)",
            RadicalAction::DoubtSeed => "No damage",
            RadicalAction::DevouringMaw => "1 dmg",
            RadicalAction::WitnessMark => "No damage",
            RadicalAction::SleightReversal => "No damage",
            RadicalAction::RootingGrasp => "No damage",
            RadicalAction::HarvestReaping => "1 or execute",
            RadicalAction::RevealingDawn => "No damage",
            RadicalAction::WaningCurse => "DoT 2/turn ×3",
            RadicalAction::MortalResilience => "No damage",
            RadicalAction::MaternalShield => "No damage",
            RadicalAction::PotentialBurst => "1 + mark +2",
            RadicalAction::ChasingChaff => "No damage",
            RadicalAction::CrossroadsGambit => "0 or 4 dmg",
            RadicalAction::RigidStance => "No damage",
            RadicalAction::GroundingWeight => "1 dmg",
            RadicalAction::EchoStrike => "2× base dmg",
            RadicalAction::PreciseExecution => "1 or execute",
            RadicalAction::CleavingCut => "2 dmg",
            RadicalAction::BindingOath => "No damage",
            RadicalAction::PursuingSteps => "1 dmg",
            RadicalAction::EntanglingWeb => "No damage",
            RadicalAction::ThresholdSeal => "No damage",
            RadicalAction::CavalryCharge => "1-4 (scales dist)",
            RadicalAction::SoaringEscape => "No damage",
            RadicalAction::DownpourBarrage => "1 + bleed",
            RadicalAction::PetrifyingGaze => "No damage",
            RadicalAction::ParasiticSwarm => "1 + heal self",
            RadicalAction::MercenaryPact => "Self -2 HP",
            RadicalAction::ImmovablePeak => "No damage",
            RadicalAction::SavageMaul => "3 dmg",
            RadicalAction::ArcingShot => "1-3 (by dist)",
            RadicalAction::ConsumingBite => "2 + heal self",
            RadicalAction::CloakingGuise => "No damage",
            RadicalAction::FlexibleCounter => "No damage",
            RadicalAction::BlitzAssault => "1 dmg/tile",
            RadicalAction::CrushingWheels => "2 + push 3",
            RadicalAction::ImperialCommand => "No damage",
            RadicalAction::MagnifyingAura => "No damage",
            RadicalAction::NeedleStrike => "2 (pierce armor)",
            RadicalAction::ArtisanTrap => "Burn 2/turn ×2",
            RadicalAction::CleansingLight => "Heal 3",
            RadicalAction::ScatteringPages => "No damage",
            RadicalAction::TrueVision => "No damage",
            RadicalAction::QiDisruption => "Drain 3 spirit",
            RadicalAction::ExpandingDomain => "No damage",
            RadicalAction::SinkholeSnare => "No damage",
            RadicalAction::SonicBurst => "2 AoE + stun",
            RadicalAction::VenomousLash => "1 + poison",
            RadicalAction::IronBodyStance => "No damage",
            RadicalAction::GoreCrush => "2 + knockback",
            RadicalAction::IntoxicatingMist => "No damage",
            RadicalAction::SproutingBarrier => "No damage",
            RadicalAction::TidalSurge => "1-2 + push",
            RadicalAction::BoneShatter => "3 + armor break",
            RadicalAction::AdaptiveShift => "No damage",
            RadicalAction::BerserkerFury => "Self -2 HP",
            RadicalAction::FlockAssault => "1 dmg ×3",
        }
    }

    /// Damage shown in the UI.
    pub fn damage_info(self) -> (r: &'static str)
        ensures
            r == self.damage_info_spec(),
    {
        match self {
            RadicalAction::SpreadingWildfire => "DoT 1/turn ×3",
            RadicalAction::ErosiveFlow => "No damage",
            RadicalAction::OverwhelmingForce => "1-4 (scales HP)",
            RadicalAction::DoubtSeed => "No damage",
            RadicalAction::DevouringMaw => "1 dmg",
            RadicalAction::WitnessMark => "No damage",
            RadicalAction::SleightReversal => "No damage",
            RadicalAction::RootingGrasp => "No damage",
            RadicalAction::HarvestReaping => "1 or execute",
            RadicalAction::RevealingDawn => "No damage",
            RadicalAction::WaningCurse => "DoT 2/turn ×3",
            RadicalAction::MortalResilience => "No damage",
            RadicalAction::MaternalShield => "No damage",
            RadicalAction::PotentialBurst => "1 + mark +2",
            RadicalAction::ChasingChaff => "No damage",
            RadicalAction::CrossroadsGambit => "0 or 4 dmg",
            RadicalAction::RigidStance => "No damage",
            RadicalAction::GroundingWeight => "1 dmg",
            RadicalAction::EchoStrike => "2× base dmg",
            RadicalAction::PreciseExecution => "1 or execute",
            RadicalAction::CleavingCut => "2 dmg",
            RadicalAction::BindingOath => "No damage",
            RadicalAction::PursuingSteps => "1 dmg",
            RadicalAction::EntanglingWeb => "No damage",
            RadicalAction::ThresholdSeal => "No damage",
            RadicalAction::CavalryCharge => "1-4 (scales dist)",
            RadicalAction::SoaringEscape => "No damage",
            RadicalAction::DownpourBarrage => "1 + bleed",
            RadicalAction::PetrifyingGaze => "No damage",
            RadicalAction::ParasiticSwarm => "1 + heal self",
            RadicalAction::MercenaryPact => "Self -2 HP",
            RadicalAction::ImmovablePeak => "No damage",
            RadicalAction::SavageMaul => "3 dmg",
            RadicalAction::ArcingShot => "1-3 (by dist)",
            RadicalAction::ConsumingBite => "2 + heal self",
            RadicalAction::CloakingGuise => "No damage",
            RadicalAction::FlexibleCounter => "No damage",
            RadicalAction::BlitzAssault => "1 dmg/tile",
            RadicalAction::CrushingWheels => "2 + push 3",
            RadicalAction::ImperialCommand => "No damage",
            RadicalAction::MagnifyingAura => "No damage",
            RadicalAction::NeedleStrike => "2 (pierce armor)",
            RadicalAction::ArtisanTrap => "Burn 2/turn ×2",
            RadicalAction::CleansingLight => "Heal 3",
            RadicalAction::ScatteringPages => "No damage",
            RadicalAction::TrueVision => "No damage",
            RadicalAction::QiDisruption => "Drain 3 spirit",
            RadicalAction::ExpandingDomain => "No damage",
            RadicalAction::SinkholeSnare => "No damage",
            RadicalAction::SonicBurst => "2 AoE + stun",
            RadicalAction::VenomousLash => "1 + poison",
            RadicalAction::IronBodyStance => "No damage",
            RadicalAction::GoreCrush => "2 + knockback",
            RadicalAction::IntoxicatingMist => "No damage",
            RadicalAction::SproutingBarrier => "No damage",
            RadicalAction::TidalSurge => "1-2 + push",
            RadicalAction::BoneShatter => "3 + armor break",
            RadicalAction::AdaptiveShift => "No damage",
            RadicalAction::BerserkerFury => "Self -2 HP",
            RadicalAction::FlockAssault => "1 dmg ×3",
        }
    }

    pub open spec fn attack_type_spec(self) -> &'static str {
        match self {
            RadicalAction::SpreadingWildfire => "AoE",
            RadicalAction::ErosiveFlow => "Debuff",
            RadicalAction::OverwhelmingForce => "Projectile",
            RadicalAction::DoubtSeed => "Debuff",
            RadicalAction::DevouringMaw => "Melee",
            RadicalAction::WitnessMark => "Debuff",
            RadicalAction::SleightReversal => "Melee",
            RadicalAction::RootingGrasp => "Debuff",
            RadicalAction::HarvestReaping => "Melee",
            RadicalAction::RevealingDawn => "Self-buff",
            RadicalAction::WaningCurse => "Projectile",
            RadicalAction::MortalResilience => "Self-buff",
            RadicalAction::MaternalShield => "Self-buff",
            RadicalAction::PotentialBurst => "Projectile",
            RadicalAction::ChasingChaff => "Debuff",
            RadicalAction::CrossroadsGambit => "Projectile",
            RadicalAction::RigidStance => "Self-buff",
            RadicalAction::GroundingWeight => "Projectile",
            RadicalAction::EchoStrike => "Melee",
            RadicalAction::PreciseExecution => "Melee",
            RadicalAction::CleavingCut => "Melee",
            RadicalAction::BindingOath => "Debuff",
            RadicalAction::PursuingSteps => "Melee",
            RadicalAction::EntanglingWeb => "Debuff",
            RadicalAction::ThresholdSeal => "Self-buff",
            RadicalAction::CavalryCharge => "Melee",
            RadicalAction::SoaringEscape => "Self-buff",
            RadicalAction::DownpourBarrage => "Arcing (2 turns)",
            RadicalAction::PetrifyingGaze => "Debuff",
            RadicalAction::ParasiticSwarm => "Projectile",
            RadicalAction::MercenaryPact => "Support",
            RadicalAction::ImmovablePeak => "Self-buff",
            RadicalAction::SavageMaul => "Melee",
            RadicalAction::ArcingShot => "Arcing (2 turns)",
            RadicalAction::ConsumingBite => "Melee",
            RadicalAction::CloakingGuise => "Self-buff",
            RadicalAction::FlexibleCounter => "Self-buff",
            RadicalAction::BlitzAssault => "Melee",
            RadicalAction::CrushingWheels => "Projectile",
            RadicalAction::ImperialCommand => "Support",
            RadicalAction::MagnifyingAura => "Support",
            RadicalAction::NeedleStrike => "Projectile",
            RadicalAction::ArtisanTrap => "Debuff",
            RadicalAction::CleansingLight => "Self-buff",
            RadicalAction::ScatteringPages => "AoE",
            RadicalAction::TrueVision => "Debuff",
            RadicalAction::QiDisruption => "Debuff",
            RadicalAction::ExpandingDomain => "Self-buff",
            RadicalAction::SinkholeSnare => "Debuff",
            RadicalAction::SonicBurst => "AoE",
            RadicalAction::VenomousLash => "Projectile",
            RadicalAction::IronBodyStance => "Self-buff",
            RadicalAction::GoreCrush => "Melee",
            RadicalAction::IntoxicatingMist => "AoE",
            RadicalAction::SproutingBarrier => "Self-buff",
            RadicalAction::TidalSurge => "Projectile",
            RadicalAction::BoneShatter => "Arcing (1 turn)",
            RadicalAction::AdaptiveShift => "Self-buff",
            RadicalAction::BerserkerFury => "Self-buff",
            RadicalAction::FlockAssault => "Arcing (2 turns)",
        }
    }

    /// Attack category shown in the UI.
    pub fn attack_type(self) -> (r: &'static str)
        ensures
            r == self.attack_type_spec(),
    {
        match self {
            RadicalAction::SpreadingWildfire => "AoE",
            RadicalAction::ErosiveFlow => "Debuff",
            RadicalAction::OverwhelmingForce => "Projectile",
            RadicalAction::DoubtSeed => "Debuff",
            RadicalAction::DevouringMaw => "Melee",
            RadicalAction::WitnessMark => "Debuff",
            RadicalAction::SleightReversal => "Melee",
            RadicalAction::RootingGrasp => "Debuff",
            RadicalAction::HarvestReaping => "Melee",
            RadicalAction::RevealingDawn => "Self-buff",
            RadicalAction::WaningCurse => "Projectile",
            RadicalAction::MortalResilience => "Self-buff",
            RadicalAction::MaternalShield => "Self-buff",
            RadicalAction::PotentialBurst => "Projectile",
            RadicalAction::ChasingChaff => "Debuff",
            RadicalAction::CrossroadsGambit => "Projectile",
            RadicalAction::RigidStance => "Self-buff",
            RadicalAction::GroundingWeight => "Projectile",
            RadicalAction::EchoStrike => "Melee",
            RadicalAction::PreciseExecution => "Melee",
            RadicalAction::CleavingCut => "Melee",
            RadicalAction::BindingOath => "Debuff",
            RadicalAction::PursuingSteps => "Melee",
            RadicalAction::EntanglingWeb => "Debuff",
            RadicalAction::ThresholdSeal => "Self-buff",
            RadicalAction::CavalryCharge => "Melee",
            RadicalAction::SoaringEscape => "Self-buff",
            RadicalAction::DownpourBarrage => "Arcing (2 turns)",
            RadicalAction::PetrifyingGaze => "Debuff",
            RadicalAction::ParasiticSwarm => "Projectile",
            RadicalAction::MercenaryPact => "Support",
            RadicalAction::ImmovablePeak => "Self-buff",
            RadicalAction::SavageMaul => "Melee",
            RadicalAction::ArcingShot => "Arcing (2 turns)",
            RadicalAction::ConsumingBite => "Melee",
            RadicalAction::CloakingGuise => "Self-buff",
            RadicalAction::FlexibleCounter => "Self-buff",
            RadicalAction::BlitzAssault => "Melee",
            RadicalAction::CrushingWheels => "Projectile",
            RadicalAction::ImperialCommand => "Support",
            RadicalAction::MagnifyingAura => "Support",
            RadicalAction::NeedleStrike => "Projectile",
            RadicalAction::ArtisanTrap => "Debuff",
            RadicalAction::CleansingLight => "Self-buff",
            RadicalAction::ScatteringPages => "AoE",
            RadicalAction::TrueVision => "Debuff",
            RadicalAction::QiDisruption => "Debuff",
            RadicalAction::ExpandingDomain => "Self-buff",
            RadicalAction::SinkholeSnare => "Debuff",
            RadicalAction::SonicBurst => "AoE",
            RadicalAction::VenomousLash => "Projectile",
            RadicalAction::IronBodyStance => "Self-buff",
            RadicalAction::GoreCrush => "Melee",
            RadicalAction::IntoxicatingMist => "AoE",
            RadicalAction::SproutingBarrier => "Self-buff",
            RadicalAction::TidalSurge => "Projectile",
            RadicalAction::BoneShatter => "Arcing (1 turn)",
            RadicalAction::AdaptiveShift => "Self-buff",
            RadicalAction::BerserkerFury => "Self-buff",
            RadicalAction::FlockAssault => "Arcing (2 turns)",
        }
    }

    pub open spec fn type_color_spec(self) -> &'static str {
        match self {
            RadicalAction::SpreadingWildfire => "#ff6666",
            RadicalAction::ErosiveFlow => "#ffcc44",
            RadicalAction::OverwhelmingForce => "#ff6666",
            RadicalAction::DoubtSeed => "#ffcc44",
            RadicalAction::DevouringMaw => "#ff6666",
            RadicalAction::WitnessMark => "#ffcc44",
            RadicalAction::SleightReversal => "#ff6666",
            RadicalAction::RootingGrasp => "#ffcc44",
            RadicalAction::HarvestReaping => "#ff6666",
            RadicalAction::RevealingDawn => "#6688ff",
            RadicalAction::WaningCurse => "#ff6666",
            RadicalAction::MortalResilience => "#6688ff",
            RadicalAction::MaternalShield => "#6688ff",
            RadicalAction::PotentialBurst => "#ff6666",
            RadicalAction::ChasingChaff => "#ffcc44",
            RadicalAction::CrossroadsGambit => "#ff6666",
            RadicalAction::RigidStance => "#6688ff",
            RadicalAction::GroundingWeight => "#ff6666",
            RadicalAction::EchoStrike => "#ff6666",
            RadicalAction::PreciseExecution => "#ff6666",
            RadicalAction::CleavingCut => "#ff6666",
            RadicalAction::BindingOath => "#ffcc44",
            RadicalAction::PursuingSteps => "#ff6666",
            RadicalAction::EntanglingWeb => "#ffcc44",
            RadicalAction::ThresholdSeal => "#6688ff",
            RadicalAction::CavalryCharge => "#ff6666",
            RadicalAction::SoaringEscape => "#6688ff",
            RadicalAction::DownpourBarrage => "#ff9944",
            RadicalAction::PetrifyingGaze => "#ffcc44",
            RadicalAction::ParasiticSwarm => "#ff6666",
            RadicalAction::MercenaryPact => "#66cc66",
            RadicalAction::ImmovablePeak => "#6688ff",
            RadicalAction::SavageMaul => "#ff6666",
            RadicalAction::ArcingShot => "#ff9944",
            RadicalAction::ConsumingBite => "#ff6666",
            RadicalAction::CloakingGuise => "#6688ff",
            RadicalAction::FlexibleCounter => "#6688ff",
            RadicalAction::BlitzAssault => "#ff6666",
            RadicalAction::CrushingWheels => "#ff6666",
            RadicalAction::ImperialCommand => "#66cc66",
            RadicalAction::MagnifyingAura => "#66cc66",
            RadicalAction::NeedleStrike => "#ff6666",
            RadicalAction::ArtisanTrap => "#ffcc44",
            RadicalAction::CleansingLight => "#6688ff",
            RadicalAction::ScatteringPages => "#ff6666",
            RadicalAction::TrueVision => "#ffcc44",
            RadicalAction::QiDisruption => "#ffcc44",
            RadicalAction::ExpandingDomain => "#6688ff",
            RadicalAction::SinkholeSnare => "#ffcc44",
            RadicalAction::SonicBurst => "#ff6666",
            RadicalAction::VenomousLash => "#ff6666",
            RadicalAction::IronBodyStance => "#6688ff",
            RadicalAction::GoreCrush => "#ff6666",
            RadicalAction::IntoxicatingMist => "#ff6666",
            RadicalAction::SproutingBarrier => "#6688ff",
            RadicalAction::TidalSurge => "#ff6666",
            RadicalAction::BoneShatter => "#ff9944",
            RadicalAction::AdaptiveShift => "#6688ff",
            RadicalAction::BerserkerFury => "#6688ff",
            RadicalAction::FlockAssault => "#ff9944",
        }
    }

    /// The colour of an action is the colour of its attack type: red for
    /// melee, projectile and area attacks, orange for arcing ones, blue for
    /// self-buffs, yellow for debuffs, green for support.
    pub proof fn lemma_type_color_follows_attack_type(self)
        ensures
            self.type_color_spec()@ == color_for_attack_type(self.attack_type_spec()@),
    {
        reveal_strlit("Melee");
        reveal_strlit("Projectile");
        reveal_strlit("AoE");
        reveal_strlit("Arcing (1 turn)");
        reveal_strlit("Arcing (2 turns)");
        reveal_strlit("Self-buff");
        reveal_strlit("Debuff");
        reveal_strlit("Support");
        reveal_strlit("#ff6666");
        reveal_strlit("#ff9944");
        reveal_strlit("#6688ff");
        reveal_strlit("#ffcc44");
        reveal_strlit("#66cc66");
        reveal_strlit("#cccccc");
        assert("Melee"@.len() == 5);
        assert("Projectile"@.len() == 10);
        assert("AoE"@.len() == 3);
        assert("Arcing (1 turn)"@.len() == 15);
        assert("Arcing (2 turns)"@.len() == 16);
        assert("Self-buff"@.len() == 9);
        assert("Debuff"@.len() == 6);
        assert("Support"@.len() == 7);
        match self {
            RadicalAction::SpreadingWildfire => {},
            RadicalAction::ErosiveFlow => {},
            RadicalAction::OverwhelmingForce => {},
            RadicalAction::DoubtSeed => {},
            RadicalAction::DevouringMaw => {},
            RadicalAction::WitnessMark => {},
            RadicalAction::SleightReversal => {},
            RadicalAction::RootingGrasp => {},
            RadicalAction::HarvestReaping => {},
            RadicalAction::RevealingDawn => {},
            RadicalAction::WaningCurse => {},
            RadicalAction::MortalResilience => {},
            RadicalAction::MaternalShield => {},
            RadicalAction::PotentialBurst => {},
            RadicalAction::ChasingChaff => {},
            RadicalAction::CrossroadsGambit => {},
            RadicalAction::RigidStance => {},
            RadicalAction::GroundingWeight => {},
            RadicalAction::EchoStrike => {},
            RadicalAction::PreciseExecution => {},
            RadicalAction::CleavingCut => {},
            RadicalAction::BindingOath => {},
            RadicalAction::PursuingSteps => {},
            RadicalAction::EntanglingWeb => {},
            RadicalAction::ThresholdSeal => {},
            RadicalAction::CavalryCharge => {},
            RadicalAction::SoaringEscape => {},
            RadicalAction::DownpourBarrage => {},
            RadicalAction::PetrifyingGaze => {},
            RadicalAction::ParasiticSwarm => {},
            RadicalAction::MercenaryPact => {},
            RadicalAction::ImmovablePeak => {},
            RadicalAction::SavageMaul => {},
            RadicalAction::ArcingShot => {},
            RadicalAction::ConsumingBite => {},
            RadicalAction::CloakingGuise => {},
            RadicalAction::FlexibleCounter => {},
            RadicalAction::BlitzAssault => {},
            RadicalAction::CrushingWheels => {},
            RadicalAction::ImperialCommand => {},
            RadicalAction::MagnifyingAura => {},
            RadicalAction::NeedleStrike => {},
            RadicalAction::ArtisanTrap => {},
            RadicalAction::CleansingLight => {},
            RadicalAction::ScatteringPages => {},
            RadicalAction::TrueVision => {},
            RadicalAction::QiDisruption => {},
            RadicalAction::ExpandingDomain => {},
            RadicalAction::SinkholeSnare => {},
            RadicalAction::SonicBurst => {},
            RadicalAction::VenomousLash => {},
            RadicalAction::IronBodyStance => {},
            RadicalAction::GoreCrush => {},
            RadicalAction::IntoxicatingMist => {},
            RadicalAction::SproutingBarrier => {},
            RadicalAction::TidalSurge => {},
            RadicalAction::BoneShatter => {},
            RadicalAction::AdaptiveShift => {},
            RadicalAction::BerserkerFury => {},
            RadicalAction::FlockAssault => {},
        }
    }

    /// Color for the attack type category in the UI.
    pub fn type_color(self) -> (r: &'static str)
        ensures
            r == self.type_color_spec(),
    {
        match self {
            RadicalAction::SpreadingWildfire => "#ff6666",
            RadicalAction::ErosiveFlow => "#ffcc44",
            RadicalAction::OverwhelmingForce => "#ff6666",
            RadicalAction::DoubtSeed => "#ffcc44",
            RadicalAction::DevouringMaw => "#ff6666",
            RadicalAction::WitnessMark => "#ffcc44",
            RadicalAction::SleightReversal => "#ff6666",
            RadicalAction::RootingGrasp => "#ffcc44",
            RadicalAction::HarvestReaping => "#ff6666",
            RadicalAction::RevealingDawn => "#6688ff",
            RadicalAction::WaningCurse => "#ff6666",
            RadicalAction::MortalResilience => "#6688ff",
            RadicalAction::MaternalShield => "#6688ff",
            RadicalAction::PotentialBurst => "#ff6666",
            RadicalAction::ChasingChaff => "#ffcc44",
            RadicalAction::CrossroadsGambit => "#ff6666",
            RadicalAction::RigidStance => "#6688ff",
            RadicalAction::GroundingWeight => "#ff6666",
            RadicalAction::EchoStrike => "#ff6666",
            RadicalAction::PreciseExecution => "#ff6666",
            RadicalAction::CleavingCut => "#ff6666",
            RadicalAction::BindingOath => "#ffcc44",
            RadicalAction::PursuingSteps => "#ff6666",
            RadicalAction::EntanglingWeb => "#ffcc44",
            RadicalAction::ThresholdSeal => "#6688ff",
            RadicalAction::CavalryCharge => "#ff6666",
            RadicalAction::SoaringEscape => "#6688ff",
            RadicalAction::DownpourBarrage => "#ff9944",
            RadicalAction::PetrifyingGaze => "#ffcc44",
            RadicalAction::ParasiticSwarm => "#ff6666",
            RadicalAction::MercenaryPact => "#66cc66",
            RadicalAction::ImmovablePeak => "#6688ff",
            RadicalAction::SavageMaul => "#ff6666",
            RadicalAction::ArcingShot => "#ff9944",
            RadicalAction::ConsumingBite => "#ff6666",
            RadicalAction::CloakingGuise => "#6688ff",
            RadicalAction::FlexibleCounter => "#6688ff",
            RadicalAction::BlitzAssault => "#ff6666",
            RadicalAction::CrushingWheels => "#ff6666",
            RadicalAction::ImperialCommand => "#66cc66",
            RadicalAction::MagnifyingAura => "#66cc66",
            RadicalAction::NeedleStrike => "#ff6666",
            RadicalAction::ArtisanTrap => "#ffcc44",
            RadicalAction::CleansingLight => "#6688ff",
            RadicalAction::ScatteringPages => "#ff6666",
            RadicalAction::TrueVision => "#ffcc44",
            RadicalAction::QiDisruption => "#ffcc44",
            RadicalAction::ExpandingDomain => "#6688ff",
            RadicalAction::SinkholeSnare => "#ffcc44",
            RadicalAction::SonicBurst => "#ff6666",
            RadicalAction::VenomousLash => "#ff6666",
            RadicalAction::IronBodyStance => "#6688ff",
            RadicalAction::GoreCrush => "#ff6666",
            RadicalAction::IntoxicatingMist => "#ff6666",
            RadicalAction::SproutingBarrier => "#6688ff",
            RadicalAction::TidalSurge => "#ff6666",
            RadicalAction::BoneShatter => "#ff9944",
            RadicalAction::AdaptiveShift => "#6688ff",
            RadicalAction::BerserkerFury => "#6688ff",
            RadicalAction::FlockAssault => "#ff9944",
        }
    }

    /// The value a radical stands for, `None` for any other text.
    pub open spec fn from_radical_spec(s: Seq<char>) -> Option<Self> {
        if s == "火"@ {
            Some(RadicalAction::SpreadingWildfire)
        } else if s == "水"@ {
            Some(RadicalAction::ErosiveFlow)
        } else if s == "力"@ {
            Some(RadicalAction::OverwhelmingForce)
        } else if s == "心"@ {
            Some(RadicalAction::DoubtSeed)
        } else if s == "口"@ {
            Some(RadicalAction::DevouringMaw)
        } else if s == "目"@ {
            Some(RadicalAction::WitnessMark)
        } else if s == "手"@ {
            Some(RadicalAction::SleightReversal)
        } else if s == "木"@ {
            Some(RadicalAction::RootingGrasp)
        } else if s == "田"@ {
            Some(RadicalAction::HarvestReaping)
        } else if s == "日"@ {
            Some(RadicalAction::RevealingDawn)
        } else if s == "月"@ {
            Some(RadicalAction::WaningCurse)
        } else if s == "人"@ {
            Some(RadicalAction::MortalResilience)
        } else if s == "女"@ {
            Some(RadicalAction::MaternalShield)
        } else if s == "子"@ {
            Some(RadicalAction::PotentialBurst)
        } else if s == "禾"@ {
            Some(RadicalAction::ChasingChaff)
        } else if s == "十"@ {
            Some(RadicalAction::CrossroadsGambit)
        } else if s == "金"@ {
            Some(RadicalAction::RigidStance)
        } else if s == "土"@ {
            Some(RadicalAction::GroundingWeight)
        } else if s == "又"@ {
            Some(RadicalAction::EchoStrike)
        } else if s == "寸"@ {
            Some(RadicalAction::PreciseExecution)
        } else if s == "刀"@ {
            Some(RadicalAction::CleavingCut)
        } else if s == "言"@ {
            Some(RadicalAction::BindingOath)
        } else if s == "足"@ {
            Some(RadicalAction::PursuingSteps)
        } else if s == "糸"@ {
            Some(RadicalAction::EntanglingWeb)
        } else if s == "门"@ {
            Some(RadicalAction::ThresholdSeal)
        } else if s == "马"@ {
            Some(RadicalAction::CavalryCharge)
        } else if s == "鸟"@ {
            Some(RadicalAction::SoaringEscape)
        } else if s == "雨"@ {
            Some(RadicalAction::DownpourBarrage)
        } else if s == "石"@ {
            Some(RadicalAction::PetrifyingGaze)
        } else if s == "虫"@ {
            Some(RadicalAction::ParasiticSwarm)
        } else if s == "贝"@ {
            Some(RadicalAction::MercenaryPact)
        } else if s == "山"@ {
            Some(RadicalAction::ImmovablePeak)
        } else if s == "犬"@ {
            Some(RadicalAction::SavageMaul)
        } else if s == "弓"@ {
            Some(RadicalAction::ArcingShot)
        } else if s == "食"@ {
            Some(RadicalAction::ConsumingBite)
        } else if s == "衣"@ {
            Some(RadicalAction::CloakingGuise)
        } else if s == "竹"@ {
            Some(RadicalAction::FlexibleCounter)
        } else if s == "走"@ {
            Some(RadicalAction::BlitzAssault)
        } else if s == "车"@ {
            Some(RadicalAction::CrushingWheels)
        } else if s == "王"@ {
            Some(RadicalAction::ImperialCommand)
        } else if s == "大"@ {
            Some(RadicalAction::MagnifyingAura)
        } else if s == "小"@ {
            Some(RadicalAction::NeedleStrike)
        } else if s == "工"@ {
            Some(RadicalAction::ArtisanTrap)
        } else if s == "白"@ {
            Some(RadicalAction::CleansingLight)
        } else if s == "页"@ {
            Some(RadicalAction::ScatteringPages)
        } else if s == "见"@ {
            Some(RadicalAction::TrueVision)
        } else if s == "气"@ {
            Some(RadicalAction::QiDisruption)
        } else if s == "广"@ {
            Some(RadicalAction::ExpandingDomain)
        } else if s == "穴"@ {
            Some(RadicalAction::SinkholeSnare)
        } else if s == "耳"@ {
            Some(RadicalAction::SonicBurst)
        } else if s == "舌"@ {
            Some(RadicalAction::VenomousLash)
        } else if s == "身"@ {
            Some(RadicalAction::IronBodyStance)
        } else if s == "角"@ {
            Some(RadicalAction::GoreCrush)
        } else if s == "酉"@ {
            Some(RadicalAction::IntoxicatingMist)
        } else if s == "豆"@ {
            Some(RadicalAction::SproutingBarrier)
        } else if s == "鱼"@ {
            Some(RadicalAction::TidalSurge)
        } else if s == "骨"@ {
            Some(RadicalAction::BoneShatter)
        } else if s == "革"@ {
            Some(RadicalAction::AdaptiveShift)
        } else if s == "鬥"@ {
            Some(RadicalAction::BerserkerFury)
        } else if s == "隹"@ {
            Some(RadicalAction::FlockAssault)
        } else {
            None
        }
    }

    pub fn from_radical(radical: &str) -> (r: Option<Self>)
        ensures
            r == Self::from_radical_spec(radical@),
    {
        if str_eq(radical, "火") {
            return Some(RadicalAction::SpreadingWildfire);
        }
        if str_eq(radical, "水") {
            return Some(RadicalAction::ErosiveFlow);
        }
        if str_eq(radical, "力") {
            return Some(RadicalAction::OverwhelmingForce);
        }
        if str_eq(radical, "心") {
            return Some(RadicalAction::DoubtSeed);
        }
        if str_eq(radical, "口") {
            return Some(RadicalAction::DevouringMaw);
        }
        if str_eq(radical, "目") {
            return Some(RadicalAction::WitnessMark);
        }
        if str_eq(radical, "手") {
            return Some(RadicalAction::SleightReversal);
        }
        if str_eq(radical, "木") {
            return Some(RadicalAction::RootingGrasp);
        }
        if str_eq(radical, "田") {
            return Some(RadicalAction::HarvestReaping);
        }
        if str_eq(radical, "日") {
            return Some(RadicalAction::RevealingDawn);
        }
        if str_eq(radical, "月") {
            return Some(RadicalAction::WaningCurse);
        }
        if str_eq(radical, "人") {
            return Some(RadicalAction::MortalResilience);
        }
        if str_eq(radical, "女") {
            return Some(RadicalAction::MaternalShield);
        }
        if str_eq(radical, "子") {
            return Some(RadicalAction::PotentialBurst);
        }
        if str_eq(radical, "禾") {
            return Some(RadicalAction::ChasingChaff);
        }
        if str_eq(radical, "十") {
            return Some(RadicalAction::CrossroadsGambit);
        }
        if str_eq(radical, "金") {
            return Some(RadicalAction::RigidStance);
        }
        if str_eq(radical, "土") {
            return Some(RadicalAction::GroundingWeight);
        }
        if str_eq(radical, "又") {
            return Some(RadicalAction::EchoStrike);
        }
        if str_eq(radical, "寸") {
            return Some(RadicalAction::PreciseExecution);
        }
        if str_eq(radical, "刀") {
            return Some(RadicalAction::CleavingCut);
        }
        if str_eq(radical, "言") {
            return Some(RadicalAction::BindingOath);
        }
        if str_eq(radical, "足") {
            return Some(RadicalAction::PursuingSteps);
        }
        if str_eq(radical, "糸") {
            return Some(RadicalAction::EntanglingWeb);
        }
        if str_eq(radical, "门") {
            return Some(RadicalAction::ThresholdSeal);
        }
        if str_eq(radical, "马") {
            return Some(RadicalAction::CavalryCharge);
        }
        if str_eq(radical, "鸟") {
            return Some(RadicalAction::SoaringEscape);
        }
        if str_eq(radical, "雨") {
            return Some(RadicalAction::DownpourBarrage);
        }
        if str_eq(radical, "石") {
            return Some(RadicalAction::PetrifyingGaze);
        }
        if str_eq(radical, "虫") {
            return Some(RadicalAction::ParasiticSwarm);
        }
        if str_eq(radical, "贝") {
            return Some(RadicalAction::MercenaryPact);
        }
        if str_eq(radical, "山") {
            return Some(RadicalAction::ImmovablePeak);
        }
        if str_eq(radical, "犬") {
            return Some(RadicalAction::SavageMaul);
        }
        if str_eq(radical, "弓") {
            return Some(RadicalAction::ArcingShot);
        }
        if str_eq(radical, "食") {
            return Some(RadicalAction::ConsumingBite);
        }
        if str_eq(radical, "衣") {
            return Some(RadicalAction::CloakingGuise);
        }
        if str_eq(radical, "竹") {
            return Some(RadicalAction::FlexibleCounter);
        }
        if str_eq(radical, "走") {
            return Some(RadicalAction::BlitzAssault);
        }
        if str_eq(radical, "车") {
            return Some(RadicalAction::CrushingWheels);
        }
        if str_eq(radical, "王") {
            return Some(RadicalAction::ImperialCommand);
        }
        if str_eq(radical, "大") {
            return Some(RadicalAction::MagnifyingAura);
        }
        if str_eq(radical, "小") {
            return Some(RadicalAction::NeedleStrike);
        }
        if str_eq(radical, "工") {
            return Some(RadicalAction::ArtisanTrap);
        }
        if str_eq(radical, "白") {
            return Some(RadicalAction::CleansingLight);
        }
        if str_eq(radical, "页") {
            return Some(RadicalAction::ScatteringPages);
        }
        if str_eq(radical, "见") {
            return Some(RadicalAction::TrueVision);
        }
        if str_eq(radical, "气") {
            return Some(RadicalAction::QiDisruption);
        }
        if str_eq(radical, "广") {
            return Some(RadicalAction::ExpandingDomain);
        }
        if str_eq(radical, "穴") {
            return Some(RadicalAction::SinkholeSnare);
        }
        if str_eq(radical, "耳") {
            return Some(RadicalAction::SonicBurst);
        }
        if str_eq(radical, "舌") {
            return Some(RadicalAction::VenomousLash);
        }
        if str_eq(radical, "身") {
            return Some(RadicalAction::IronBodyStance);
        }
        if str_eq(radical, "角") {
            return Some(RadicalAction::GoreCrush);
        }
        if str_eq(radical, "酉") {
            return Some(RadicalAction::IntoxicatingMist);
        }
        if str_eq(radical, "豆") {
            return Some(RadicalAction::SproutingBarrier);
        }
        if str_eq(radical, "鱼") {
            return Some(RadicalAction::TidalSurge);
        }
        if str_eq(radical, "骨") {
            return Some(RadicalAction::BoneShatter);
        }
        if str_eq(radical, "革") {
            return Some(RadicalAction::AdaptiveShift);
        }
        if str_eq(radical, "鬥") {
            return Some(RadicalAction::BerserkerFury);
        }
        if str_eq(radical, "隹") {
            return Some(RadicalAction::FlockAssault);
        }
        None
    }

}

/// Every radical names its action back: `from_radical(radical(a)) == Some(a)`.
pub proof fn lemma_radical_action_round_trip(a: RadicalAction)
    ensures
        RadicalAction::from_radical_spec(a.radical_spec()@) == Some(a),
{
    reveal_strlit("火");
    assert("火"@.len() == 1 && "火"@[0] == '火');
    reveal_strlit("水");
    assert("水"@.len() == 1 && "水"@[0] == '水');
    reveal_strlit("力");
    assert("力"@.len() == 1 && "力"@[0] == '力');
    reveal_strlit("心");
    assert("心"@.len() == 1 && "心"@[0] == '心');
    reveal_strlit("口");
    assert("口"@.len() == 1 && "口"@[0] == '口');
    reveal_strlit("目");
    assert("目"@.len() == 1 && "目"@[0] == '目');
    reveal_strlit("手");
    assert("手"@.len() == 1 && "手"@[0] == '手');
    reveal_strlit("木");
    assert("木"@.len() == 1 && "木"@[0] == '木');
    reveal_strlit("田");
    assert("田"@.len() == 1 && "田"@[0] == '田');
    reveal_strlit("日");
    assert("日"@.len() == 1 && "日"@[0] == '日');
    reveal_strlit("月");
    assert("月"@.len() == 1 && "月"@[0] == '月');
    reveal_strlit("人");
    assert("人"@.len() == 1 && "人"@[0] == '人');
    reveal_strlit("女");
    assert("女"@.len() == 1 && "女"@[0] == '女');
    reveal_strlit("子");
    assert("子"@.len() == 1 && "子"@[0] == '子');
    reveal_strlit("禾");
    assert("禾"@.len() == 1 && "禾"@[0] == '禾');
    reveal_strlit("十");
    assert("十"@.len() == 1 && "十"@[0] == '十');
    reveal_strlit("金");
    assert("金"@.len() == 1 && "金"@[0] == '金');
    reveal_strlit("土");
    assert("土"@.len() == 1 && "土"@[0] == '土');
    reveal_strlit("又");
    assert("又"@.len() == 1 && "又"@[0] == '又');
    reveal_strlit("寸");
    assert("寸"@.len() == 1 && "寸"@[0] == '寸');
    reveal_strlit("刀");
    assert("刀"@.len() == 1 && "刀"@[0] == '刀');
    reveal_strlit("言");
    assert("言"@.len() == 1 && "言"@[0] == '言');
    reveal_strlit("足");
    assert("足"@.len() == 1 && "足"@[0] == '足');
    reveal_strlit("糸");
    assert("糸"@.len() == 1 && "糸"@[0] == '糸');
    reveal_strlit("门");
    assert("门"@.len() == 1 && "门"@[0] == '门');
    reveal_strlit("马");
    assert("马"@.len() == 1 && "马"@[0] == '马');
    reveal_strlit("鸟");
    assert("鸟"@.len() == 1 && "鸟"@[0] == '鸟');
    reveal_strlit("雨");
    assert("雨"@.len() == 1 && "雨"@[0] == '雨');
    reveal_strlit("石");
    assert("石"@.len() == 1 && "石"@[0] == '石');
    reveal_strlit("虫");
    assert("虫"@.len() == 1 && "虫"@[0] == '虫');
    reveal_strlit("贝");
    assert("贝"@.len() == 1 && "贝"@[0] == '贝');
    reveal_strlit("山");
    assert("山"@.len() == 1 && "山"@[0] == '山');
    reveal_strlit("犬");
    assert("犬"@.len() == 1 && "犬"@[0] == '犬');
    reveal_strlit("弓");
    assert("弓"@.len() == 1 && "弓"@[0] == '弓');
    reveal_strlit("食");
    assert("食"@.len() == 1 && "食"@[0] == '食');
    reveal_strlit("衣");
    assert("衣"@.len() == 1 && "衣"@[0] == '衣');
    reveal_strlit("竹");
    assert("竹"@.len() == 1 && "竹"@[0] == '竹');
    reveal_strlit("走");
    assert("走"@.len() == 1 && "走"@[0] == '走');
    reveal_strlit("车");
    assert("车"@.len() == 1 && "车"@[0] == '车');
    reveal_strlit("王");
    assert("王"@.len() == 1 && "王"@[0] == '王');
    reveal_strlit("大");
    assert("大"@.len() == 1 && "大"@[0] == '大');
    reveal_strlit("小");
    assert("小"@.len() == 1 && "小"@[0] == '小');
    reveal_strlit("工");
    assert("工"@.len() == 1 && "工"@[0] == '工');
    reveal_strlit("白");
    assert("白"@.len() == 1 && "白"@[0] == '白');
    reveal_strlit("页");
    assert("页"@.len() == 1 && "页"@[0] == '页');
    reveal_strlit("见");
    assert("见"@.len() == 1 && "见"@[0] == '见');
    reveal_strlit("气");
    assert("气"@.len() == 1 && "气"@[0] == '气');
    reveal_strlit("广");
    assert("广"@.len() == 1 && "广"@[0] == '广');
    reveal_strlit("穴");
    assert("穴"@.len() == 1 && "穴"@[0] == '穴');
    reveal_strlit("耳");
    assert("耳"@.len() == 1 && "耳"@[0] == '耳');
    reveal_strlit("舌");
    assert("舌"@.len() == 1 && "舌"@[0] == '舌');
    reveal_strlit("身");
    assert("身"@.len() == 1 && "身"@[0] == '身');
    reveal_strlit("角");
    assert("角"@.len() == 1 && "角"@[0] == '角');
    reveal_strlit("酉");
    assert("酉"@.len() == 1 && "酉"@[0] == '酉');
    reveal_strlit("豆");
    assert("豆"@.len() == 1 && "豆"@[0] == '豆');
    reveal_strlit("鱼");
    assert("鱼"@.len() == 1 && "鱼"@[0] == '鱼');
    reveal_strlit("骨");
    assert("骨"@.len() == 1 && "骨"@[0] == '骨');
    reveal_strlit("革");
    assert("革"@.len() == 1 && "革"@[0] == '革');
    reveal_strlit("鬥");
    assert("鬥"@.len() == 1 && "鬥"@[0] == '鬥');
    reveal_strlit("隹");
    assert("隹"@.len() == 1 && "隹"@[0] == '隹');
    let s = a.radical_spec()@;
    assert(s.len() == 1 && s[0] == s[0]);
}

/// Player-facing abilities derived from collected radicals.
/// Each radical maps to exactly ONE ability (1:1 mapping).
#[derive(Clone, Copy, Debug, PartialEq, Eq, Structural)]
pub enum PlayerRadicalAbility {

    /// 火 fire — Bonus fire damage + burn
    FireStrike,
    /// 水 water — Slow target, restore focus
    TidalSurge,
    /// 力 strength — +50% base damage
    PowerStrike,
    /// 心 heart — Reveal all enemy intents
    Insight,
    /// 口 mouth — Heal for 50% of damage dealt
    Devour,
    /// 目 eye — Ignore armor, cannot miss
    TrueStrike,
    /// 手 hand — Attack doesn't consume action
    SwiftHands,
    /// 木 wood — Slow target, gain temp armor
    Entangle,
    /// 田 field — Bonus damage vs low HP targets
    Reap,
    /// 日 sun — Clear own debuffs + bonus damage
    SolarFlare,
    /// 月 moon — Apply poison DoT
    MoonVenom,
    /// 人 person — Gain temp HP after attack
    Resilience,
    /// 女 woman — Gain counter + thorn armor
    Guardian,
    /// 子 child — Mark target for bonus future damage
    GrowingStrike,
    /// 禾 grain — Extend combo streak by 2
    Harvest,
    /// 十 cross — Double damage or miss entirely
    Gamble,
    /// 金 metal — Armor-piercing: ignore all armor
    Shatter,
    /// 土 earth — Push target 2 tiles + stun
    Earthquake,
    /// 又 again — Attack hits twice
    DoubleStrike,
    /// 寸 inch — Execute: kill if target HP <= 25%
    Execution,
    /// 刀 knife — Bleed target + reduce max HP
    DeepCut,
    /// 言 speech — Confuse target 2 turns
    Intimidate,
    /// 足 foot — Dash to target + bonus damage
    Lunge,
    /// 糸 silk — Slow + bleed target
    Ensnare,
    /// 门 gate — Gain +3 armor after attack
    Fortify,
    /// 马 horse — Knockback target 3 tiles
    Charge,
    /// 鸟 bird — Gain +2 movement next turn
    Windstep,
    /// 雨 rain — AoE: splash 1 damage to adjacent enemies
    Downpour,
    /// 石 stone — Stun target 1 turn
    Concuss,
    /// 虫 insect — Poison + weaken target
    Infest,
    /// 贝 shell — Gain gold on kill (bonus loot)
    Plunder,
    /// 山 mountain — Gain +2 armor, +1 fortify
    Bulwark,
    /// 犬 beast — Bonus damage + self-heal 1
    Frenzy,
    /// 弓 bow — Attack at range (skip adjacency)
    Snipe,
    /// 食 food — Heal 3 HP after attack
    Nourish,
    /// 衣 clothing — Dodge next incoming attack
    Evade,
    /// 竹 bamboo — Counter next attack + thorn 2 turns
    Riposte,
    /// 走 walk — Free movement after attack
    HitAndRun,
    /// 车 vehicle — Push target + deal damage per tile pushed
    Bulldoze,
    /// 王 king — All attacks this turn deal +1 damage
    Inspire,
    /// 大 big — AoE: hit all adjacent enemies
    Cleave,
    /// 小 small — Ignore armor, +2 bonus damage
    PreciseStab,
    /// 工 craft — Place fire terrain around target
    Sabotage,
    /// 白 white — Restore 3 focus + clear debuffs
    Purify,
}

/// How a player radical ability is targeted when used independently.
#[derive(Clone, Copy, Debug, PartialEq, Eq, Structural)]
pub enum SkillType {
    /// No target needed — applied to self.
    SelfBuff,
    /// Needs an adjacent enemy.
    MeleeTarget,
    /// Needs an enemy within range.
    RangedTarget(i32),
    /// Needs a tile within range.
    GroundTarget(i32),
}

impl PlayerRadicalAbility {
    pub open spec fn skill_type_spec(self) -> SkillType {
        match self {
            PlayerRadicalAbility::FireStrike => SkillType::RangedTarget(3),
            PlayerRadicalAbility::TidalSurge => SkillType::RangedTarget(3),
            PlayerRadicalAbility::PowerStrike => SkillType::MeleeTarget,
            PlayerRadicalAbility::Insight => SkillType::SelfBuff,
            PlayerRadicalAbility::Devour => SkillType::MeleeTarget,
            PlayerRadicalAbility::TrueStrike => SkillType::MeleeTarget,
            PlayerRadicalAbility::SwiftHands => SkillType::SelfBuff,
            PlayerRadicalAbility::Entangle => SkillType::RangedTarget(3),
            PlayerRadicalAbility::Reap => SkillType::MeleeTarget,
            PlayerRadicalAbility::SolarFlare => SkillType::SelfBuff,
            PlayerRadicalAbility::MoonVenom => SkillType::RangedTarget(3),
            PlayerRadicalAbility::Resilience => SkillType::SelfBuff,
            PlayerRadicalAbility::Guardian => SkillType::SelfBuff,
            PlayerRadicalAbility::GrowingStrike => SkillType::RangedTarget(3),
            PlayerRadicalAbility::Harvest => SkillType::SelfBuff,
            PlayerRadicalAbility::Gamble => SkillType::MeleeTarget,
            PlayerRadicalAbility::Shatter => SkillType::MeleeTarget,
            PlayerRadicalAbility::Earthquake => SkillType::GroundTarget(3),
            PlayerRadicalAbility::DoubleStrike => SkillType::MeleeTarget,
            PlayerRadicalAbility::Execution => SkillType::MeleeTarget,
            PlayerRadicalAbility::DeepCut => SkillType::MeleeTarget,
            PlayerRadicalAbility::Intimidate => SkillType::RangedTarget(3),
            PlayerRadicalAbility::Lunge => SkillType::MeleeTarget,
            PlayerRadicalAbility::Ensnare => SkillType::RangedTarget(3),
            PlayerRadicalAbility::Fortify => SkillType::SelfBuff,
            PlayerRadicalAbility::Charge => SkillType::MeleeTarget,
            PlayerRadicalAbility::Windstep => SkillType::SelfBuff,
            PlayerRadicalAbility::Downpour => SkillType::GroundTarget(3),
            PlayerRadicalAbility::Concuss => SkillType::MeleeTarget,
            PlayerRadicalAbility::Infest => SkillType::RangedTarget(3),
            PlayerRadicalAbility::Plunder => SkillType::MeleeTarget,
            PlayerRadicalAbility::Bulwark => SkillType::SelfBuff,
            PlayerRadicalAbility::Frenzy => SkillType::MeleeTarget,
            PlayerRadicalAbility::Snipe => SkillType::RangedTarget(5),
            PlayerRadicalAbility::Nourish => SkillType::SelfBuff,
            PlayerRadicalAbility::Evade => SkillType::SelfBuff,
            PlayerRadicalAbility::Riposte => SkillType::SelfBuff,
            PlayerRadicalAbility::HitAndRun => SkillType::SelfBuff,
            PlayerRadicalAbility::Bulldoze => SkillType::MeleeTarget,
            PlayerRadicalAbility::Inspire => SkillType::SelfBuff,
            PlayerRadicalAbility::Cleave => SkillType::GroundTarget(3),
            PlayerRadicalAbility::PreciseStab => SkillType::MeleeTarget,
            PlayerRadicalAbility::Sabotage => SkillType::GroundTarget(3),
            PlayerRadicalAbility::Purify => SkillType::SelfBuff,
        }
    }

    /// Categorise this ability for standalone skill usage.
    pub fn skill_type(self) -> (r: SkillType)
        ensures
            r == self.skill_type_spec(),
    {
        match self {
            PlayerRadicalAbility::FireStrike => SkillType::RangedTarget(3),
            PlayerRadicalAbility::TidalSurge => SkillType::RangedTarget(3),
            PlayerRadicalAbility::PowerStrike => SkillType::MeleeTarget,
            PlayerRadicalAbility::Insight => SkillType::SelfBuff,
            PlayerRadicalAbility::Devour => SkillType::MeleeTarget,
            PlayerRadicalAbility::TrueStrike => SkillType::MeleeTarget,
            PlayerRadicalAbility::SwiftHands => SkillType::SelfBuff,
            PlayerRadicalAbility::Entangle => SkillType::RangedTarget(3),
            PlayerRadicalAbility::Reap => SkillType::MeleeTarget,
            PlayerRadicalAbility::SolarFlare => SkillType::SelfBuff,
            PlayerRadicalAbility::MoonVenom => SkillType::RangedTarget(3),
            PlayerRadicalAbility::Resilience => SkillType::SelfBuff,
            PlayerRadicalAbility::Guardian => SkillType::SelfBuff,
            PlayerRadicalAbility::GrowingStrike => SkillType::RangedTarget(3),
            PlayerRadicalAbility::Harvest => SkillType::SelfBuff,
            PlayerRadicalAbility::Gamble => SkillType::MeleeTarget,
            PlayerRadicalAbility::Shatter => SkillType::MeleeTarget,
            PlayerRadicalAbility::Earthquake => SkillType::GroundTarget(3),
            PlayerRadicalAbility::DoubleStrike => SkillType::MeleeTarget,
            PlayerRadicalAbility::Execution => SkillType::MeleeTarget,
            PlayerRadicalAbility::DeepCut => SkillType::MeleeTarget,
            PlayerRadicalAbility::Intimidate => SkillType::RangedTarget(3),
            PlayerRadicalAbility::Lunge => SkillType::MeleeTarget,
            PlayerRadicalAbility::Ensnare => SkillType::RangedTarget(3),
            PlayerRadicalAbility::Fortify => SkillType::SelfBuff,
            PlayerRadicalAbility::Charge => SkillType::MeleeTarget,
            PlayerRadicalAbility::Windstep => SkillType::SelfBuff,
            PlayerRadicalAbility::Downpour => SkillType::GroundTarget(3),
            PlayerRadicalAbility::Concuss => SkillType::MeleeTarget,
            PlayerRadicalAbility::Infest => SkillType::RangedTarget(3),
            PlayerRadicalAbility::Plunder => SkillType::MeleeTarget,
            PlayerRadicalAbility::Bulwark => SkillType::SelfBuff,
            PlayerRadicalAbility::Frenzy => SkillType::MeleeTarget,
            PlayerRadicalAbility::Snipe => SkillType::RangedTarget(5),
            PlayerRadicalAbility::Nourish => SkillType::SelfBuff,
            PlayerRadicalAbility::Evade => SkillType::SelfBuff,
            PlayerRadicalAbility::Riposte => SkillType::SelfBuff,
            PlayerRadicalAbility::HitAndRun => SkillType::SelfBuff,
            PlayerRadicalAbility::Bulldoze => SkillType::MeleeTarget,
            PlayerRadicalAbility::Inspire => SkillType::SelfBuff,
            PlayerRadicalAbility::Cleave => SkillType::GroundTarget(3),
            PlayerRadicalAbility::PreciseStab => SkillType::MeleeTarget,
            PlayerRadicalAbility::Sabotage => SkillType::GroundTarget(3),
            PlayerRadicalAbility::Purify => SkillType::SelfBuff,
        }
    }

    pub open spec fn skill_type_label_spec(self) -> &'static str {
        match self.skill_type_spec() {
            SkillType::SelfBuff => "Self",
            SkillType::MeleeTarget => "Melee",
            SkillType::RangedTarget(_) => "Ranged",
            SkillType::GroundTarget(_) => "Area",
        }
    }

    /// Short label for the skill type shown in the skill menu.
    pub fn skill_type_label(self) -> (r: &'static str)
        ensures
            r == self.skill_type_label_spec(),
    {
        match self.skill_type() {
            SkillType::SelfBuff => "Self",
            SkillType::MeleeTarget => "Melee",
            SkillType::RangedTarget(_) => "Ranged",
            SkillType::GroundTarget(_) => "Area",
        }
    }

    pub open spec fn radical_spec(self) -> &'static str {
        match self {
            PlayerRadicalAbility::FireStrike => "火",
            PlayerRadicalAbility::TidalSurge => "水",
            PlayerRadicalAbility::PowerStrike => "力",
            PlayerRadicalAbility::Insight => "心",
            PlayerRadicalAbility::Devour => "口",
            PlayerRadicalAbility::TrueStrike => "目",
            PlayerRadicalAbility::SwiftHands => "手",
            PlayerRadicalAbility::Entangle => "木",
            PlayerRadicalAbility::Reap => "田",
            PlayerRadicalAbility::SolarFlare => "日",
            PlayerRadicalAbility::MoonVenom => "月",
            PlayerRadicalAbility::Resilience => "人",
            PlayerRadicalAbility::Guardian => "女",
            PlayerRadicalAbility::GrowingStrike => "子",
            PlayerRadicalAbility::Harvest => "禾",
            PlayerRadicalAbility::Gamble => "十",
            PlayerRadicalAbility::Shatter => "金",
            PlayerRadicalAbility::Earthquake => "土",
            PlayerRadicalAbility::DoubleStrike => "又",
            PlayerRadicalAbility::Execution => "寸",
            PlayerRadicalAbility::DeepCut => "刀",
            PlayerRadicalAbility::Intimidate => "言",
            PlayerRadicalAbility::Lunge => "足",
            PlayerRadicalAbility::Ensnare => "糸",
            PlayerRadicalAbility::Fortify => "门",
            PlayerRadicalAbility::Charge => "马",
            PlayerRadicalAbility::Windstep => "鸟",
            PlayerRadicalAbility::Downpour => "雨",
            PlayerRadicalAbility::Concuss => "石",
            PlayerRadicalAbility::Infest => "虫",
            PlayerRadicalAbility::Plunder => "贝",
            PlayerRadicalAbility::Bulwark => "山",
            PlayerRadicalAbility::Frenzy => "犬",
            PlayerRadicalAbility::Snipe => "弓",
            PlayerRadicalAbility::Nourish => "食",
            PlayerRadicalAbility::Evade => "衣",
            PlayerRadicalAbility::Riposte => "竹",
            PlayerRadicalAbility::HitAndRun => "走",
            PlayerRadicalAbility::Bulldoze => "车",
            PlayerRadicalAbility::Inspire => "王",
            PlayerRadicalAbility::Cleave => "大",
            PlayerRadicalAbility::PreciseStab => "小",
            PlayerRadicalAbility::Sabotage => "工",
            PlayerRadicalAbility::Purify => "白",
        }
    }

    /// The radical this ability comes from.
    pub fn radical(self) -> (r: &'static str)
        ensures
            r == self.radical_spec(),
    {
        match self {
            PlayerRadicalAbility::FireStrike => "火",
            PlayerRadicalAbility::TidalSurge => "水",
            PlayerRadicalAbility::PowerStrike => "力",
            PlayerRadicalAbility::Insight => "心",
            PlayerRadicalAbility::Devour => "口",
            PlayerRadicalAbility::TrueStrike => "目",
            PlayerRadicalAbility::SwiftHands => "手",
            PlayerRadicalAbility::Entangle => "木",
            PlayerRadicalAbility::Reap => "田",
            PlayerRadicalAbility::SolarFlare => "日",
            PlayerRadicalAbility::MoonVenom => "月",
            PlayerRadicalAbility::Resilience => "人",
            PlayerRadicalAbility::Guardian => "女",
            PlayerRadicalAbility::GrowingStrike => "子",
            PlayerRadicalAbility::Harvest => "禾",
            PlayerRadicalAbility::Gamble => "十",
            PlayerRadicalAbility::Shatter => "金",
            PlayerRadicalAbility::Earthquake => "土",
            PlayerRadicalAbility::DoubleStrike => "又",
            PlayerRadicalAbility::Execution => "寸",
            PlayerRadicalAbility::DeepCut => "刀",
            PlayerRadicalAbility::Intimidate => "言",
            PlayerRadicalAbility::Lunge => "足",
            PlayerRadicalAbility::Ensnare => "糸",
            PlayerRadicalAbility::Fortify => "门",
            PlayerRadicalAbility::Charge => "马",
            PlayerRadicalAbility::Windstep => "鸟",
            PlayerRadicalAbility::Downpour => "雨",
            PlayerRadicalAbility::Concuss => "石",
            PlayerRadicalAbility::Infest => "虫",
            PlayerRadicalAbility::Plunder => "贝",
            PlayerRadicalAbility::Bulwark => "山",
            PlayerRadicalAbility::Frenzy => "犬",
            PlayerRadicalAbility::Snipe => "弓",
            PlayerRadicalAbility::Nourish => "食",
            PlayerRadicalAbility::Evade => "衣",
            PlayerRadicalAbility::Riposte => "竹",
            PlayerRadicalAbility::HitAndRun => "走",
            PlayerRadicalAbility::Bulldoze => "车",
            PlayerRadicalAbility::Inspire => "王",
            PlayerRadicalAbility::Cleave => "大",
            PlayerRadicalAbility::PreciseStab => "小",
            PlayerRadicalAbility::Sabotage => "工",
            PlayerRadicalAbility::Purify => "白",
        }
    }

    pub open spec fn name_spec(self) -> &'static str {
        match self {
            PlayerRadicalAbility::FireStrike => "\u{1F525} Fire Strike",
            PlayerRadicalAbility::TidalSurge => "\u{1F4A7} Tidal Surge",
            PlayerRadicalAbility::PowerStrike => "\u{1F4AA} Power Strike",
            PlayerRadicalAbility::Insight => "\u{1F49C} Insight",
            PlayerRadicalAbility::Devour => "\u{1F444} Devour",
            PlayerRadicalAbility::TrueStrike => "\u{1F441} True Strike",
            PlayerRadicalAbility::SwiftHands => "\u{270B} Swift Hands",
            PlayerRadicalAbility::Entangle => "\u{1F33F} Entangle",
            PlayerRadicalAbility::Reap => "\u{1F33E} Reap",
            PlayerRadicalAbility::SolarFlare => "\u{2600} Solar Flare",
            PlayerRadicalAbility::MoonVenom => "\u{1F319} Moon Venom",
            PlayerRadicalAbility::Resilience => "\u{1F464} Resilience",
            PlayerRadicalAbility::Guardian => "\u{1F495} Guardian",
            PlayerRadicalAbility::GrowingStrike => "\u{26A1} Growing Strike",
            PlayerRadicalAbility::Harvest => "\u{1F33E} Harvest",
            PlayerRadicalAbility::Gamble => "\u{2715} Gamble",
            PlayerRadicalAbility::Shatter => "\u{1F6E1} Shatter",
            PlayerRadicalAbility::Earthquake => "\u{1F30D} Earthquake",
            PlayerRadicalAbility::DoubleStrike => "\u{1F504} Double Strike",
            PlayerRadicalAbility::Execution => "\u{1F4CF} Execution",
            PlayerRadicalAbility::DeepCut => "\u{1F5E1} Deep Cut",
            PlayerRadicalAbility::Intimidate => "\u{1F4DC} Intimidate",
            PlayerRadicalAbility::Lunge => "\u{1F463} Lunge",
            PlayerRadicalAbility::Ensnare => "\u{1F578} Ensnare",
            PlayerRadicalAbility::Fortify => "\u{1F6AA} Fortify",
            PlayerRadicalAbility::Charge => "\u{1F434} Charge",
            PlayerRadicalAbility::Windstep => "\u{1F426} Windstep",
            PlayerRadicalAbility::Downpour => "\u{1F327} Downpour",
            PlayerRadicalAbility::Concuss => "\u{1FAA8} Concuss",
            PlayerRadicalAbility::Infest => "\u{1F41B} Infest",
            PlayerRadicalAbility::Plunder => "\u{1F41A} Plunder",
            PlayerRadicalAbility::Bulwark => "\u{26F0} Bulwark",
            PlayerRadicalAbility::Frenzy => "\u{1F415} Frenzy",
            PlayerRadicalAbility::Snipe => "\u{1F3F9} Snipe",
            PlayerRadicalAbility::Nourish => "\u{1F356} Nourish",
            PlayerRadicalAbility::Evade => "\u{1F458} Evade",
            PlayerRadicalAbility::Riposte => "\u{1F38B} Riposte",
            PlayerRadicalAbility::HitAndRun => "\u{1F4A8} Hit & Run",
            PlayerRadicalAbility::Bulldoze => "\u{1F6DE} Bulldoze",
            PlayerRadicalAbility::Inspire => "\u{1F451} Inspire",
            PlayerRadicalAbility::Cleave => "\u{1F53A} Cleave",
            PlayerRadicalAbility::PreciseStab => "\u{1F53B} Precise Stab",
            PlayerRadicalAbility::Sabotage => "\u{2699} Sabotage",
            PlayerRadicalAbility::Purify => "\u{2728} Purify",
        }
    }

    /// Display name.
    pub fn name(self) -> (r: &'static str)
        ensures
            r == self.name_spec(),
    {
        match self {
            PlayerRadicalAbility::FireStrike => "\u{1F525} Fire Strike",
            PlayerRadicalAbility::TidalSurge => "\u{1F4A7} Tidal Surge",
            PlayerRadicalAbility::PowerStrike => "\u{1F4AA} Power Strike",
            PlayerRadicalAbility::Insight => "\u{1F49C} Insight",
            PlayerRadicalAbility::Devour => "\u{1F444} Devour",
            PlayerRadicalAbility::TrueStrike => "\u{1F441} True Strike",
            PlayerRadicalAbility::SwiftHands => "\u{270B} Swift Hands",
            PlayerRadicalAbility::Entangle => "\u{1F33F} Entangle",
            PlayerRadicalAbility::Reap => "\u{1F33E} Reap",
            PlayerRadicalAbility::SolarFlare => "\u{2600} Solar Flare",
            PlayerRadicalAbility::MoonVenom => "\u{1F319} Moon Venom",
            PlayerRadicalAbility::Resilience => "\u{1F464} Resilience",
            PlayerRadicalAbility::Guardian => "\u{1F495} Guardian",
            PlayerRadicalAbility::GrowingStrike => "\u{26A1} Growing Strike",
            PlayerRadicalAbility::Harvest => "\u{1F33E} Harvest",
            PlayerRadicalAbility::Gamble => "\u{2715} Gamble",
            PlayerRadicalAbility::Shatter => "\u{1F6E1} Shatter",
            PlayerRadicalAbility::Earthquake => "\u{1F30D} Earthquake",
            PlayerRadicalAbility::DoubleStrike => "\u{1F504} Double Strike",
            PlayerRadicalAbility::Execution => "\u{1F4CF} Execution",
            PlayerRadicalAbility::DeepCut => "\u{1F5E1} Deep Cut",
            PlayerRadicalAbility::Intimidate => "\u{1F4DC} Intimidate",
            PlayerRadicalAbility::Lunge => "\u{1F463} Lunge",
            PlayerRadicalAbility::Ensnare => "\u{1F578} Ensnare",
            PlayerRadicalAbility::Fortify => "\u{1F6AA} Fortify",
            PlayerRadicalAbility::Charge => "\u{1F434} Charge",
            PlayerRadicalAbility::Windstep => "\u{1F426} Windstep",
            PlayerRadicalAbility::Downpour => "\u{1F327} Downpour",
            PlayerRadicalAbility::Concuss => "\u{1FAA8} Concuss",
            PlayerRadicalAbility::Infest => "\u{1F41B} Infest",
            PlayerRadicalAbility::Plunder => "\u{1F41A} Plunder",
            PlayerRadicalAbility::Bulwark => "\u{26F0} Bulwark",
            PlayerRadicalAbility::Frenzy => "\u{1F415} Frenzy",
            PlayerRadicalAbility::Snipe => "\u{1F3F9} Snipe",
            PlayerRadicalAbility::Nourish => "\u{1F356} Nourish",
            PlayerRadicalAbility::Evade => "\u{1F458} Evade",
            PlayerRadicalAbility::Riposte => "\u{1F38B} Riposte",
            PlayerRadicalAbility::HitAndRun => "\u{1F4A8} Hit & Run",
            PlayerRadicalAbility::Bulldoze => "\u{1F6DE} Bulldoze",
            PlayerRadicalAbility::Inspire => "\u{1F451} Inspire",
            PlayerRadicalAbility::Cleave => "\u{1F53A} Cleave",
            PlayerRadicalAbility::PreciseStab => "\u{1F53B} Precise Stab",
            PlayerRadicalAbility::Sabotage => "\u{2699} Sabotage",
            PlayerRadicalAbility::Purify => "\u{2728} Purify",
        }
    }

    pub open spec fn description_spec(self) -> &'static str {
        match self {
            PlayerRadicalAbility::FireStrike => "+2 fire damage, Burn 1 dmg for 2 turns",
            PlayerRadicalAbility::TidalSurge => "Slow target 2 turns, restore 2 Focus",
            PlayerRadicalAbility::PowerStrike => "+50% base damage on this attack",
            PlayerRadicalAbility::Insight => "Reveal all enemy intents for 3 turns",
            PlayerRadicalAbility::Devour => "Heal for 50% of damage dealt",
            PlayerRadicalAbility::TrueStrike => "Ignores armor, cannot miss",
            PlayerRadicalAbility::SwiftHands => "Attack doesn't consume your action",
            PlayerRadicalAbility::Entangle => "Slow target 3 turns, +1 temp armor",
            PlayerRadicalAbility::Reap => "+3 bonus damage if target HP < 40%",
            PlayerRadicalAbility::SolarFlare => "Clear your debuffs, +2 bonus damage",
            PlayerRadicalAbility::MoonVenom => "Poison: 2 dmg for 3 turns",
            PlayerRadicalAbility::Resilience => "Gain 2 temporary HP after attack",
            PlayerRadicalAbility::Guardian => "Gain counter-attack + thorn armor 2 turns",
            PlayerRadicalAbility::GrowingStrike => "Mark target: +2 damage from all sources",
            PlayerRadicalAbility::Harvest => "Extend combo streak by +2",
            PlayerRadicalAbility::Gamble => "50/50: triple damage or miss entirely",
            PlayerRadicalAbility::Shatter => "Destroy all target armor, +1 damage",
            PlayerRadicalAbility::Earthquake => "Push target 2 tiles + stun 1 turn",
            PlayerRadicalAbility::DoubleStrike => "Attack hits a second time for base damage",
            PlayerRadicalAbility::Execution => "Instant kill if target HP <= 25%",
            PlayerRadicalAbility::DeepCut => "Bleed 2 dmg for 2 turns, -1 max HP",
            PlayerRadicalAbility::Intimidate => "Confuse target for 2 turns",
            PlayerRadicalAbility::Lunge => "+2 damage, gain free movement after",
            PlayerRadicalAbility::Ensnare => "Slow 3 turns + Bleed 1 for 2 turns",
            PlayerRadicalAbility::Fortify => "Gain +3 armor after attacking",
            PlayerRadicalAbility::Charge => "Knockback target 3 tiles",
            PlayerRadicalAbility::Windstep => "Gain +2 stored movement",
            PlayerRadicalAbility::Downpour => "Splash 1 damage to all adjacent enemies",
            PlayerRadicalAbility::Concuss => "Stun target for 1 turn",
            PlayerRadicalAbility::Infest => "Poison 1 for 3 turns + Slow 1 turn",
            PlayerRadicalAbility::Plunder => "Bonus gold if this kills the target",
            PlayerRadicalAbility::Bulwark => "Gain +2 armor and +1 fortify",
            PlayerRadicalAbility::Frenzy => "+1 bonus damage, heal 1 HP",
            PlayerRadicalAbility::Snipe => "Can target non-adjacent enemies in LoS",
            PlayerRadicalAbility::Nourish => "Heal 3 HP after attacking",
            PlayerRadicalAbility::Evade => "Dodge the next incoming attack",
            PlayerRadicalAbility::Riposte => "Counter next attack + thorn armor 2 turns",
            PlayerRadicalAbility::HitAndRun => "Gain free movement after attack",
            PlayerRadicalAbility::Bulldoze => "Push target 2 tiles, 1 dmg per tile",
            PlayerRadicalAbility::Inspire => "+1 damage to all attacks this turn",
            PlayerRadicalAbility::Cleave => "Hit all adjacent enemies for base damage",
            PlayerRadicalAbility::PreciseStab => "Ignore armor, +2 bonus damage",
            PlayerRadicalAbility::Sabotage => "Create fire terrain around target",
            PlayerRadicalAbility::Purify => "Restore 3 Focus, clear your debuffs",
        }
    }

    /// What the ability does.
    pub fn description(self) -> (r: &'static str)
        ensures
            r == self.description_spec(),
    {
        match self {
            PlayerRadicalAbility::FireStrike => "+2 fire damage, Burn 1 dmg for 2 turns",
            PlayerRadicalAbility::TidalSurge => "Slow target 2 turns, restore 2 Focus",
            PlayerRadicalAbility::PowerStrike => "+50% base damage on this attack",
            PlayerRadicalAbility::Insight => "Reveal all enemy intents for 3 turns",
            PlayerRadicalAbility::Devour => "Heal for 50% of damage dealt",
            PlayerRadicalAbility::TrueStrike => "Ignores armor, cannot miss",
            PlayerRadicalAbility::SwiftHands => "Attack doesn't consume your action",
            PlayerRadicalAbility::Entangle => "Slow target 3 turns, +1 temp armor",
            PlayerRadicalAbility::Reap => "+3 bonus damage if target HP < 40%",
            PlayerRadicalAbility::SolarFlare => "Clear your debuffs, +2 bonus damage",
            PlayerRadicalAbility::MoonVenom => "Poison: 2 dmg for 3 turns",
            PlayerRadicalAbility::Resilience => "Gain 2 temporary HP after attack",
            PlayerRadicalAbility::Guardian => "Gain counter-attack + thorn armor 2 turns",
            PlayerRadicalAbility::GrowingStrike => "Mark target: +2 damage from all sources",
            PlayerRadicalAbility::Harvest => "Extend combo streak by +2",
            PlayerRadicalAbility::Gamble => "50/50: triple damage or miss entirely",
            PlayerRadicalAbility::Shatter => "Destroy all target armor, +1 damage",
            PlayerRadicalAbility::Earthquake => "Push target 2 tiles + stun 1 turn",
            PlayerRadicalAbility::DoubleStrike => "Attack hits a second time for base damage",
            PlayerRadicalAbility::Execution => "Instant kill if target HP <= 25%",
            PlayerRadicalAbility::DeepCut => "Bleed 2 dmg for 2 turns, -1 max HP",
            PlayerRadicalAbility::Intimidate => "Confuse target for 2 turns",
            PlayerRadicalAbility::Lunge => "+2 damage, gain free movement after",
            PlayerRadicalAbility::Ensnare => "Slow 3 turns + Bleed 1 for 2 turns",
            PlayerRadicalAbility::Fortify => "Gain +3 armor after attacking",
            PlayerRadicalAbility::Charge => "Knockback target 3 tiles",
            PlayerRadicalAbility::Windstep => "Gain +2 stored movement",
            PlayerRadicalAbility::Downpour => "Splash 1 damage to all adjacent enemies",
            PlayerRadicalAbility::Concuss => "Stun target for 1 turn",
            PlayerRadicalAbility::Infest => "Poison 1 for 3 turns + Slow 1 turn",
            PlayerRadicalAbility::Plunder => "Bonus gold if this kills the target",
            PlayerRadicalAbility::Bulwark => "Gain +2 armor and +1 fortify",
            PlayerRadicalAbility::Frenzy => "+1 bonus damage, heal 1 HP",
            PlayerRadicalAbility::Snipe => "Can target non-adjacent enemies in LoS",
            PlayerRadicalAbility::Nourish => "Heal 3 HP after attacking",
            PlayerRadicalAbility::Evade => "Dodge the next incoming attack",
            PlayerRadicalAbility::Riposte => "Counter next attack + thorn armor 2 turns",
            PlayerRadicalAbility::HitAndRun => "Gain free movement after attack",
            PlayerRadicalAbility::Bulldoze => "Push target 2 tiles, 1 dmg per tile",
            PlayerRadicalAbility::Inspire => "+1 damage to all attacks this turn",
            PlayerRadicalAbility::Cleave => "Hit all adjacent enemies for base damage",
            PlayerRadicalAbility::PreciseStab => "Ignore armor, +2 bonus damage",
            PlayerRadicalAbility::Sabotage => "Create fire terrain around target",
            PlayerRadicalAbility::Purify => "Restore 3 Focus, clear your debuffs",
        }
    }

    /// The value a radical stands for, `None` for any other text.
    pub open spec fn from_radical_spec(s: Seq<char>) -> Option<Self> {
        if s == "火"@ {
            Some(PlayerRadicalAbility::FireStrike)
        } else if s == "水"@ {
            Some(PlayerRadicalAbility::TidalSurge)
        } else if s == "力"@ {
            Some(PlayerRadicalAbility::PowerStrike)
        } else if s == "心"@ {
            Some(PlayerRadicalAbility::Insight)
        } else if s == "口"@ {
            Some(PlayerRadicalAbility::Devour)
        } else if s == "目"@ {
            Some(PlayerRadicalAbility::TrueStrike)
        } else if s == "手"@ {
            Some(PlayerRadicalAbility::SwiftHands)
        } else if s == "木"@ {
            Some(PlayerRadicalAbility::Entangle)
        } else if s == "田"@ {
            Some(PlayerRadicalAbility::Reap)
        } else if s == "日"@ {
            Some(PlayerRadicalAbility::SolarFlare)
        } else if s == "月"@ {
            Some(PlayerRadicalAbility::MoonVenom)
        } else if s == "人"@ {
            Some(PlayerRadicalAbility::Resilience)
        } else if s == "女"@ {
            Some(PlayerRadicalAbility::Guardian)
        } else if s == "子"@ {
            Some(PlayerRadicalAbility::GrowingStrike)
        } else if s == "禾"@ {
            Some(PlayerRadicalAbility::Harvest)
        } else if s == "十"@ {
            Some(PlayerRadicalAbility::Gamble)
        } else if s == "金"@ {
            Some(PlayerRadicalAbility::Shatter)
        } else if s == "土"@ {
            Some(PlayerRadicalAbility::Earthquake)
        } else if s == "又"@ {
            Some(PlayerRadicalAbility::DoubleStrike)
        } else if s == "寸"@ {
            Some(PlayerRadicalAbility::Execution)
        } else if s == "刀"@ {
            Some(PlayerRadicalAbility::DeepCut)
        } else if s == "言"@ {
            Some(PlayerRadicalAbility::Intimidate)
        } else if s == "足"@ {
            Some(PlayerRadicalAbility::Lunge)
        } else if s == "糸"@ {
            Some(PlayerRadicalAbility::Ensnare)
        } else if s == "门"@ {
            Some(PlayerRadicalAbility::Fortify)
        } else if s == "马"@ {
            Some(PlayerRadicalAbility::Charge)
        } else if s == "鸟"@ {
            Some(PlayerRadicalAbility::Windstep)
        } else if s == "雨"@ {
            Some(PlayerRadicalAbility::Downpour)
        } else if s == "石"@ {
            Some(PlayerRadicalAbility::Concuss)
        } else if s == "虫"@ {
            Some(PlayerRadicalAbility::Infest)
        } else if s == "贝"@ {
            Some(PlayerRadicalAbility::Plunder)
        } else if s == "山"@ {
            Some(PlayerRadicalAbility::Bulwark)
        } else if s == "犬"@ {
            Some(PlayerRadicalAbility::Frenzy)
        } else if s == "弓"@ {
            Some(PlayerRadicalAbility::Snipe)
        } else if s == "食"@ {
            Some(PlayerRadicalAbility::Nourish)
        } else if s == "衣"@ {
            Some(PlayerRadicalAbility::Evade)
        } else if s == "竹"@ {
            Some(PlayerRadicalAbility::Riposte)
        } else if s == "走"@ {
            Some(PlayerRadicalAbility::HitAndRun)
        } else if s == "车"@ {
            Some(PlayerRadicalAbility::Bulldoze)
        } else if s == "王"@ {
            Some(PlayerRadicalAbility::Inspire)
        } else if s == "大"@ {
            Some(PlayerRadicalAbility::Cleave)
        } else if s == "小"@ {
            Some(PlayerRadicalAbility::PreciseStab)
        } else if s == "工"@ {
            Some(PlayerRadicalAbility::Sabotage)
        } else if s == "白"@ {
            Some(PlayerRadicalAbility::Purify)
        } else {
            None
        }
    }

    pub fn from_radical(radical: &str) -> (r: Option<Self>)
        ensures
            r == Self::from_radical_spec(radical@),
    {
        if str_eq(radical, "火") {
            return Some(PlayerRadicalAbility::FireStrike);
        }
        if str_eq(radical, "水") {
            return Some(PlayerRadicalAbility::TidalSurge);
        }
        if str_eq(radical, "力") {
            return Some(PlayerRadicalAbility::PowerStrike);
        }
        if str_eq(radical, "心") {
            return Some(PlayerRadicalAbility::Insight);
        }
        if str_eq(radical, "口") {
            return Some(PlayerRadicalAbility::Devour);
        }
        if str_eq(radical, "目") {
            return Some(PlayerRadicalAbility::TrueStrike);
        }
        if str_eq(radical, "手") {
            return Some(PlayerRadicalAbility::SwiftHands);
        }
        if str_eq(radical, "木") {
            return Some(PlayerRadicalAbility::Entangle);
        }
        if str_eq(radical, "田") {
            return Some(PlayerRadicalAbility::Reap);
        }
        if str_eq(radical, "日") {
            return Some(PlayerRadicalAbility::SolarFlare);
        }
        if str_eq(radical, "月") {
            return Some(PlayerRadicalAbility::MoonVenom);
        }
        if str_eq(radical, "人") {
            return Some(PlayerRadicalAbility::Resilience);
        }
        if str_eq(radical, "女") {
            return Some(PlayerRadicalAbility::Guardian);
        }
        if str_eq(radical, "子") {
            return Some(PlayerRadicalAbility::GrowingStrike);
        }
        if str_eq(radical, "禾") {
            return Some(PlayerRadicalAbility::Harvest);
        }
        if str_eq(radical, "十") {
            return Some(PlayerRadicalAbility::Gamble);
        }
        if str_eq(radical, "金") {
            return Some(PlayerRadicalAbility::Shatter);
        }
        if str_eq(radical, "土") {
            return Some(PlayerRadicalAbility::Earthquake);
        }
        if str_eq(radical, "又") {
            return Some(PlayerRadicalAbility::DoubleStrike);
        }
        if str_eq(radical, "寸") {
            return Some(PlayerRadicalAbility::Execution);
        }
        if str_eq(radical, "刀") {
            return Some(PlayerRadicalAbility::DeepCut);
        }
        if str_eq(radical, "言") {
            return Some(PlayerRadicalAbility::Intimidate);
        }
        if str_eq(radical, "足") {
            return Some(PlayerRadicalAbility::Lunge);
        }
        if str_eq(radical, "糸") {
            return Some(PlayerRadicalAbility::Ensnare);
        }
        if str_eq(radical, "门") {
            return Some(PlayerRadicalAbility::Fortify);
        }
        if str_eq(radical, "马") {
            return Some(PlayerRadicalAbility::Charge);
        }
        if str_eq(radical, "鸟") {
            return Some(PlayerRadicalAbility::Windstep);
        }
        if str_eq(radical, "雨") {
            return Some(PlayerRadicalAbility::Downpour);
        }
        if str_eq(radical, "石") {
            return Some(PlayerRadicalAbility::Concuss);
        }
        if str_eq(radical, "虫") {
            return Some(PlayerRadicalAbility::Infest);
        }
        if str_eq(radical, "贝") {
            return Some(PlayerRadicalAbility::Plunder);
        }
        if str_eq(radical, "山") {
            return Some(PlayerRadicalAbility::Bulwark);
        }
        if str_eq(radical, "犬") {
            return Some(PlayerRadicalAbility::Frenzy);
        }
        if str_eq(radical, "弓") {
            return Some(PlayerRadicalAbility::Snipe);
        }
        if str_eq(radical, "食") {
            return Some(PlayerRadicalAbility::Nourish);
        }
        if str_eq(radical, "衣") {
            return Some(PlayerRadicalAbility::Evade);
        }
        if str_eq(radical, "竹") {
            return Some(PlayerRadicalAbility::Riposte);
        }
        if str_eq(radical, "走") {
            return Some(PlayerRadicalAbility::HitAndRun);
        }
        if str_eq(radical, "车") {
            return Some(PlayerRadicalAbility::Bulldoze);
        }
        if str_eq(radical, "王") {
            return Some(PlayerRadicalAbility::Inspire);
        }
        if str_eq(radical, "大") {
            return Some(PlayerRadicalAbility::Cleave);
        }
        if str_eq(radical, "小") {
            return Some(PlayerRadicalAbility::PreciseStab);
        }
        if str_eq(radical, "工") {
            return Some(PlayerRadicalAbility::Sabotage);
        }
        if str_eq(radical, "白") {
            return Some(PlayerRadicalAbility::Purify);
        }
        None
    }

}

/// Every radical names its ability back: `from_radical(radical(a)) == Some(a)`.
pub proof fn lemma_player_ability_round_trip(a: PlayerRadicalAbility)
    ensures
        PlayerRadicalAbility::from_radical_spec(a.radical_spec()@) == Some(a),
{
    reveal_strlit("火");
    assert("火"@.len() == 1 && "火"@[0] == '火');
    reveal_strlit("水");
    assert("水"@.len() == 1 && "水"@[0] == '水');
    reveal_strlit("力");
    assert("力"@.len() == 1 && "力"@[0] == '力');
    reveal_strlit("心");
    assert("心"@.len() == 1 && "心"@[0] == '心');
    reveal_strlit("口");
    assert("口"@.len() == 1 && "口"@[0] == '口');
    reveal_strlit("目");
    assert("目"@.len() == 1 && "目"@[0] == '目');
    reveal_strlit("手");
    assert("手"@.len() == 1 && "手"@[0] == '手');
    reveal_strlit("木");
    assert("木"@.len() == 1 && "木"@[0] == '木');
    reveal_strlit("田");
    assert("田"@.len() == 1 && "田"@[0] == '田');
    reveal_strlit("日");
    assert("日"@.len() == 1 && "日"@[0] == '日');
    reveal_strlit("月");
    assert("月"@.len() == 1 && "月"@[0] == '月');
    reveal_strlit("人");
    assert("人"@.len() == 1 && "人"@[0] == '人');
    reveal_strlit("女");
    assert("女"@.len() == 1 && "女"@[0] == '女');
    reveal_strlit("子");
    assert("子"@.len() == 1 && "子"@[0] == '子');
    reveal_strlit("禾");
    assert("禾"@.len() == 1 && "禾"@[0] == '禾');
    reveal_strlit("十");
    assert("十"@.len() == 1 && "十"@[0] == '十');
    reveal_strlit("金");
    assert("金"@.len() == 1 && "金"@[0] == '金');
    reveal_strlit("土");
    assert("土"@.len() == 1 && "土"@[0] == '土');
    reveal_strlit("又");
    assert("又"@.len() == 1 && "又"@[0] == '又');
    reveal_strlit("寸");
    assert("寸"@.len() == 1 && "寸"@[0] == '寸');
    reveal_strlit("刀");
    assert("刀"@.len() == 1 && "刀"@[0] == '刀');
    reveal_strlit("言");
    assert("言"@.len() == 1 && "言"@[0] == '言');
    reveal_strlit("足");
    assert("足"@.len() == 1 && "足"@[0] == '足');
    reveal_strlit("糸");
    assert("糸"@.len() == 1 && "糸"@[0] == '糸');
    reveal_strlit("门");
    assert("门"@.len() == 1 && "门"@[0] == '门');
    reveal_strlit("马");
    assert("马"@.len() == 1 && "马"@[0] == '马');
    reveal_strlit("鸟");
    assert("鸟"@.len() == 1 && "鸟"@[0] == '鸟');
    reveal_strlit("雨");
    assert("雨"@.len() == 1 && "雨"@[0] == '雨');
    reveal_strlit("石");
    assert("石"@.len() == 1 && "石"@[0] == '石');
    reveal_strlit("虫");
    assert("虫"@.len() == 1 && "虫"@[0] == '虫');
    reveal_strlit("贝");
    assert("贝"@.len() == 1 && "贝"@[0] == '贝');
    reveal_strlit("山");
    assert("山"@.len() == 1 && "山"@[0] == '山');
    reveal_strlit("犬");
    assert("犬"@.len() == 1 && "犬"@[0] == '犬');
    reveal_strlit("弓");
    assert("弓"@.len() == 1 && "弓"@[0] == '弓');
    reveal_strlit("食");
    assert("食"@.len() == 1 && "食"@[0] == '食');
    reveal_strlit("衣");
    assert("衣"@.len() == 1 && "衣"@[0] == '衣');
    reveal_strlit("竹");
    assert("竹"@.len() == 1 && "竹"@[0] == '竹');
    reveal_strlit("走");
    assert("走"@.len() == 1 && "走"@[0] == '走');
    reveal_strlit("车");
    assert("车"@.len() == 1 && "车"@[0] == '车');
    reveal_strlit("王");
    assert("王"@.len() == 1 && "王"@[0] == '王');
    reveal_strlit("大");
    assert("大"@.len() == 1 && "大"@[0] == '大');
    reveal_strlit("小");
    assert("小"@.len() == 1 && "小"@[0] == '小');
    reveal_strlit("工");
    assert("工"@.len() == 1 && "工"@[0] == '工');
    reveal_strlit("白");
    assert("白"@.len() == 1 && "白"@[0] == '白');
    let s = a.radical_spec()@;
    assert(s.len() == 1 && s[0] == s[0]);
}

/// A vocabulary word as an enemy is built from: its characters, pinyin with
/// tone numbers, meaning, and the semantic components of its characters.
#[derive(Clone, Copy, Debug)]
pub struct VocabEntry {
    pub hanzi: &'static str,
    pub pinyin: &'static str,
    pub meaning: &'static str,
    pub components: &'static [&'static str],
}

/// A sentence that a whole squad of single-character enemies spells out.
#[derive(Clone, Copy, Debug)]
pub struct SentenceEntry {
    pub hanzi: &'static str,
    pub pinyin: &'static str,
    pub meaning: &'static str,
    pub hsk: u8,
}

/// Words of more than one character make elite enemies.
pub fn is_elite(entry: &VocabEntry) -> (b: bool)
    ensures
        b == (entry.hanzi@.len() > 1),
{
    entry.hanzi.unicode_len() > 1
}

pub open spec fn is_tone_digit(c: char) -> bool {
    '0' <= c <= '9'
}

/// Concatenation of a sequence of strings.
pub open spec fn concat(ss: Seq<Seq<char>>) -> Seq<char>
    decreases ss.len(),
{
    if ss.len() == 0 {
        Seq::empty()
    } else {
        concat(ss.drop_last()) + ss.last()
    }
}

/// `parts` splits `s` after every tone digit: the parts are non-empty, put
/// back together they give `s`, and every part but the last ends with its
/// only digit (the last may have none).
pub open spec fn is_syllable_split(s: Seq<char>, parts: Seq<Seq<char>>) -> bool {
    &&& concat(parts) == s
    &&& forall|k: int| 0 <= k < parts.len() ==> (#[trigger] parts[k]).len() > 0
    &&& forall|k: int, j: int|
        0 <= k < parts.len() && 0 <= j < parts[k].len() - 1 ==> !is_tone_digit(#[trigger] parts[k][j])
    &&& forall|k: int| 0 <= k < parts.len() - 1 ==> is_tone_digit((#[trigger] parts[k]).last())
}

/// Position of the last tone digit among the first `k` characters of `s`,
/// or -1 when there is none.
pub open spec fn last_digit_below(s: Seq<char>, k: int) -> int
    decreases k,
{
    if k <= 0 {
        -1
    } else if is_tone_digit(s[k - 1]) {
        k - 1
    } else {
        last_digit_below(s, k - 1)
    }
}

proof fn lemma_last_digit_below(s: Seq<char>, a: int, k: int)
    requires
        0 <= a <= k <= s.len(),
        a == 0 || is_tone_digit(s[a - 1]),
        forall|j: int| a <= j < k ==> !is_tone_digit(#[trigger] s[j]),
    ensures
        last_digit_below(s, k) == a - 1,
    decreases k - a,
{
    if k > a {
        lemma_last_digit_below(s, a, k - 1);
    } else if a > 0 {
    }
}

proof fn lemma_concat_len(parts: Seq<Seq<char>>)
    requires
        forall|k: int| 0 <= k < parts.len() ==> (#[trigger] parts[k]).len() > 0,
    ensures
        parts.len() > 0 ==> concat(parts).len() >= parts.last().len() > 0,
        parts.len() == 0 ==> concat(parts).len() == 0,
{
}

/// The last part of a syllable split starts just after the last tone digit
/// before the final character; what comes before it is split the same way.
proof fn lemma_split_last(s: Seq<char>, p: Seq<Seq<char>>)
    requires
        is_syllable_split(s, p),
        p.len() > 0,
    ensures
        p.last() == s.subrange(last_digit_below(s, s.len() - 1) + 1, s.len() as int),
        is_syllable_split(s.subrange(0, last_digit_below(s, s.len() - 1) + 1), p.drop_last()),
{
    let pre = p.drop_last();
    let head = concat(pre);
    let a = head.len() as int;
    assert(concat(p) == head + p.last());
    let last = p.last();
    assert(last.len() > 0);
    assert forall|j: int| a <= j < s.len() - 1 implies !is_tone_digit(#[trigger] s[j]) by {
        assert(s[j] == last[j - a]);
        assert(!is_tone_digit(p[p.len() - 1][j - a]));
    }
    if p.len() > 1 {
        assert forall|k: int| 0 <= k < pre.len() implies (#[trigger] pre[k]).len() > 0 by {
            assert(pre[k] == p[k]);
        }
        lemma_concat_len(pre);
        assert(pre.last() == p[p.len() - 2]);
        assert(is_tone_digit(p[p.len() - 2].last()));
        assert(concat(pre) == concat(pre.drop_last()) + pre.last());
        assert(s[a - 1] == head[a - 1]);
        assert(head[a - 1] == pre.last().last());
    } else {
        assert(pre.len() == 0);
    }
    lemma_last_digit_below(s, a, s.len() - 1);
    assert(s.subrange(a, s.len() as int) =~= last);
    assert(s.subrange(0, a) =~= head);
    assert forall|k: int, j: int|
        0 <= k < pre.len() && 0 <= j < pre[k].len() - 1 implies !is_tone_digit(#[trigger] pre[k][j]) by {
        assert(pre[k] == p[k]);
    }
    assert forall|k: int| 0 <= k < pre.len() - 1 implies is_tone_digit((#[trigger] pre[k]).last()) by {
        assert(pre[k] == p[k]);
    }
    assert forall|k: int| 0 <= k < pre.len() implies (#[trigger] pre[k]).len() > 0 by {
        assert(pre[k] == p[k]);
    }
}

/// A pinyin string splits into syllables in exactly one way.
pub proof fn lemma_syllable_split_unique(s: Seq<char>, p: Seq<Seq<char>>, q: Seq<Seq<char>>)
    requires
        is_syllable_split(s, p),
        is_syllable_split(s, q),
    ensures
        p == q,
    decreases s.len(),
{
    lemma_concat_len(p);
    lemma_concat_len(q);
    if s.len() == 0 {
        assert(p.len() == 0);
        assert(q.len() == 0);
        assert(p =~= q);
    } else {
        assert(p.len() > 0 && q.len() > 0);
        lemma_split_last(s, p);
        lemma_split_last(s, q);
        let cut = last_digit_below(s, s.len() - 1) + 1;
        lemma_syllable_split_unique(s.subrange(0, cut), p.drop_last(), q.drop_last());
        assert(p =~= p.drop_last().push(p.last()));
        assert(q =~= q.drop_last().push(q.last()));
    }
}

/// Splits numbered pinyin into syllables after each tone digit:
/// `"peng2you3"` gives `["peng2", "you3"]`.
pub fn pinyin_syllables(pinyin: &str) -> (parts: Vec<&str>)
    ensures
        is_syllable_split(pinyin@, parts@.map_values(|p: &str| p@)),
{
    let n = pinyin.unicode_len();
    let mut parts: Vec<&str> = Vec::new();
    let mut start: usize = 0;
    let mut i: usize = 0;
    while i < n
        invariant
            n == pinyin@.len(),
            start <= i <= n,
            concat(parts@.map_values(|p: &str| p@)) == pinyin@.subrange(0, start as int),
            forall|k: int| 0 <= k < parts@.len() ==> (#[trigger] parts@[k])@.len() > 0,
            forall|k: int, j: int|
                0 <= k < parts@.len() && 0 <= j < parts@[k]@.len() - 1 ==> !is_tone_digit(#[trigger] parts@[k]@[j]),
            forall|k: int| 0 <= k < parts@.len() ==> is_tone_digit((#[trigger] parts@[k])@.last()),
            forall|j: int| start <= j < i ==> !is_tone_digit(#[trigger] pinyin@[j]),
        decreases n - i,
    {
        let c = pinyin.get_char(i);
        if '0' <= c && c <= '9' {
            let part = pinyin.substring_char(start, i + 1);
            let ghost before = parts@;
            parts.push(part);
            proof {
                let pv = parts@.map_values(|p: &str| p@);
                let bv = before.map_values(|p: &str| p@);
                assert(pv.drop_last() =~= bv);
                assert(pinyin@.subrange(0, i + 1) =~= pinyin@.subrange(0, start as int) + pinyin@.subrange(start as int, i + 1));
            }
            start = i + 1;
        }
        i += 1;
    }
    if start < n {
        let part = pinyin.substring_char(start, n);
        let ghost before = parts@;
        parts.push(part);
        proof {
            let pv = parts@.map_values(|p: &str| p@);
            let bv = before.map_values(|p: &str| p@);
            assert(pv.drop_last() =~= bv);
            assert(pinyin@.subrange(0, n as int) =~= pinyin@.subrange(0, start as int) + pinyin@.subrange(start as int, n as int));
        }
    }
    proof {
        assert(pinyin@.subrange(0, n as int) =~= pinyin@);
        let pv = parts@.map_values(|p: &str| p@);
        assert forall|k: int| 0 <= k < pv.len() - 1 implies is_tone_digit((#[trigger] pv[k]).last()) by {
        }
    }
    parts
}

#[derive(Clone)]
pub struct Enemy {
    pub x: i32,
    pub y: i32,
    pub hanzi: &'static str,
    pub pinyin: &'static str,
    pub meaning: &'static str,
    pub hp: i32,
    pub max_hp: i32,
    pub damage: i32,
    /// Set when the enemy is alerted (player in same room / nearby)
    pub alert: bool,
    /// Boss enemies are tougher and give better rewards
    pub is_boss: bool,
    /// Elite multi-character enemies
    pub is_elite: bool,
    /// Gold dropped on defeat
    pub gold_value: i32,
    /// Stunned: skip next turn
    pub stunned: bool,
    /// Active status effects
    pub statuses: Vec<StatusInstance>,
    /// Floor-specific boss mechanics
    pub boss_kind: Option<BossKind>,
    /// Tracks one-time boss phase mechanics
    pub phase_triggered: bool,
    /// PirateCaptain summon cadence
    pub summon_cooldown: u8,
    /// RogueAICore resistance remembers the last system hacked
    pub resisted_spell: Option<&'static str>,
    /// Elite compounds are dismantled syllable by syllable
    pub elite_chain: usize,
    /// Defensive components (shields) that must be broken first
    pub components: Vec<&'static str>,
    pub ai: AiBehavior,
    /// Temporary armor from radical action (reduces next player hit)
    pub radical_armor: i32,
    /// Will dodge next attack (ShadowStep)
    pub radical_dodge: bool,
    /// Next attack multiplier (Multiply: hits twice)
    pub radical_multiply: bool,
}

/// The actions of a list of components: one per component that is a known
/// radical, in order.
pub open spec fn actions_of(cs: Seq<Seq<char>>) -> Seq<RadicalAction>
    decreases cs.len(),
{
    if cs.len() == 0 {
        Seq::empty()
    } else {
        let rest = actions_of(cs.drop_last());
        match RadicalAction::from_radical_spec(cs.last()) {
            Some(a) => rest.push(a),
            None => rest,
        }
    }
}

/// Behaviour of an ordinary enemy, drawn from its position and floor:
/// `(31x ^ 17y ^ 7 floor)` with wrapping arithmetic, read as `u32`, mod 16.
pub open spec fn ai_for(x: i32, y: i32, floor: i32) -> AiBehavior {
    let seed = ((x.wrapping_mul(31) ^ y.wrapping_mul(17) ^ floor.wrapping_mul(7)) as u32) % 16;
    if seed <= 6 {
        AiBehavior::Chase
    } else if seed <= 8 {
        AiBehavior::Ambush
    } else if seed <= 10 {
        AiBehavior::Retreat
    } else if seed <= 12 {
        AiBehavior::Sentinel
    } else if seed <= 14 {
        AiBehavior::Kiter
    } else {
        AiBehavior::Pack
    }
}

/// The offsets from `(x, y)` to `(tx, ty)` fit an `i32`, and so do their
/// magnitudes.
pub open spec fn diffs_fit(x: int, y: int, tx: int, ty: int) -> bool {
    &&& i32::MIN < tx - x <= i32::MAX
    &&& i32::MIN < ty - y <= i32::MAX
}

/// Both coordinates of a point fit an `i32`.
pub open spec fn point_fits(p: (int, int)) -> bool {
    i32::MIN <= p.0 <= i32::MAX && i32::MIN <= p.1 <= i32::MAX
}

/// Division rounding toward zero, as `i32` division does.
pub open spec fn div_trunc(a: int, b: int) -> int {
    if a >= 0 { a / b } else { -((-a) / b) }
}

pub open spec fn sgn(v: int) -> int {
    if v > 0 {
        1
    } else if v < 0 {
        -1
    } else {
        0
    }
}

/// The Manhattan distance between `(ax, ay)` and `(bx, by)`.
pub open spec fn manhattan(ax: int, ay: int, bx: int, by: int) -> int {
    abs(ax - bx) + abs(ay - by)
}

pub open spec fn abs(v: int) -> int {
    if v < 0 { -v } else { v }
}

impl Enemy {
    /// The radical actions of the enemy's components, one per known radical.
    pub fn radical_actions(&self) -> (acts: Vec<RadicalAction>)
        ensures
            acts@ == actions_of(self.components@.map_values(|c: &str| c@)),
    {
        let mut acts: Vec<RadicalAction> = Vec::new();
        let mut i: usize = 0;
        while i < self.components.len()
            invariant
                i <= self.components@.len(),
                acts@ == actions_of(self.components@.subrange(0, i as int).map_values(|c: &str| c@)),
            decreases self.components@.len() - i,
        {
            proof {
                let cs = self.components@.subrange(0, i + 1).map_values(|c: &str| c@);
                assert(cs.drop_last() =~= self.components@.subrange(0, i as int).map_values(|c: &str| c@));
            }
            if let Some(a) = RadicalAction::from_radical(self.components[i]) {
                acts.push(a);
            }
            i += 1;
        }
        proof {
            assert(self.components@.subrange(0, self.components@.len() as int) =~= self.components@);
        }
        acts
    }

    /// A regular or elite enemy for a vocabulary word on a floor. Elites
    /// (multi-character words) have `4 + floor` HP, `2 + floor / 2` damage and
    /// drop `8 + 2 floor` gold, and always chase; others have `2 + floor / 2`
    /// HP, `1 + floor / 3` damage, drop `3 + floor` gold, and take their
    /// behaviour from `ai_for`.
    pub fn from_vocab(entry: &VocabEntry, x: i32, y: i32, floor: i32) -> (e: Self)
        requires
            -0x3fff_fff0 <= floor <= 0x3fff_fff0,
        ensures
            e.x == x && e.y == y,
            e.hanzi == entry.hanzi && e.pinyin == entry.pinyin && e.meaning == entry.meaning,
            e.is_elite == (entry.hanzi@.len() > 1),
            e.hp == (if e.is_elite { 4 + floor } else { 2 + div_trunc(floor as int, 2) }),
            e.max_hp == e.hp,
            e.damage == (if e.is_elite { 2 + div_trunc(floor as int, 2) } else { 1 + div_trunc(floor as int, 3) }),
            e.gold_value == (if e.is_elite { 8 + floor * 2 } else { 3 + floor }),
            e.ai == (if e.is_elite { AiBehavior::Chase } else { ai_for(x, y, floor) }),
            e.components@ == entry.components@,
            !e.alert && !e.is_boss && !e.stunned && !e.phase_triggered,
            e.statuses@.len() == 0,
            e.boss_kind is None,
            e.summon_cooldown == 0,
            e.resisted_spell is None,
            e.elite_chain == 0,
            e.radical_armor == 0 && !e.radical_dodge && !e.radical_multiply,
    {
        let is_elite = is_elite(entry);
        let hp = if is_elite { 4 + floor } else { 2 + floor / 2 };
        let damage = if is_elite { 2 + floor / 2 } else { 1 + floor / 3 };
        let gold = if is_elite { 8 + floor * 2 } else { 3 + floor };
        let mut components: Vec<&'static str> = Vec::new();
        let mut i: usize = 0;
        while i < entry.components.len()
            invariant
                i <= entry.components@.len(),
                components@ == entry.components@.subrange(0, i as int),
            decreases entry.components@.len() - i,
        {
            components.push(entry.components[i]);
            i += 1;
        }
        proof {
            assert(entry.components@.subrange(0, entry.components@.len() as int) =~= entry.components@);
        }
        let ai = if is_elite {
            AiBehavior::Chase
        } else {
            let seed = (#[verifier::truncate] ((x.wrapping_mul(31) ^ y.wrapping_mul(17) ^ floor.wrapping_mul(7)) as u32)) % 16;
            if seed <= 6 {
                AiBehavior::Chase
            } else if seed <= 8 {
                AiBehavior::Ambush
            } else if seed <= 10 {
                AiBehavior::Retreat
            } else if seed <= 12 {
                AiBehavior::Sentinel
            } else if seed <= 14 {
                AiBehavior::Kiter
            } else {
                AiBehavior::Pack
            }
        };
        Enemy {
            x,
            y,
            hanzi: entry.hanzi,
            pinyin: entry.pinyin,
            meaning: entry.meaning,
            hp,
            max_hp: hp,
            damage,
            alert: false,
            is_boss: false,
            is_elite,
            gold_value: gold,
            stunned: false,
            statuses: Vec::new(),
            boss_kind: None,
            phase_triggered: false,
            summon_cooldown: 0,
            resisted_spell: None,
            elite_chain: 0,
            components,
            ai,
            radical_armor: 0,
            radical_dodge: false,
            radical_multiply: false,
        }
    }

    /// A boss for a vocabulary word: the floor's boss kind sets its HP,
    /// damage, gold and summon cadence; a floor without a boss kind gets a
    /// generic boss. Bosses are always alert and chase.
    pub fn boss_from_vocab(entry: &VocabEntry, x: i32, y: i32, floor: i32) -> (e: Self)
        requires
            -0x0fff_fff0 <= floor <= 0x0fff_fff0,
        ensures
            e.x == x && e.y == y,
            e.hanzi == entry.hanzi && e.pinyin == entry.pinyin && e.meaning == entry.meaning,
            e.boss_kind == BossKind::for_floor_spec(floor),
            e.hp == match e.boss_kind {
                Some(BossKind::PirateCaptain) => 16 + floor,
                Some(BossKind::HiveQueen) => 14 + floor,
                Some(BossKind::RogueAICore) => 18 + floor,
                Some(BossKind::VoidEntity) => 22 + floor,
                Some(BossKind::AncientGuardian) => 20 + floor,
                Some(BossKind::DriftLeviathan) => 24 + floor,
                None => 8 + floor,
            },
            e.damage == match e.boss_kind {
                Some(BossKind::PirateCaptain) | Some(BossKind::HiveQueen) => 3 + div_trunc(floor as int, 3),
                Some(BossKind::RogueAICore) | Some(BossKind::VoidEntity) => 4 + div_trunc(floor as int, 3),
                Some(BossKind::AncientGuardian) | Some(BossKind::DriftLeviathan) => 5 + div_trunc(floor as int, 3),
                None => 2 + div_trunc(floor as int, 2),
            },
            e.gold_value == match e.boss_kind {
                Some(BossKind::PirateCaptain) => 40 + floor * 4,
                Some(BossKind::HiveQueen) => 45 + floor * 4,
                Some(BossKind::RogueAICore) => 50 + floor * 4,
                Some(BossKind::VoidEntity) => 55 + floor * 4,
                Some(BossKind::AncientGuardian) => 65 + floor * 4,
                Some(BossKind::DriftLeviathan) => 80 + floor * 4,
                None => 20 + floor * 3,
            },
            e.summon_cooldown == match e.boss_kind {
                Some(BossKind::PirateCaptain) => 1u8,
                Some(BossKind::VoidEntity) => 2u8,
                _ => 0u8,
            },
            e.max_hp == e.hp,
            e.alert && e.is_boss && !e.is_elite && !e.stunned && !e.phase_triggered,
            e.ai == AiBehavior::Chase,
            e.statuses@.len() == 0 && e.components@.len() == 0,
            e.resisted_spell is None && e.elite_chain == 0,
            e.radical_armor == 0 && !e.radical_dodge && !e.radical_multiply,
    {
        let boss_kind = BossKind::for_floor(floor);
        let (hp, damage, gold, cooldown): (i32, i32, i32, u8) = match boss_kind {
            Some(BossKind::PirateCaptain) => (16 + floor, 3 + floor / 3, 40 + floor * 4, 1),
            Some(BossKind::HiveQueen) => (14 + floor, 3 + floor / 3, 45 + floor * 4, 0),
            Some(BossKind::RogueAICore) => (18 + floor, 4 + floor / 3, 50 + floor * 4, 0),
            Some(BossKind::VoidEntity) => (22 + floor, 4 + floor / 3, 55 + floor * 4, 2),
            Some(BossKind::AncientGuardian) => (20 + floor, 5 + floor / 3, 65 + floor * 4, 0),
            Some(BossKind::DriftLeviathan) => (24 + floor, 5 + floor / 3, 80 + floor * 4, 0),
            None => (8 + floor, 2 + floor / 2, 20 + floor * 3, 0),
        };
        Enemy {
            x,
            y,
            hanzi: entry.hanzi,
            pinyin: entry.pinyin,
            meaning: entry.meaning,
            hp,
            max_hp: hp,
            damage,
            alert: true,
            is_boss: true,
            is_elite: false,
            gold_value: gold,
            stunned: false,
            statuses: Vec::new(),
            boss_kind,
            phase_triggered: false,
            summon_cooldown: cooldown,
            resisted_spell: None,
            elite_chain: 0,
            components: Vec::new(),
            ai: AiBehavior::Chase,
            radical_armor: 0,
            radical_dodge: false,
            radical_multiply: false,
        }
    }

    pub fn is_alive(&self) -> (b: bool)
        ensures
            b == (self.hp > 0),
    {
        self.hp > 0
    }

    pub open spec fn step_toward_spec(&self, tx: int, ty: int) -> (int, int) {
        let dx = sgn(tx - self.x);
        let dy = sgn(ty - self.y);
        if abs(tx - self.x) >= abs(ty - self.y) {
            if dx != 0 { (self.x + dx, self.y as int) } else { (self.x as int, self.y + dy) }
        } else {
            if dy != 0 { (self.x as int, self.y + dy) } else { (self.x + dx, self.y as int) }
        }
    }

    pub open spec fn step_retreat_spec(&self, tx: int, ty: int) -> (int, int) {
        let dx = sgn(self.x - tx);
        let dy = sgn(self.y - ty);
        if abs(tx - self.x) >= abs(ty - self.y) {
            if dx != 0 { (self.x + dx, self.y as int) } else { (self.x as int, self.y + dy) }
        } else {
            if dy != 0 { (self.x as int, self.y + dy) } else { (self.x + dx, self.y as int) }
        }
    }

    /// One step toward `(tx, ty)` along the axis with the larger distance
    /// (the x axis on a tie). The caller checks walkability and occupancy.
    pub fn step_toward(&self, tx: i32, ty: i32) -> (r: (i32, i32))
        requires
            diffs_fit(self.x as int, self.y as int, tx as int, ty as int),
        ensures
            r.0 == self.step_toward_spec(tx as int, ty as int).0,
            r.1 == self.step_toward_spec(tx as int, ty as int).1,
    {
        let ddx = tx - self.x;
        let ddy = ty - self.y;
        let dx = if ddx > 0 { 1 } else if ddx < 0 { -1 } else { 0 };
        let dy = if ddy > 0 { 1 } else if ddy < 0 { -1 } else { 0 };
        let ax = if ddx < 0 { -ddx } else { ddx };
        let ay = if ddy < 0 { -ddy } else { ddy };
        if ax >= ay {
            if dx != 0 {
                return (self.x + dx, self.y);
            }
            (self.x, self.y + dy)
        } else {
            if dy != 0 {
                return (self.x, self.y + dy);
            }
            (self.x + dx, self.y)
        }
    }

    /// One step away from `(tx, ty)`, the axis chosen as for `step_toward`.
    pub fn step_retreat(&self, tx: i32, ty: i32) -> (r: (i32, i32))
        requires
            diffs_fit(self.x as int, self.y as int, tx as int, ty as int),
            point_fits(self.step_retreat_spec(tx as int, ty as int)),
        ensures
            r.0 == self.step_retreat_spec(tx as int, ty as int).0,
            r.1 == self.step_retreat_spec(tx as int, ty as int).1,
    {
        let rdx = self.x - tx;
        let rdy = self.y - ty;
        let dx = if rdx > 0 { 1 } else if rdx < 0 { -1 } else { 0 };
        let dy = if rdy > 0 { 1 } else if rdy < 0 { -1 } else { 0 };
        let ax = if rdx < 0 { -rdx } else { rdx };
        let ay = if rdy < 0 { -rdy } else { rdy };
        if ax >= ay {
            if dx != 0 {
                return (self.x + dx, self.y);
            }
            (self.x, self.y + dy)
        } else {
            if dy != 0 {
                return (self.x, self.y + dy);
            }
            (self.x + dx, self.y)
        }
    }

    pub open spec fn ai_step_spec(&self, tx: int, ty: int, nearby_allies: int) -> (int, int) {
        let dist = abs(tx - self.x) + abs(ty - self.y);
        let stay = (self.x as int, self.y as int);
        match self.ai {
            AiBehavior::Chase => self.step_toward_spec(tx, ty),
            AiBehavior::Retreat => if dist <= 2 { self.step_toward_spec(tx, ty) } else { self.step_retreat_spec(tx, ty) },
            AiBehavior::Ambush => if dist <= 3 { self.step_toward_spec(tx, ty) } else { stay },
            AiBehavior::Sentinel => if dist <= 1 { self.step_toward_spec(tx, ty) } else { stay },
            AiBehavior::Kiter => if dist <= 2 {
                self.step_retreat_spec(tx, ty)
            } else if dist >= 5 {
                self.step_toward_spec(tx, ty)
            } else {
                stay
            },
            AiBehavior::Pack => if nearby_allies >= 2 || dist <= 1 { self.step_toward_spec(tx, ty) } else { stay },
        }
    }

    /// Where the enemy wants to move, by behaviour: chasers step toward the
    /// target; retreaters close in within 2 tiles and back off otherwise;
    /// ambushers strike within 3; sentinels only when adjacent; kiters back
    /// off within 2, close in from 5, and hold between; packs advance with
    /// two or more allies nearby or when adjacent.
    pub fn ai_step(&self, tx: i32, ty: i32, nearby_allies: usize) -> (r: (i32, i32))
        requires
            diffs_fit(self.x as int, self.y as int, tx as int, ty as int),
            abs(tx - self.x) + abs(ty - self.y) <= i32::MAX,
            point_fits(self.ai_step_spec(tx as int, ty as int, nearby_allies as int)),
        ensures
            r.0 == self.ai_step_spec(tx as int, ty as int, nearby_allies as int).0,
            r.1 == self.ai_step_spec(tx as int, ty as int, nearby_allies as int).1,
    {
        let ddx = tx - self.x;
        let ddy = ty - self.y;
        let dist = (if ddx < 0 { -ddx } else { ddx }) + (if ddy < 0 { -ddy } else { ddy });
        match self.ai {
            AiBehavior::Chase => self.step_toward(tx, ty),
            AiBehavior::Retreat => {
                if dist <= 2 {
                    self.step_toward(tx, ty)
                } else {
                    self.step_retreat(tx, ty)
                }
            },
            AiBehavior::Ambush => {
                if dist <= 3 {
                    self.step_toward(tx, ty)
                } else {
                    (self.x, self.y)
                }
            },
            AiBehavior::Sentinel => {
                if dist <= 1 {
                    self.step_toward(tx, ty)
                } else {
                    (self.x, self.y)
                }
            },
            AiBehavior::Kiter => {
                if dist <= 2 {
                    self.step_retreat(tx, ty)
                } else if dist >= 5 {
                    self.step_toward(tx, ty)
                } else {
                    (self.x, self.y)
                }
            },
            AiBehavior::Pack => {
                if nearby_allies >= 2 || dist <= 1 {
                    self.step_toward(tx, ty)
                } else {
                    (self.x, self.y)
                }
            },
        }
    }

    /// How an enemy moves relative to its target `(tx, ty)`, with `d` the
    /// Manhattan distance between them: an advance is one tile that brings it
    /// one tile nearer, a retreat one tile that takes it one tile farther
    /// along the axis where the target is farther off (the x axis on a tie),
    /// and holding keeps its place. Chasers always advance; retreaters advance
    /// within 2 and retreat beyond; ambushers advance within 3 and hold
    /// beyond; sentinels advance only when adjacent; kiters retreat within 2,
    /// advance from 5 and hold between; packs advance with two allies nearby
    /// or when adjacent, and hold otherwise.
    pub proof fn lemma_ai_step_moves(&self, tx: int, ty: int, nearby_allies: int)
        requires
            self.x != tx || self.y != ty,
        ensures
            ({
                let d = manhattan(self.x as int, self.y as int, tx, ty);
                let r = self.ai_step_spec(tx, ty, nearby_allies);
                let one_tile = manhattan(self.x as int, self.y as int, r.0, r.1) == 1;
                let advance = one_tile && manhattan(r.0, r.1, tx, ty) == d - 1;
                let retreat = one_tile && manhattan(r.0, r.1, tx, ty) == d + 1 && (if abs(tx - self.x) >= abs(
                    ty - self.y,
                ) {
                    r.1 == self.y
                } else {
                    r.0 == self.x
                });
                let hold = r == (self.x as int, self.y as int);
                &&& self.ai == AiBehavior::Chase ==> advance
                &&& self.ai == AiBehavior::Retreat ==> if d <= 2 { advance } else { retreat }
                &&& self.ai == AiBehavior::Ambush ==> if d <= 3 { advance } else { hold }
                &&& self.ai == AiBehavior::Sentinel ==> if d <= 1 { advance } else { hold }
                &&& self.ai == AiBehavior::Kiter ==> if d <= 2 { retreat } else if d >= 5 { advance } else { hold }
                &&& self.ai == AiBehavior::Pack ==> if nearby_allies >= 2 || d <= 1 { advance } else { hold }
            }),
    {
    }

    /// A line describing the boss's special trait, `None` for non-bosses.
    pub fn boss_trait_text(&self) -> (t: Option<String>)
        ensures
            t is Some == self.boss_kind is Some,
    {
        match self.boss_kind {
            Some(BossKind::PirateCaptain) => Some(String::from_str("Deploys shield generators when cornered")),
            Some(BossKind::HiveQueen) => Some(
                if self.phase_triggered {
                    String::from_str("Sentence duel spent")
                } else {
                    String::from_str("Triggers a sentence duel at half HP")
                },
            ),
            Some(BossKind::RogueAICore) => Some(
                match self.resisted_spell {
                    Some(school) => cat("Resists last system: ", school),
                    None => String::from_str("Adapts to the last system you hacked"),
                },
            ),
            Some(BossKind::VoidEntity) => Some(String::from_str("Warps reality — answer carefully!")),
            Some(BossKind::AncientGuardian) => Some(
                if self.phase_triggered {
                    String::from_str("Glyph trial spent")
                } else {
                    String::from_str("Triggers a glyph trial at half HP")
                },
            ),
            Some(BossKind::DriftLeviathan) => Some(String::from_str("Absorbs a radical on each wrong answer")),
            None => None,
        }
    }

    /// Phases of an elite: one per pinyin syllable, at least one.
    pub fn elite_phase_count(&self) -> (n: usize)
        ensures
            n >= 1,
            exists|parts: Seq<Seq<char>>|
                is_syllable_split(self.pinyin@, parts) && n == (if parts.len() > 1 { parts.len() } else { 1 }),
    {
        let parts = pinyin_syllables(self.pinyin);
        if parts.len() > 1 {
            parts.len()
        } else {
            1
        }
    }

    /// The syllable an elite must be answered with next: the one its chain
    /// has reached, or the last one once past the end; `None` for
    /// non-elites or empty pinyin.
    pub fn elite_expected_syllable(&self) -> (s: Option<&str>)
        ensures
            !self.is_elite ==> s is None,
            self.is_elite ==> exists|parts: Seq<Seq<char>>|
                is_syllable_split(self.pinyin@, parts) && (if parts.len() == 0 {
                    s is None
                } else {
                    s matches Some(t) && t@ == parts[if self.elite_chain < parts.len() - 1 {
                        self.elite_chain as int
                    } else {
                        parts.len() - 1
                    }]
                }),
    {
        if !self.is_elite {
            return None;
        }
        let syllables = pinyin_syllables(self.pinyin);
        if syllables.len() == 0 {
            return None;
        }
        let last = syllables.len() - 1;
        let idx = if self.elite_chain < last { self.elite_chain } else { last };
        Some(syllables[idx])
    }
}

} // verus!
