//! Tile kinds, altar and seal kinds, special room kinds and rooms.

use vstd::prelude::*;
use crate::player::Deity;
use crate::rng::{Rng, xorshift};

verus! {

#[derive(Clone, Copy, PartialEq, Eq, Debug, Hash, Structural)]
pub enum AltarKind {
    Jade,
    Gale,
    Mirror,
    Iron,
    Gold,
}

/// The altar kind drawn from a raw generator output.
pub open spec fn altar_from_raw(raw: u64) -> AltarKind {
    match raw % 5 {
        0 => AltarKind::Jade,
        1 => AltarKind::Gale,
        2 => AltarKind::Mirror,
        3 => AltarKind::Iron,
        _ => AltarKind::Gold,
    }
}

impl AltarKind {

    pub open spec fn icon_spec(self) -> Seq<char> {
        match self {
            Self::Jade => "☯"@,   // Yin-Yang (Balance/Life)
            Self::Gale => "✦"@,   // Sparkle/Wind
            Self::Mirror => "◈"@, // Diamond/Reflection
            Self::Iron => "⚔"@,   // Crossed Swords (War)
            Self::Gold => "¥"@,   // Yen/Yuan (Wealth)
        }
    }

    pub fn icon(self) -> (r: &'static str)
        ensures
            r@ == self.icon_spec(),
    {
        match self {
            Self::Jade => "☯",   // Yin-Yang (Balance/Life)
            Self::Gale => "✦",   // Sparkle/Wind
            Self::Mirror => "◈", // Diamond/Reflection
            Self::Iron => "⚔",   // Crossed Swords (War)
            Self::Gold => "¥",   // Yen/Yuan (Wealth)
        }
    }

    pub open spec fn color_spec(self) -> Seq<char> {
        match self {
            Self::Jade => "#66dd99"@,   // Green
            Self::Gale => "#88ccff"@,   // Sky Blue
            Self::Mirror => "#ddb8ff"@, // Purple
            Self::Iron => "#ff5555"@,   // Red
            Self::Gold => "#ffd700"@,   // Gold
        }
    }

    pub fn color(self) -> (r: &'static str)
        ensures
            r@ == self.color_spec(),
    {
        match self {
            Self::Jade => "#66dd99",   // Green
            Self::Gale => "#88ccff",   // Sky Blue
            Self::Mirror => "#ddb8ff", // Purple
            Self::Iron => "#ff5555",   // Red
            Self::Gold => "#ffd700",   // Gold
        }
    }

    pub open spec fn name_spec(&self) -> Seq<char> {
        match self {
            Self::Jade => "Jade Altar"@,
            Self::Gale => "Gale Altar"@,
            Self::Mirror => "Mirror Altar"@,
            Self::Iron => "Iron Altar"@,
            Self::Gold => "Gold Altar"@,
        }
    }

    pub fn name(&self) -> (r: &'static str)
        ensures
            r@ == self.name_spec(),
    {
        match self {
            Self::Jade => "Jade Altar",
            Self::Gale => "Gale Altar",
            Self::Mirror => "Mirror Altar",
            Self::Iron => "Iron Altar",
            Self::Gold => "Gold Altar",
        }
    }

    pub open spec fn deity_spec(self) -> Deity {
        match self {
            Self::Jade => Deity::Jade,
            Self::Gale => Deity::Gale,
            Self::Mirror => Deity::Mirror,
            Self::Iron => Deity::Iron,
            Self::Gold => Deity::Gold,
        }
    }

    pub fn deity(self) -> (d: Deity)
        ensures
            d == self.deity_spec(),
    {
        match self {
            Self::Jade => Deity::Jade,
            Self::Gale => Deity::Gale,
            Self::Mirror => Deity::Mirror,
            Self::Iron => Deity::Iron,
            Self::Gold => Deity::Gold,
        }
    }

    pub fn random(rng: &mut Rng) -> (k: Self)
        ensures
            final(rng)@ == xorshift(old(rng)@),
            k == altar_from_raw(final(rng)@),
    {
        match rng.next_u64() % 5 {
            0 => Self::Jade,
            1 => Self::Gale,
            2 => Self::Mirror,
            3 => Self::Iron,
            _ => Self::Gold,
        }
    }
}

#[derive(Clone, Copy, PartialEq, Eq, Debug, Structural)]
pub enum SealKind {
    Ember,
    Tide,
    Thorn,
    Echo,
}

/// The seal kind drawn from a raw generator output.
pub open spec fn seal_from_raw(raw: u64) -> SealKind {
    match raw % 4 {
        0 => SealKind::Ember,
        1 => SealKind::Tide,
        2 => SealKind::Thorn,
        _ => SealKind::Echo,
    }
}

impl SealKind {

    pub open spec fn icon_spec(self) -> Seq<char> {
        match self {
            Self::Ember => "火"@,
            Self::Tide => "水"@,
            Self::Thorn => "刃"@,
            Self::Echo => "回"@,
        }
    }

    pub fn icon(self) -> (r: &'static str)
        ensures
            r@ == self.icon_spec(),
    {
        match self {
            Self::Ember => "火",
            Self::Tide => "水",
            Self::Thorn => "刃",
            Self::Echo => "回",
        }
    }

    pub open spec fn color_spec(self) -> Seq<char> {
        match self {
            Self::Ember => "#ff9b73"@,
            Self::Tide => "#90c9ff"@,
            Self::Thorn => "#ff9eb8"@,
            Self::Echo => "#d4a4ff"@,
        }
    }

    pub fn color(self) -> (r: &'static str)
        ensures
            r@ == self.color_spec(),
    {
        match self {
            Self::Ember => "#ff9b73",
            Self::Tide => "#90c9ff",
            Self::Thorn => "#ff9eb8",
            Self::Echo => "#d4a4ff",
        }
    }

    pub open spec fn label_spec(self) -> Seq<char> {
        match self {
            Self::Ember => "Ember seal"@,
            Self::Tide => "Tide seal"@,
            Self::Thorn => "Thorn seal"@,
            Self::Echo => "Echo seal"@,
        }
    }

    pub fn label(self) -> (r: &'static str)
        ensures
            r@ == self.label_spec(),
    {
        match self {
            Self::Ember => "Ember seal",
            Self::Tide => "Tide seal",
            Self::Thorn => "Thorn seal",
            Self::Echo => "Echo seal",
        }
    }

    pub fn random(rng: &mut Rng) -> (k: Self)
        ensures
            final(rng)@ == xorshift(old(rng)@),
            k == seal_from_raw(final(rng)@),
    {
        match rng.next_u64() % 4 {
            0 => Self::Ember,
            1 => Self::Tide,
            2 => Self::Thorn,
            _ => Self::Echo,
        }
    }
}

/// The special room layouts a level can hold.
#[derive(Clone, Copy, PartialEq, Eq, Debug, Hash, Structural)]
pub enum SpecialRoomKind {
    // Treasure & Reward (1–10)
    TreasureVault,
    GoldMine,
    AncestralHall,
    HiddenCache,
    OfferingAltar,
    LotusGarden,
    DragonHoard,
    JadeVault,
    RelicChamber,
    SpiritSpring,
    // Challenge & Combat (11–20)
    ArenaChallenge,
    EliteGuardPost,
    TrapGauntlet,
    PoisonMaze,
    BoulderPuzzle,
    MirrorRoom,
    ElementalNexus,
    GraveyardRise,
    BanditAmbush,
    DuelCircle,
    // Knowledge & Learning (21–30)
    Library,
    CalligraphyHall,
    ScholarStudy,
    OracleRoom,
    InscriptionWall,
    MasterDojo,
    MeditationChamber,
    TranslationChallenge,
    AncientScroll,
    WisdomWell,
    // Environmental & Puzzle (31–40)
    FloodedChamber,
    FrozenCavern,
    LavaCrossing,
    BambooForest,
    WindTunnel,
    CrystalCave,
    MushroomGrotto,
    UndergroundRiver,
    EchoingCavern,
    ShadowRealm,
    // NPC & Story (41–50)
    WanderingMerchant,
    HermitSage,
    PrisonerCell,
    SpiritShrine,
    TeaHouse,
    SmithyWorkshop,
    AlchemyLab,
    FortuneTeller,
    RefugeeCamp,
    DragonGate,
    // Risk/Reward (51–55)
    GamblingDen,
    BloodAltar,
    CursedTreasure,
    SoulForge,
    WishingWell,
    // Puzzle (56–60)
    RuneGate,
    MirrorMaze,
    WeightPuzzle,
    ToneStaircase,
    ElementalLock,
    // Timed/Wave (61–64)
    SurvivalPit,
    TreasureRace,
    CollapsingChamber,
    InkFlood,
    // Transformation/Permanent (65–68)
    FormShrine,
    ClassTrial,
    RadicalFountain,
    AncestorTomb,
    // Story/Lore (69–73)
    ProphecyRoom,
    SealedMemory,
    DemonSeal,
    PhoenixNest,
    CalligraphyContest,
}

impl SpecialRoomKind {

    pub open spec fn name_spec(self) -> Seq<char> {
        match self {
            Self::TreasureVault => "Treasure Vault"@,
            Self::GoldMine => "Gold Mine"@,
            Self::AncestralHall => "Ancestral Hall"@,
            Self::HiddenCache => "Hidden Cache"@,
            Self::OfferingAltar => "Offering Altar"@,
            Self::LotusGarden => "Lotus Garden"@,
            Self::DragonHoard => "Dragon Hoard"@,
            Self::JadeVault => "Jade Vault"@,
            Self::RelicChamber => "Relic Chamber"@,
            Self::SpiritSpring => "Spirit Spring"@,
            Self::ArenaChallenge => "Arena Challenge"@,
            Self::EliteGuardPost => "Elite Guard Post"@,
            Self::TrapGauntlet => "Trap Gauntlet"@,
            Self::PoisonMaze => "Poison Maze"@,
            Self::BoulderPuzzle => "Boulder Puzzle"@,
            Self::MirrorRoom => "Mirror Room"@,
            Self::ElementalNexus => "Elemental Nexus"@,
            Self::GraveyardRise => "Graveyard Rise"@,
            Self::BanditAmbush => "Bandit Ambush"@,
            Self::DuelCircle => "Duel Circle"@,
            Self::Library => "Library"@,
            Self::CalligraphyHall => "Calligraphy Hall"@,
            Self::ScholarStudy => "Scholar's Study"@,
            Self::OracleRoom => "Oracle Room"@,
            Self::InscriptionWall => "Inscription Wall"@,
            Self::MasterDojo => "Master's Dojo"@,
            Self::MeditationChamber => "Meditation Chamber"@,
            Self::TranslationChallenge => "Translation Challenge"@,
            Self::AncientScroll => "Ancient Scroll Room"@,
            Self::WisdomWell => "Wisdom Well"@,
            Self::FloodedChamber => "Flooded Chamber"@,
            Self::FrozenCavern => "Frozen Cavern"@,
            Self::LavaCrossing => "Lava Crossing"@,
            Self::BambooForest => "Bamboo Forest"@,
            Self::WindTunnel => "Wind Tunnel"@,
            Self::CrystalCave => "Crystal Cave"@,
            Self::MushroomGrotto => "Mushroom Grotto"@,
            Self::UndergroundRiver => "Underground River"@,
            Self::EchoingCavern => "Echoing Cavern"@,
            Self::ShadowRealm => "Shadow Realm"@,
            Self::WanderingMerchant => "Wandering Merchant"@,
            Self::HermitSage => "Hermit Sage"@,
            Self::PrisonerCell => "Prisoner Cell"@,
            Self::SpiritShrine => "Spirit Shrine"@,
            Self::TeaHouse => "Tea House"@,
            Self::SmithyWorkshop => "Smithy Workshop"@,
            Self::AlchemyLab => "Alchemy Lab"@,
            Self::FortuneTeller => "Fortune Teller"@,
            Self::RefugeeCamp => "Refugee Camp"@,
            Self::DragonGate => "Dragon Gate"@,
            Self::GamblingDen => "Gambling Den"@,
            Self::BloodAltar => "Blood Altar"@,
            Self::CursedTreasure => "Cursed Treasure"@,
            Self::SoulForge => "Soul Forge"@,
            Self::WishingWell => "Wishing Well"@,
            Self::RuneGate => "Rune Gate"@,
            Self::MirrorMaze => "Mirror Maze"@,
            Self::WeightPuzzle => "Weight Puzzle"@,
            Self::ToneStaircase => "Tone Staircase"@,
            Self::ElementalLock => "Elemental Lock"@,
            Self::SurvivalPit => "Survival Pit"@,
            Self::TreasureRace => "Treasure Race"@,
            Self::CollapsingChamber => "Collapsing Chamber"@,
            Self::InkFlood => "Ink Flood"@,
            Self::FormShrine => "Form Shrine"@,
            Self::ClassTrial => "Class Trial"@,
            Self::RadicalFountain => "Radical Fountain"@,
            Self::AncestorTomb => "Ancestor's Tomb"@,
            Self::ProphecyRoom => "Prophecy Room"@,
            Self::SealedMemory => "Sealed Memory"@,
            Self::DemonSeal => "Demon Seal"@,
            Self::PhoenixNest => "Phoenix Nest"@,
            Self::CalligraphyContest => "Calligraphy Contest"@,
        }
    }

    pub fn name(self) -> (r: &'static str)
        ensures
            r@ == self.name_spec(),
    {
        match self {
            Self::TreasureVault => "Treasure Vault",
            Self::GoldMine => "Gold Mine",
            Self::AncestralHall => "Ancestral Hall",
            Self::HiddenCache => "Hidden Cache",
            Self::OfferingAltar => "Offering Altar",
            Self::LotusGarden => "Lotus Garden",
            Self::DragonHoard => "Dragon Hoard",
            Self::JadeVault => "Jade Vault",
            Self::RelicChamber => "Relic Chamber",
            Self::SpiritSpring => "Spirit Spring",
            Self::ArenaChallenge => "Arena Challenge",
            Self::EliteGuardPost => "Elite Guard Post",
            Self::TrapGauntlet => "Trap Gauntlet",
            Self::PoisonMaze => "Poison Maze",
            Self::BoulderPuzzle => "Boulder Puzzle",
            Self::MirrorRoom => "Mirror Room",
            Self::ElementalNexus => "Elemental Nexus",
            Self::GraveyardRise => "Graveyard Rise",
            Self::BanditAmbush => "Bandit Ambush",
            Self::DuelCircle => "Duel Circle",
            Self::Library => "Library",
            Self::CalligraphyHall => "Calligraphy Hall",
            Self::ScholarStudy => "Scholar's Study",
            Self::OracleRoom => "Oracle Room",
            Self::InscriptionWall => "Inscription Wall",
            Self::MasterDojo => "Master's Dojo",
            Self::MeditationChamber => "Meditation Chamber",
            Self::TranslationChallenge => "Translation Challenge",
            Self::AncientScroll => "Ancient Scroll Room",
            Self::WisdomWell => "Wisdom Well",
            Self::FloodedChamber => "Flooded Chamber",
            Self::FrozenCavern => "Frozen Cavern",
            Self::LavaCrossing => "Lava Crossing",
            Self::BambooForest => "Bamboo Forest",
            Self::WindTunnel => "Wind Tunnel",
            Self::CrystalCave => "Crystal Cave",
            Self::MushroomGrotto => "Mushroom Grotto",
            Self::UndergroundRiver => "Underground River",
            Self::EchoingCavern => "Echoing Cavern",
            Self::ShadowRealm => "Shadow Realm",
            Self::WanderingMerchant => "Wandering Merchant",
            Self::HermitSage => "Hermit Sage",
            Self::PrisonerCell => "Prisoner Cell",
            Self::SpiritShrine => "Spirit Shrine",
            Self::TeaHouse => "Tea House",
            Self::SmithyWorkshop => "Smithy Workshop",
            Self::AlchemyLab => "Alchemy Lab",
            Self::FortuneTeller => "Fortune Teller",
            Self::RefugeeCamp => "Refugee Camp",
            Self::DragonGate => "Dragon Gate",
            Self::GamblingDen => "Gambling Den",
            Self::BloodAltar => "Blood Altar",
            Self::CursedTreasure => "Cursed Treasure",
            Self::SoulForge => "Soul Forge",
            Self::WishingWell => "Wishing Well",
            Self::RuneGate => "Rune Gate",
            Self::MirrorMaze => "Mirror Maze",
            Self::WeightPuzzle => "Weight Puzzle",
            Self::ToneStaircase => "Tone Staircase",
            Self::ElementalLock => "Elemental Lock",
            Self::SurvivalPit => "Survival Pit",
            Self::TreasureRace => "Treasure Race",
            Self::CollapsingChamber => "Collapsing Chamber",
            Self::InkFlood => "Ink Flood",
            Self::FormShrine => "Form Shrine",
            Self::ClassTrial => "Class Trial",
            Self::RadicalFountain => "Radical Fountain",
            Self::AncestorTomb => "Ancestor's Tomb",
            Self::ProphecyRoom => "Prophecy Room",
            Self::SealedMemory => "Sealed Memory",
            Self::DemonSeal => "Demon Seal",
            Self::PhoenixNest => "Phoenix Nest",
            Self::CalligraphyContest => "Calligraphy Contest",
        }
    }

    pub open spec fn description_spec(self) -> Seq<char> {
        match self {
            Self::TreasureVault => "A locked vault with chests, guarded by a powerful sentinel."@,
            Self::GoldMine => "Glittering ore veins line the walls. Mine them for gold."@,
            Self::AncestralHall => "Ancestral tablets glow softly, offering their blessings."@,
            Self::HiddenCache => "A concealed alcove with rare supplies."@,
            Self::OfferingAltar => "An ancient altar. Sacrifice 50 gold for a powerful gift."@,
            Self::LotusGarden => "A tranquil garden of blooming lotus. Your wounds heal."@,
            Self::DragonHoard => "Piles of gold glitter across the chamber floor."@,
            Self::JadeVault => "A pristine vault containing a rare jade radical."@,
            Self::RelicChamber => "An ancient relic pulses with life energy. +1 max HP."@,
            Self::SpiritSpring => "Crystal water bubbles up, restoring spirit and health."@,
            Self::ArenaChallenge => "An arena where waves of challengers await!"@,
            Self::EliteGuardPost => "Elite guards block the passage ahead."@,
            Self::TrapGauntlet => "A corridor bristling with deadly spike traps."@,
            Self::PoisonMaze => "Toxic fumes drift through this treacherous maze."@,
            Self::BoulderPuzzle => "Heavy boulders and pressure plates — a puzzle awaits."@,
            Self::MirrorRoom => "Your shadow separates and turns hostile!"@,
            Self::ElementalNexus => "Five elemental forces converge in this nexus."@,
            Self::GraveyardRise => "The dead stir in their graves..."@,
            Self::BanditAmbush => "Seems quiet... too quiet."@,
            Self::DuelCircle => "A ritual dueling circle. Face a champion 1v1."@,
            Self::Library => "Dusty bookshelves hold forgotten knowledge."@,
            Self::CalligraphyHall => "Practice halls echo with the scratch of brush on paper."@,
            Self::ScholarStudy => "A scholar's collection of hanzi reference texts."@,
            Self::OracleRoom => "The oracle's eye reveals all that is hidden on this floor."@,
            Self::InscriptionWall => "Ancient inscriptions teach a forgotten radical."@,
            Self::MasterDojo => "A training hall. Push yourself to gain +1 base damage."@,
            Self::MeditationChamber => "A place of deep stillness. Spirit energy gathers here."@,
            Self::TranslationChallenge => "Stone tablets await correct pinyin translations."@,
            Self::AncientScroll => "A weathered scroll contains a rare spell formula."@,
            Self::WisdomWell => "A well of wisdom. Answer its riddle for a reward."@,
            Self::FloodedChamber => "Water has flooded this chamber. Currents pull at you."@,
            Self::FrozenCavern => "Ice coats every surface. Movement is treacherous."@,
            Self::LavaCrossing => "Molten lava flows between narrow stone paths."@,
            Self::BambooForest => "Dense bamboo thickets obscure your vision."@,
            Self::WindTunnel => "A howling gale pushes through this narrow passage."@,
            Self::CrystalCave => "Luminous crystals line the walls, refracting light."@,
            Self::MushroomGrotto => "Giant mushrooms release clouds of disorienting spores."@,
            Self::UndergroundRiver => "An underground river rushes through the chamber."@,
            Self::EchoingCavern => "Every sound reverberates endlessly in this cavern."@,
            Self::ShadowRealm => "Impenetrable darkness limits your sight to 2 tiles."@,
            Self::WanderingMerchant => "A traveling merchant offers rare and unique wares."@,
            Self::HermitSage => "A wise hermit offers to trade HP for spell power."@,
            Self::PrisonerCell => "Someone is locked in a cell! Free them for an ally."@,
            Self::SpiritShrine => "A sacred shrine radiates divine energy."@,
            Self::TeaHouse => "A cozy rest stop. Enjoy tea and hear rumors."@,
            Self::SmithyWorkshop => "A master smith can upgrade one piece of equipment."@,
            Self::AlchemyLab => "Bubbling cauldrons and strange reagents fill the room."@,
            Self::FortuneTeller => "A mysterious seer offers to reveal the boss's weakness."@,
            Self::RefugeeCamp => "Displaced travelers seek aid. Help them for karma."@,
            Self::DragonGate => "An otherworldly portal shimmers with draconic power."@,
            Self::GamblingDen => "Three mysterious urns await. Pick one — fortune or ruin?"@,
            Self::BloodAltar => "A crimson altar pulses with dark energy. Sacrifice HP for power."@,
            Self::CursedTreasure => "An ornate chest radiates ominous energy. Great reward… or great cost."@,
            Self::SoulForge => "Ethereal flames can transform one radical into another."@,
            Self::WishingWell => "A shimmering well. Throw gold to receive a gift from the depths."@,
            Self::RuneGate => "Four elemental runes must be stepped on in Wuxing cycle order."@,
            Self::MirrorMaze => "Reflective surfaces distort space. Navigate carefully to the center."@,
            Self::WeightPuzzle => "Pressure plates and boulders. Push all boulders onto plates to unlock."@,
            Self::ToneStaircase => "Four ascending steps glow with tonal marks. Ascend with correct tones."@,
            Self::ElementalLock => "A sealed door requires elemental energy — cast one spell of each element."@,
            Self::SurvivalPit => "The exits seal shut! Survive waves of enemies for a reward."@,
            Self::TreasureRace => "Gold coins materialize on random tiles! Grab them before they vanish!"@,
            Self::CollapsingChamber => "The floor crumbles from the edges inward! Reach the center treasure!"@,
            Self::InkFlood => "Dark ink seeps across the floor. Stand in it for power, but beware the drain."@,
            Self::FormShrine => "An ancient shrine offers transformation into a new form. Choose wisely."@,
            Self::ClassTrial => "A trial chamber tests your abilities. Succeed for a class bonus."@,
            Self::RadicalFountain => "Luminous waters refine all radicals you carry. Spells gain +1 damage."@,
            Self::AncestorTomb => "An ancient warrior's tomb. Pray to receive their legendary weapon."@,
            Self::ProphecyRoom => "Murals depict the boss of this tier and hint at its weakness."@,
            Self::SealedMemory => "Echoes of the past. Recall what you've learned for a reward."@,
            Self::DemonSeal => "A sealed demon offers dark power — but at what cost?"@,
            Self::PhoenixNest => "A radiant nest of eternal flame. The phoenix bestows its blessing."@,
            Self::CalligraphyContest => "A master calligrapher challenges you. Speed and accuracy earn gold."@,
        }
    }

    pub fn description(self) -> (r: &'static str)
        ensures
            r@ == self.description_spec(),
    {
        match self {
            Self::TreasureVault => "A locked vault with chests, guarded by a powerful sentinel.",
            Self::GoldMine => "Glittering ore veins line the walls. Mine them for gold.",
            Self::AncestralHall => "Ancestral tablets glow softly, offering their blessings.",
            Self::HiddenCache => "A concealed alcove with rare supplies.",
            Self::OfferingAltar => "An ancient altar. Sacrifice 50 gold for a powerful gift.",
            Self::LotusGarden => "A tranquil garden of blooming lotus. Your wounds heal.",
            Self::DragonHoard => "Piles of gold glitter across the chamber floor.",
            Self::JadeVault => "A pristine vault containing a rare jade radical.",
            Self::RelicChamber => "An ancient relic pulses with life energy. +1 max HP.",
            Self::SpiritSpring => "Crystal water bubbles up, restoring spirit and health.",
            Self::ArenaChallenge => "An arena where waves of challengers await!",
            Self::EliteGuardPost => "Elite guards block the passage ahead.",
            Self::TrapGauntlet => "A corridor bristling with deadly spike traps.",
            Self::PoisonMaze => "Toxic fumes drift through this treacherous maze.",
            Self::BoulderPuzzle => "Heavy boulders and pressure plates — a puzzle awaits.",
            Self::MirrorRoom => "Your shadow separates and turns hostile!",
            Self::ElementalNexus => "Five elemental forces converge in this nexus.",
            Self::GraveyardRise => "The dead stir in their graves...",
            Self::BanditAmbush => "Seems quiet... too quiet.",
            Self::DuelCircle => "A ritual dueling circle. Face a champion 1v1.",
            Self::Library => "Dusty bookshelves hold forgotten knowledge.",
            Self::CalligraphyHall => "Practice halls echo with the scratch of brush on paper.",
            Self::ScholarStudy => "A scholar's collection of hanzi reference texts.",
            Self::OracleRoom => "The oracle's eye reveals all that is hidden on this floor.",
            Self::InscriptionWall => "Ancient inscriptions teach a forgotten radical.",
            Self::MasterDojo => "A training hall. Push yourself to gain +1 base damage.",
            Self::MeditationChamber => "A place of deep stillness. Spirit energy gathers here.",
            Self::TranslationChallenge => "Stone tablets await correct pinyin translations.",
            Self::AncientScroll => "A weathered scroll contains a rare spell formula.",
            Self::WisdomWell => "A well of wisdom. Answer its riddle for a reward.",
            Self::FloodedChamber => "Water has flooded this chamber. Currents pull at you.",
            Self::FrozenCavern => "Ice coats every surface. Movement is treacherous.",
            Self::LavaCrossing => "Molten lava flows between narrow stone paths.",
            Self::BambooForest => "Dense bamboo thickets obscure your vision.",
            Self::WindTunnel => "A howling gale pushes through this narrow passage.",
            Self::CrystalCave => "Luminous crystals line the walls, refracting light.",
            Self::MushroomGrotto => "Giant mushrooms release clouds of disorienting spores.",
            Self::UndergroundRiver => "An underground river rushes through the chamber.",
            Self::EchoingCavern => "Every sound reverberates endlessly in this cavern.",
            Self::ShadowRealm => "Impenetrable darkness limits your sight to 2 tiles.",
            Self::WanderingMerchant => "A traveling merchant offers rare and unique wares.",
            Self::HermitSage => "A wise hermit offers to trade HP for spell power.",
            Self::PrisonerCell => "Someone is locked in a cell! Free them for an ally.",
            Self::SpiritShrine => "A sacred shrine radiates divine energy.",
            Self::TeaHouse => "A cozy rest stop. Enjoy tea and hear rumors.",
            Self::SmithyWorkshop => "A master smith can upgrade one piece of equipment.",
            Self::AlchemyLab => "Bubbling cauldrons and strange reagents fill the room.",
            Self::FortuneTeller => "A mysterious seer offers to reveal the boss's weakness.",
            Self::RefugeeCamp => "Displaced travelers seek aid. Help them for karma.",
            Self::DragonGate => "An otherworldly portal shimmers with draconic power.",
            Self::GamblingDen => "Three mysterious urns await. Pick one — fortune or ruin?",
            Self::BloodAltar => "A crimson altar pulses with dark energy. Sacrifice HP for power.",
            Self::CursedTreasure => "An ornate chest radiates ominous energy. Great reward… or great cost.",
            Self::SoulForge => "Ethereal flames can transform one radical into another.",
            Self::WishingWell => "A shimmering well. Throw gold to receive a gift from the depths.",
            Self::RuneGate => "Four elemental runes must be stepped on in Wuxing cycle order.",
            Self::MirrorMaze => "Reflective surfaces distort space. Navigate carefully to the center.",
            Self::WeightPuzzle => "Pressure plates and boulders. Push all boulders onto plates to unlock.",
            Self::ToneStaircase => "Four ascending steps glow with tonal marks. Ascend with correct tones.",
            Self::ElementalLock => "A sealed door requires elemental energy — cast one spell of each element.",
            Self::SurvivalPit => "The exits seal shut! Survive waves of enemies for a reward.",
            Self::TreasureRace => "Gold coins materialize on random tiles! Grab them before they vanish!",
            Self::CollapsingChamber => "The floor crumbles from the edges inward! Reach the center treasure!",
            Self::InkFlood => "Dark ink seeps across the floor. Stand in it for power, but beware the drain.",
            Self::FormShrine => "An ancient shrine offers transformation into a new form. Choose wisely.",
            Self::ClassTrial => "A trial chamber tests your abilities. Succeed for a class bonus.",
            Self::RadicalFountain => "Luminous waters refine all radicals you carry. Spells gain +1 damage.",
            Self::AncestorTomb => "An ancient warrior's tomb. Pray to receive their legendary weapon.",
            Self::ProphecyRoom => "Murals depict the boss of this tier and hint at its weakness.",
            Self::SealedMemory => "Echoes of the past. Recall what you've learned for a reward.",
            Self::DemonSeal => "A sealed demon offers dark power — but at what cost?",
            Self::PhoenixNest => "A radiant nest of eternal flame. The phoenix bestows its blessing.",
            Self::CalligraphyContest => "A master calligrapher challenges you. Speed and accuracy earn gold.",
        }
    }

}

/// The length, first, last and next-to-last characters of a name.
pub open spec fn name_signature(s: Seq<char>) -> (nat, char, char, char) {
    (s.len(), s[0], s[s.len() - 1], s[s.len() - 2])
}

/// The special room whose name has signature `g`, if any.
pub open spec fn room_with_signature(g: (nat, char, char, char)) -> Option<SpecialRoomKind> {
    if g == (14nat, 'T', 't', 'l') {
        Some(SpecialRoomKind::TreasureVault)
    } else if g == (9nat, 'G', 'e', 'n') {
        Some(SpecialRoomKind::GoldMine)
    } else if g == (14nat, 'A', 'l', 'l') {
        Some(SpecialRoomKind::AncestralHall)
    } else if g == (12nat, 'H', 'e', 'h') {
        Some(SpecialRoomKind::HiddenCache)
    } else if g == (14nat, 'O', 'r', 'a') {
        Some(SpecialRoomKind::OfferingAltar)
    } else if g == (12nat, 'L', 'n', 'e') {
        Some(SpecialRoomKind::LotusGarden)
    } else if g == (12nat, 'D', 'd', 'r') {
        Some(SpecialRoomKind::DragonHoard)
    } else if g == (10nat, 'J', 't', 'l') {
        Some(SpecialRoomKind::JadeVault)
    } else if g == (13nat, 'R', 'r', 'e') {
        Some(SpecialRoomKind::RelicChamber)
    } else if g == (13nat, 'S', 'g', 'n') {
        Some(SpecialRoomKind::SpiritSpring)
    } else if g == (15nat, 'A', 'e', 'g') {
        Some(SpecialRoomKind::ArenaChallenge)
    } else if g == (16nat, 'E', 't', 's') {
        Some(SpecialRoomKind::EliteGuardPost)
    } else if g == (13nat, 'T', 't', 'e') {
        Some(SpecialRoomKind::TrapGauntlet)
    } else if g == (11nat, 'P', 'e', 'z') {
        Some(SpecialRoomKind::PoisonMaze)
    } else if g == (14nat, 'B', 'e', 'l') {
        Some(SpecialRoomKind::BoulderPuzzle)
    } else if g == (11nat, 'M', 'm', 'o') {
        Some(SpecialRoomKind::MirrorRoom)
    } else if g == (15nat, 'E', 's', 'u') {
        Some(SpecialRoomKind::ElementalNexus)
    } else if g == (14nat, 'G', 'e', 's') {
        Some(SpecialRoomKind::GraveyardRise)
    } else if g == (13nat, 'B', 'h', 's') {
        Some(SpecialRoomKind::BanditAmbush)
    } else if g == (11nat, 'D', 'e', 'l') {
        Some(SpecialRoomKind::DuelCircle)
    } else if g == (7nat, 'L', 'y', 'r') {
        Some(SpecialRoomKind::Library)
    } else if g == (16nat, 'C', 'l', 'l') {
        Some(SpecialRoomKind::CalligraphyHall)
    } else if g == (15nat, 'S', 'y', 'd') {
        Some(SpecialRoomKind::ScholarStudy)
    } else if g == (11nat, 'O', 'm', 'o') {
        Some(SpecialRoomKind::OracleRoom)
    } else if g == (16nat, 'I', 'l', 'l') {
        Some(SpecialRoomKind::InscriptionWall)
    } else if g == (13nat, 'M', 'o', 'j') {
        Some(SpecialRoomKind::MasterDojo)
    } else if g == (18nat, 'M', 'r', 'e') {
        Some(SpecialRoomKind::MeditationChamber)
    } else if g == (21nat, 'T', 'e', 'g') {
        Some(SpecialRoomKind::TranslationChallenge)
    } else if g == (19nat, 'A', 'm', 'o') {
        Some(SpecialRoomKind::AncientScroll)
    } else if g == (11nat, 'W', 'l', 'l') {
        Some(SpecialRoomKind::WisdomWell)
    } else if g == (15nat, 'F', 'r', 'e') {
        Some(SpecialRoomKind::FloodedChamber)
    } else if g == (13nat, 'F', 'n', 'r') {
        Some(SpecialRoomKind::FrozenCavern)
    } else if g == (13nat, 'L', 'g', 'n') {
        Some(SpecialRoomKind::LavaCrossing)
    } else if g == (13nat, 'B', 't', 's') {
        Some(SpecialRoomKind::BambooForest)
    } else if g == (11nat, 'W', 'l', 'e') {
        Some(SpecialRoomKind::WindTunnel)
    } else if g == (12nat, 'C', 'e', 'v') {
        Some(SpecialRoomKind::CrystalCave)
    } else if g == (15nat, 'M', 'o', 't') {
        Some(SpecialRoomKind::MushroomGrotto)
    } else if g == (17nat, 'U', 'r', 'e') {
        Some(SpecialRoomKind::UndergroundRiver)
    } else if g == (14nat, 'E', 'n', 'r') {
        Some(SpecialRoomKind::EchoingCavern)
    } else if g == (12nat, 'S', 'm', 'l') {
        Some(SpecialRoomKind::ShadowRealm)
    } else if g == (18nat, 'W', 't', 'n') {
        Some(SpecialRoomKind::WanderingMerchant)
    } else if g == (11nat, 'H', 'e', 'g') {
        Some(SpecialRoomKind::HermitSage)
    } else if g == (13nat, 'P', 'l', 'l') {
        Some(SpecialRoomKind::PrisonerCell)
    } else if g == (13nat, 'S', 'e', 'n') {
        Some(SpecialRoomKind::SpiritShrine)
    } else if g == (9nat, 'T', 'e', 's') {
        Some(SpecialRoomKind::TeaHouse)
    } else if g == (15nat, 'S', 'p', 'o') {
        Some(SpecialRoomKind::SmithyWorkshop)
    } else if g == (11nat, 'A', 'b', 'a') {
        Some(SpecialRoomKind::AlchemyLab)
    } else if g == (14nat, 'F', 'r', 'e') {
        Some(SpecialRoomKind::FortuneTeller)
    } else if g == (12nat, 'R', 'p', 'm') {
        Some(SpecialRoomKind::RefugeeCamp)
    } else if g == (11nat, 'D', 'e', 't') {
        Some(SpecialRoomKind::DragonGate)
    } else if g == (12nat, 'G', 'n', 'e') {
        Some(SpecialRoomKind::GamblingDen)
    } else if g == (11nat, 'B', 'r', 'a') {
        Some(SpecialRoomKind::BloodAltar)
    } else if g == (15nat, 'C', 'e', 'r') {
        Some(SpecialRoomKind::CursedTreasure)
    } else if g == (10nat, 'S', 'e', 'g') {
        Some(SpecialRoomKind::SoulForge)
    } else if g == (12nat, 'W', 'l', 'l') {
        Some(SpecialRoomKind::WishingWell)
    } else if g == (9nat, 'R', 'e', 't') {
        Some(SpecialRoomKind::RuneGate)
    } else if g == (11nat, 'M', 'e', 'z') {
        Some(SpecialRoomKind::MirrorMaze)
    } else if g == (13nat, 'W', 'e', 'l') {
        Some(SpecialRoomKind::WeightPuzzle)
    } else if g == (14nat, 'T', 'e', 's') {
        Some(SpecialRoomKind::ToneStaircase)
    } else if g == (14nat, 'E', 'k', 'c') {
        Some(SpecialRoomKind::ElementalLock)
    } else if g == (12nat, 'S', 't', 'i') {
        Some(SpecialRoomKind::SurvivalPit)
    } else if g == (13nat, 'T', 'e', 'c') {
        Some(SpecialRoomKind::TreasureRace)
    } else if g == (18nat, 'C', 'r', 'e') {
        Some(SpecialRoomKind::CollapsingChamber)
    } else if g == (9nat, 'I', 'd', 'o') {
        Some(SpecialRoomKind::InkFlood)
    } else if g == (11nat, 'F', 'e', 'n') {
        Some(SpecialRoomKind::FormShrine)
    } else if g == (11nat, 'C', 'l', 'a') {
        Some(SpecialRoomKind::ClassTrial)
    } else if g == (16nat, 'R', 'n', 'i') {
        Some(SpecialRoomKind::RadicalFountain)
    } else if g == (15nat, 'A', 'b', 'm') {
        Some(SpecialRoomKind::AncestorTomb)
    } else if g == (13nat, 'P', 'm', 'o') {
        Some(SpecialRoomKind::ProphecyRoom)
    } else if g == (13nat, 'S', 'y', 'r') {
        Some(SpecialRoomKind::SealedMemory)
    } else if g == (10nat, 'D', 'l', 'a') {
        Some(SpecialRoomKind::DemonSeal)
    } else if g == (12nat, 'P', 't', 's') {
        Some(SpecialRoomKind::PhoenixNest)
    } else if g == (19nat, 'C', 't', 's') {
        Some(SpecialRoomKind::CalligraphyContest)
    } else {
        None
    }
}

/// A special room's name tells which room it is.
proof fn lemma_name_identifies_room(k: SpecialRoomKind)
    ensures
        room_with_signature(name_signature(k.name_spec())) == Some(k),
{
    match k {
            SpecialRoomKind::TreasureVault => {
                reveal_strlit("Treasure Vault");
            },
            SpecialRoomKind::GoldMine => {
                reveal_strlit("Gold Mine");
            },
            SpecialRoomKind::AncestralHall => {
                reveal_strlit("Ancestral Hall");
            },
            SpecialRoomKind::HiddenCache => {
                reveal_strlit("Hidden Cache");
            },
            SpecialRoomKind::OfferingAltar => {
                reveal_strlit("Offering Altar");
            },
            SpecialRoomKind::LotusGarden => {
                reveal_strlit("Lotus Garden");
            },
            SpecialRoomKind::DragonHoard => {
                reveal_strlit("Dragon Hoard");
            },
            SpecialRoomKind::JadeVault => {
                reveal_strlit("Jade Vault");
            },
            SpecialRoomKind::RelicChamber => {
                reveal_strlit("Relic Chamber");
            },
            SpecialRoomKind::SpiritSpring => {
                reveal_strlit("Spirit Spring");
            },
            SpecialRoomKind::ArenaChallenge => {
                reveal_strlit("Arena Challenge");
            },
            SpecialRoomKind::EliteGuardPost => {
                reveal_strlit("Elite Guard Post");
            },
            SpecialRoomKind::TrapGauntlet => {
                reveal_strlit("Trap Gauntlet");
            },
            SpecialRoomKind::PoisonMaze => {
                reveal_strlit("Poison Maze");
            },
            SpecialRoomKind::BoulderPuzzle => {
                reveal_strlit("Boulder Puzzle");
            },
            SpecialRoomKind::MirrorRoom => {
                reveal_strlit("Mirror Room");
            },
            SpecialRoomKind::ElementalNexus => {
                reveal_strlit("Elemental Nexus");
            },
            SpecialRoomKind::GraveyardRise => {
                reveal_strlit("Graveyard Rise");
            },
            SpecialRoomKind::BanditAmbush => {
                reveal_strlit("Bandit Ambush");
            },
            SpecialRoomKind::DuelCircle => {
                reveal_strlit("Duel Circle");
            },
            SpecialRoomKind::Library => {
                reveal_strlit("Library");
            },
            SpecialRoomKind::CalligraphyHall => {
                reveal_strlit("Calligraphy Hall");
            },
            SpecialRoomKind::ScholarStudy => {
                reveal_strlit("Scholar's Study");
            },
            SpecialRoomKind::OracleRoom => {
                reveal_strlit("Oracle Room");
            },
            SpecialRoomKind::InscriptionWall => {
                reveal_strlit("Inscription Wall");
            },
            SpecialRoomKind::MasterDojo => {
                reveal_strlit("Master's Dojo");
            },
            SpecialRoomKind::MeditationChamber => {
                reveal_strlit("Meditation Chamber");
            },
            SpecialRoomKind::TranslationChallenge => {
                reveal_strlit("Translation Challenge");
            },
            SpecialRoomKind::AncientScroll => {
                reveal_strlit("Ancient Scroll Room");
            },
            SpecialRoomKind::WisdomWell => {
                reveal_strlit("Wisdom Well");
            },
            SpecialRoomKind::FloodedChamber => {
                reveal_strlit("Flooded Chamber");
            },
            SpecialRoomKind::FrozenCavern => {
                reveal_strlit("Frozen Cavern");
            },
            SpecialRoomKind::LavaCrossing => {
                reveal_strlit("Lava Crossing");
            },
            SpecialRoomKind::BambooForest => {
                reveal_strlit("Bamboo Forest");
            },
            SpecialRoomKind::WindTunnel => {
                reveal_strlit("Wind Tunnel");
            },
            SpecialRoomKind::CrystalCave => {
                reveal_strlit("Crystal Cave");
            },
            SpecialRoomKind::MushroomGrotto => {
                reveal_strlit("Mushroom Grotto");
            },
            SpecialRoomKind::UndergroundRiver => {
                reveal_strlit("Underground River");
            },
            SpecialRoomKind::EchoingCavern => {
                reveal_strlit("Echoing Cavern");
            },
            SpecialRoomKind::ShadowRealm => {
                reveal_strlit("Shadow Realm");
            },
            SpecialRoomKind::WanderingMerchant => {
                reveal_strlit("Wandering Merchant");
            },
            SpecialRoomKind::HermitSage => {
                reveal_strlit("Hermit Sage");
            },
            SpecialRoomKind::PrisonerCell => {
                reveal_strlit("Prisoner Cell");
            },
            SpecialRoomKind::SpiritShrine => {
                reveal_strlit("Spirit Shrine");
            },
            SpecialRoomKind::TeaHouse => {
                reveal_strlit("Tea House");
            },
            SpecialRoomKind::SmithyWorkshop => {
                reveal_strlit("Smithy Workshop");
            },
            SpecialRoomKind::AlchemyLab => {
                reveal_strlit("Alchemy Lab");
            },
            SpecialRoomKind::FortuneTeller => {
                reveal_strlit("Fortune Teller");
            },
            SpecialRoomKind::RefugeeCamp => {
                reveal_strlit("Refugee Camp");
            },
            SpecialRoomKind::DragonGate => {
                reveal_strlit("Dragon Gate");
            },
            SpecialRoomKind::GamblingDen => {
                reveal_strlit("Gambling Den");
            },
            SpecialRoomKind::BloodAltar => {
                reveal_strlit("Blood Altar");
            },
            SpecialRoomKind::CursedTreasure => {
                reveal_strlit("Cursed Treasure");
            },
            SpecialRoomKind::SoulForge => {
                reveal_strlit("Soul Forge");
            },
            SpecialRoomKind::WishingWell => {
                reveal_strlit("Wishing Well");
            },
            SpecialRoomKind::RuneGate => {
                reveal_strlit("Rune Gate");
            },
            SpecialRoomKind::MirrorMaze => {
                reveal_strlit("Mirror Maze");
            },
            SpecialRoomKind::WeightPuzzle => {
                reveal_strlit("Weight Puzzle");
            },
            SpecialRoomKind::ToneStaircase => {
                reveal_strlit("Tone Staircase");
            },
            SpecialRoomKind::ElementalLock => {
                reveal_strlit("Elemental Lock");
            },
            SpecialRoomKind::SurvivalPit => {
                reveal_strlit("Survival Pit");
            },
            SpecialRoomKind::TreasureRace => {
                reveal_strlit("Treasure Race");
            },
            SpecialRoomKind::CollapsingChamber => {
                reveal_strlit("Collapsing Chamber");
            },
            SpecialRoomKind::InkFlood => {
                reveal_strlit("Ink Flood");
            },
            SpecialRoomKind::FormShrine => {
                reveal_strlit("Form Shrine");
            },
            SpecialRoomKind::ClassTrial => {
                reveal_strlit("Class Trial");
            },
            SpecialRoomKind::RadicalFountain => {
                reveal_strlit("Radical Fountain");
            },
            SpecialRoomKind::AncestorTomb => {
                reveal_strlit("Ancestor's Tomb");
            },
            SpecialRoomKind::ProphecyRoom => {
                reveal_strlit("Prophecy Room");
            },
            SpecialRoomKind::SealedMemory => {
                reveal_strlit("Sealed Memory");
            },
            SpecialRoomKind::DemonSeal => {
                reveal_strlit("Demon Seal");
            },
            SpecialRoomKind::PhoenixNest => {
                reveal_strlit("Phoenix Nest");
            },
            SpecialRoomKind::CalligraphyContest => {
                reveal_strlit("Calligraphy Contest");
            },
    }
}

/// No two kinds of special room share a name.
pub proof fn lemma_special_room_names_distinct(a: SpecialRoomKind, b: SpecialRoomKind)
    requires
        a != b,
    ensures
        a.name_spec() != b.name_spec(),
{
    lemma_name_identifies_room(a);
    lemma_name_identifies_room(b);
}

#[derive(Clone, Copy, PartialEq, Eq, Debug, Structural)]
pub enum Tile {
    Wall,
    CrackedWall,
    /// A visible weak barrier for optional vault-style puzzle niches
    BrittleWall,
    Floor,
    Corridor,
    StairsDown,
    Forge,
    Shop,
    Chest,
    /// Smashable crate with supplies or traps
    Crate,
    /// NetHack-style spike trap
    Spikes,
    /// Slick oil that can be ignited by fire magic
    Oil,
    /// Water that conducts stunning spells
    Water,
    /// Too deep to wade through, but a crate can span it
    DeepWater,
    /// NPC companion (0=Teacher, 1=Monk, 2=Merchant, 3=Guard)
    Npc(u8),
    /// Tone shrine for tone battle mini-game
    Shrine,
    /// One-shot altar that grants a blessing
    Altar(AltarKind),
    /// One-shot script seal that reshapes the room when stepped on
    Seal(SealKind),
    /// Tutorial signpost with a scripted message
    Sign(u8),
    /// Bridge created by pushing a crate into water
    Bridge,
    /// Stroke order challenge shrine
    StrokeShrine,
    /// Tone defense wall
    ToneWall,
    /// Compound word builder shrine
    CompoundShrine,
    /// Classifier matching shrine
    ClassifierShrine,
    /// Ink well — component count quiz, reward HP
    InkWell,
    /// Ancestor shrine — chengyu/proverb completion
    AncestorShrine,
    /// Translation altar — pick correct Chinese for English
    TranslationAltar,
    /// Radical garden — identify the radical of a hanzi
    RadicalGarden,
    /// Mirror pool — type pinyin for shown hanzi
    MirrorPool,
    /// Stone tutor — teaches then quizzes tone
    StoneTutor,
    /// Codex shrine — quizzes characters from player's codex
    CodexShrine,
    /// Word bridge — answer vocab to extend bridge over deep water
    WordBridge,
    /// Locked door — blocks passage until question answered
    LockedDoor,
    /// Cursed floor — hidden trap, tone quiz when stepped on
    CursedFloor,
    /// Hidden trap tile (type: 0=poison, 1=teleport, 2=alarm)
    Trap(u8),
    /// Gold ore vein — mine for gold
    GoldOre,
    /// Lava — deals damage when walked on
    Lava,
    /// Ice — slippery, sliding movement
    Ice,
    /// Dense bamboo — blocks movement and line of sight
    Bamboo,
    /// Mushroom — spore cloud causes confusion
    Mushroom,
    /// Poison gas — applies poison when walked through
    PoisonGas,
    /// Bookshelf — interactable, teaches knowledge
    Bookshelf,
    /// Pressure plate — puzzle element
    PressurePlate,
    /// Boulder — pushable onto pressure plates
    Boulder,
    /// Crystal — reflective wall
    Crystal,
    /// Dragon gate portal — end-game content
    DragonGatePortal,
    /// Spirit spring — restores HP and spirit
    SpiritSpringTile,
    /// Gold pile — pick up for gold
    GoldPile,
}
pub open spec fn special_pool_base() -> Seq<SpecialRoomKind> {
    seq![
        SpecialRoomKind::TreasureVault, SpecialRoomKind::GoldMine, SpecialRoomKind::AncestralHall, SpecialRoomKind::LotusGarden,
        SpecialRoomKind::DragonHoard, SpecialRoomKind::RelicChamber, SpecialRoomKind::SpiritSpring, SpecialRoomKind::ArenaChallenge,
        SpecialRoomKind::EliteGuardPost, SpecialRoomKind::TrapGauntlet, SpecialRoomKind::BanditAmbush, SpecialRoomKind::Library,
        SpecialRoomKind::CalligraphyHall, SpecialRoomKind::ScholarStudy, SpecialRoomKind::InscriptionWall, SpecialRoomKind::MasterDojo,
        SpecialRoomKind::MeditationChamber, SpecialRoomKind::TranslationChallenge, SpecialRoomKind::WisdomWell, SpecialRoomKind::FloodedChamber,
        SpecialRoomKind::FrozenCavern, SpecialRoomKind::LavaCrossing, SpecialRoomKind::BambooForest, SpecialRoomKind::WindTunnel,
        SpecialRoomKind::CrystalCave, SpecialRoomKind::MushroomGrotto, SpecialRoomKind::EchoingCavern, SpecialRoomKind::ShadowRealm,
        SpecialRoomKind::WanderingMerchant, SpecialRoomKind::TeaHouse, SpecialRoomKind::SmithyWorkshop, SpecialRoomKind::SpiritShrine,
        SpecialRoomKind::RefugeeCamp, SpecialRoomKind::GamblingDen, SpecialRoomKind::WishingWell, SpecialRoomKind::TreasureRace,
        SpecialRoomKind::CalligraphyContest, SpecialRoomKind::ProphecyRoom,
    ]
}

pub open spec fn special_pool_floor3() -> Seq<SpecialRoomKind> {
    seq![
        SpecialRoomKind::HiddenCache, SpecialRoomKind::OfferingAltar, SpecialRoomKind::JadeVault, SpecialRoomKind::PoisonMaze,
        SpecialRoomKind::BoulderPuzzle, SpecialRoomKind::MirrorRoom, SpecialRoomKind::GraveyardRise, SpecialRoomKind::DuelCircle,
        SpecialRoomKind::OracleRoom, SpecialRoomKind::AncientScroll, SpecialRoomKind::UndergroundRiver, SpecialRoomKind::HermitSage,
        SpecialRoomKind::PrisonerCell, SpecialRoomKind::AlchemyLab, SpecialRoomKind::FortuneTeller, SpecialRoomKind::BloodAltar,
        SpecialRoomKind::WeightPuzzle, SpecialRoomKind::ToneStaircase, SpecialRoomKind::SurvivalPit, SpecialRoomKind::ClassTrial,
        SpecialRoomKind::SealedMemory,
    ]
}

pub open spec fn special_pool_floor5() -> Seq<SpecialRoomKind> {
    seq![
        SpecialRoomKind::ElementalNexus, SpecialRoomKind::CursedTreasure, SpecialRoomKind::SoulForge, SpecialRoomKind::RuneGate,
        SpecialRoomKind::MirrorMaze, SpecialRoomKind::ElementalLock, SpecialRoomKind::CollapsingChamber, SpecialRoomKind::InkFlood,
        SpecialRoomKind::RadicalFountain, SpecialRoomKind::AncestorTomb,
    ]
}

pub open spec fn special_pool_floor10() -> Seq<SpecialRoomKind> {
    seq![
        SpecialRoomKind::FormShrine, SpecialRoomKind::DemonSeal,
    ]
}

pub open spec fn special_pool_floor20() -> Seq<SpecialRoomKind> {
    seq![
        SpecialRoomKind::PhoenixNest,
    ]
}

pub open spec fn special_pool_floor25() -> Seq<SpecialRoomKind> {
    seq![
        SpecialRoomKind::DragonGate,
    ]
}

/// The weighted pool of special rooms offered on a floor, in draw order.
pub open spec fn special_pool(floor: i32) -> Seq<SpecialRoomKind> {
    special_pool_base()
        + (if floor >= 3 { special_pool_floor3() } else { Seq::empty() })
        + (if floor >= 5 { special_pool_floor5() } else { Seq::empty() })
        + (if floor >= 10 { special_pool_floor10() } else { Seq::empty() })
        + (if floor >= 20 { special_pool_floor20() } else { Seq::empty() })
        + (if floor >= 25 { special_pool_floor25() } else { Seq::empty() })
}

/// The special room drawn for `floor` from a raw generator output.
pub open spec fn special_from_raw(raw: u64, floor: i32) -> SpecialRoomKind {
    let pool = special_pool(floor);
    pool[((raw as usize) as int) % (pool.len() as int)]
}

impl SpecialRoomKind {
    /// Weighted random selection based on floor level.
    pub fn random_for_floor(rng: &mut Rng, floor: i32) -> (k: Self)
        ensures
            final(rng)@ == xorshift(old(rng)@),
            k == special_from_raw(final(rng)@, floor),
    {

        let mut pool: Vec<Self> = vec![
            SpecialRoomKind::TreasureVault, SpecialRoomKind::GoldMine, SpecialRoomKind::AncestralHall, SpecialRoomKind::LotusGarden,
            SpecialRoomKind::DragonHoard, SpecialRoomKind::RelicChamber, SpecialRoomKind::SpiritSpring, SpecialRoomKind::ArenaChallenge,
            SpecialRoomKind::EliteGuardPost, SpecialRoomKind::TrapGauntlet, SpecialRoomKind::BanditAmbush, SpecialRoomKind::Library,
            SpecialRoomKind::CalligraphyHall, SpecialRoomKind::ScholarStudy, SpecialRoomKind::InscriptionWall, SpecialRoomKind::MasterDojo,
            SpecialRoomKind::MeditationChamber, SpecialRoomKind::TranslationChallenge, SpecialRoomKind::WisdomWell, SpecialRoomKind::FloodedChamber,
            SpecialRoomKind::FrozenCavern, SpecialRoomKind::LavaCrossing, SpecialRoomKind::BambooForest, SpecialRoomKind::WindTunnel,
            SpecialRoomKind::CrystalCave, SpecialRoomKind::MushroomGrotto, SpecialRoomKind::EchoingCavern, SpecialRoomKind::ShadowRealm,
            SpecialRoomKind::WanderingMerchant, SpecialRoomKind::TeaHouse, SpecialRoomKind::SmithyWorkshop, SpecialRoomKind::SpiritShrine,
            SpecialRoomKind::RefugeeCamp, SpecialRoomKind::GamblingDen, SpecialRoomKind::WishingWell, SpecialRoomKind::TreasureRace,
            SpecialRoomKind::CalligraphyContest, SpecialRoomKind::ProphecyRoom,
        ];
        if floor >= 3 {
            let mut more: Vec<Self> = vec![
                SpecialRoomKind::HiddenCache, SpecialRoomKind::OfferingAltar, SpecialRoomKind::JadeVault, SpecialRoomKind::PoisonMaze,
                SpecialRoomKind::BoulderPuzzle, SpecialRoomKind::MirrorRoom, SpecialRoomKind::GraveyardRise, SpecialRoomKind::DuelCircle,
                SpecialRoomKind::OracleRoom, SpecialRoomKind::AncientScroll, SpecialRoomKind::UndergroundRiver, SpecialRoomKind::HermitSage,
                SpecialRoomKind::PrisonerCell, SpecialRoomKind::AlchemyLab, SpecialRoomKind::FortuneTeller, SpecialRoomKind::BloodAltar,
                SpecialRoomKind::WeightPuzzle, SpecialRoomKind::ToneStaircase, SpecialRoomKind::SurvivalPit, SpecialRoomKind::ClassTrial,
                SpecialRoomKind::SealedMemory,
            ];
            pool.append(&mut more);
        }
        if floor >= 5 {
            let mut more: Vec<Self> = vec![
                SpecialRoomKind::ElementalNexus, SpecialRoomKind::CursedTreasure, SpecialRoomKind::SoulForge, SpecialRoomKind::RuneGate,
                SpecialRoomKind::MirrorMaze, SpecialRoomKind::ElementalLock, SpecialRoomKind::CollapsingChamber, SpecialRoomKind::InkFlood,
                SpecialRoomKind::RadicalFountain, SpecialRoomKind::AncestorTomb,
            ];
            pool.append(&mut more);
        }
        if floor >= 10 {
            let mut more: Vec<Self> = vec![
                SpecialRoomKind::FormShrine, SpecialRoomKind::DemonSeal,
            ];
            pool.append(&mut more);
        }
        if floor >= 20 {
            let mut more: Vec<Self> = vec![
                SpecialRoomKind::PhoenixNest,
            ];
            pool.append(&mut more);
        }
        if floor >= 25 {
            let mut more: Vec<Self> = vec![
                SpecialRoomKind::DragonGate,
            ];
            pool.append(&mut more);
        }
        assert(pool@ =~= special_pool(floor));
        let raw = rng.next_u64();
        let idx = (raw as usize) % pool.len();
        pool[idx]
    }
}
impl Tile {
    pub open spec fn walkable_spec(self) -> bool {
        match self {
            Tile::Floor
                | Tile::Corridor
                | Tile::StairsDown
                | Tile::Forge
                | Tile::Shop
                | Tile::Chest
                | Tile::Spikes
                | Tile::Oil
                | Tile::Water
                | Tile::Npc(_)
                | Tile::Shrine
                | Tile::Altar(_)
                | Tile::Seal(_)
                | Tile::Sign(_)
                | Tile::Bridge
                | Tile::StrokeShrine
                | Tile::ToneWall
                | Tile::CompoundShrine
                | Tile::ClassifierShrine
                | Tile::InkWell
                | Tile::AncestorShrine
                | Tile::TranslationAltar
                | Tile::RadicalGarden
                | Tile::MirrorPool
                | Tile::StoneTutor
                | Tile::CodexShrine
                | Tile::WordBridge
                | Tile::CursedFloor
                | Tile::Trap(_)
                | Tile::Lava
                | Tile::Ice
                | Tile::Mushroom
                | Tile::PoisonGas
                | Tile::Bookshelf
                | Tile::PressurePlate
                | Tile::DragonGatePortal
                | Tile::SpiritSpringTile
                | Tile::GoldPile => true,
            _ => false,
        }
    }

    pub fn is_walkable(self) -> (r: bool)
        ensures
            r == self.walkable_spec(),
    {
        match self {
            Tile::Floor
                | Tile::Corridor
                | Tile::StairsDown
                | Tile::Forge
                | Tile::Shop
                | Tile::Chest
                | Tile::Spikes
                | Tile::Oil
                | Tile::Water
                | Tile::Npc(_)
                | Tile::Shrine
                | Tile::Altar(_)
                | Tile::Seal(_)
                | Tile::Sign(_)
                | Tile::Bridge
                | Tile::StrokeShrine
                | Tile::ToneWall
                | Tile::CompoundShrine
                | Tile::ClassifierShrine
                | Tile::InkWell
                | Tile::AncestorShrine
                | Tile::TranslationAltar
                | Tile::RadicalGarden
                | Tile::MirrorPool
                | Tile::StoneTutor
                | Tile::CodexShrine
                | Tile::WordBridge
                | Tile::CursedFloor
                | Tile::Trap(_)
                | Tile::Lava
                | Tile::Ice
                | Tile::Mushroom
                | Tile::PoisonGas
                | Tile::Bookshelf
                | Tile::PressurePlate
                | Tile::DragonGatePortal
                | Tile::SpiritSpringTile
                | Tile::GoldPile => true,
            _ => false,
        }
    }
}

/// Room environment modifier affecting gameplay.
#[derive(Clone, Copy, PartialEq, Eq, Debug, Structural)]
pub enum RoomModifier {
    /// Reduced FOV to 2 tiles
    Dark,
    /// Spells deal 2x damage
    Arcane,
    /// Enemies take 1 extra damage per hit
    Cursed,
    /// Overgrown bamboo and natural terrain
    Garden,
    /// Icy and frozen terrain
    Frozen,
    /// Lava and fire hazards
    Infernal,
}

#[derive(Clone, Copy, Debug)]
pub struct Room {
    pub x: i32,
    pub y: i32,
    pub w: i32,
    pub h: i32,
    pub modifier: Option<RoomModifier>,
    pub special: Option<SpecialRoomKind>,
}

/// Integer halving rounded toward zero, as machine division does.
pub open spec fn half(a: int) -> int {
    if a >= 0 { a / 2 } else { -((-a) / 2) }
}

impl Room {
    pub open spec fn center_spec(self) -> (int, int) {
        (self.x + half(self.w as int), self.y + half(self.h as int))
    }

    pub fn center(&self) -> (c: (i32, i32))
        requires
            i32::MIN <= self.center_spec().0 <= i32::MAX,
            i32::MIN <= self.center_spec().1 <= i32::MAX,
        ensures
            c.0 == self.center_spec().0,
            c.1 == self.center_spec().1,
    {
        (self.x + self.w / 2, self.y + self.h / 2)
    }

    pub open spec fn intersects_spec(self, other: Room) -> bool {
        self.x < other.x + other.w && self.x + self.w > other.x && self.y < other.y + other.h
            && self.y + self.h > other.y
    }

    pub fn intersects(&self, other: &Room) -> (r: bool)
        requires
            i32::MIN <= other.x + other.w <= i32::MAX,
            i32::MIN <= self.x + self.w <= i32::MAX,
            i32::MIN <= other.y + other.h <= i32::MAX,
            i32::MIN <= self.y + self.h <= i32::MAX,
        ensures
            r == self.intersects_spec(*other),
    {
        self.x < other.x + other.w && self.x + self.w > other.x && self.y < other.y + other.h
            && self.y + self.h > other.y
    }
}

/// Overlap of two rooms does not depend on which one is asked.
pub proof fn lemma_intersects_symmetric(a: Room, b: Room)
    ensures
        a.intersects_spec(b) == b.intersects_spec(a),
{
}

} // verus!
