//! The closed enumerations of the game: languages, expansion packs, color
//! classes, special units, level tiers and player-count numbers, with their
//! localized names.

use crate::text::eq_str;
use vstd::prelude::*;

verus! {

/// A language in which the game's own texts are printed.
#[derive(Clone, Copy, Debug, PartialEq, Eq, Structural)]
pub enum GameLanguage {
    En,
    De,
}

/// An expansion pack: a content set that gates which monsters and presets are
/// eligible.  The declaration order is the sort order; `Core` sorts first.
#[derive(Clone, Copy, Debug, PartialEq, Eq, Hash, Structural)]
pub enum Content {
    Core,
    Apocalypse,
    Awakenings,
    DesertOfTheHellscar,
    FallenSisters,
    MonsterPack1,
    RiseOfTheUndeadDragon,
    SpoilsOfWar,
    TheRuinOfLuccanor,
    TheShadowWorld,
}

/// The number of expansion packs.
pub const CONTENT_COUNT: usize = 10;

impl Content {
    /// The position of the pack in the declaration order, starting at 0.
    pub open spec fn spec_ordinal(self) -> int {
        match self {
            Content::Core => 0,
            Content::Apocalypse => 1,
            Content::Awakenings => 2,
            Content::DesertOfTheHellscar => 3,
            Content::FallenSisters => 4,
            Content::MonsterPack1 => 5,
            Content::RiseOfTheUndeadDragon => 6,
            Content::SpoilsOfWar => 7,
            Content::TheRuinOfLuccanor => 8,
            Content::TheShadowWorld => 9,
        }
    }

    /// The pack's sort key: its ordinal.  `Core` has the smallest.
    pub fn ordinal(self) -> (r: u8)
        ensures
            r == self.spec_ordinal(),
            r < CONTENT_COUNT,
    {
        match self {
            Content::Core => 0,
            Content::Apocalypse => 1,
            Content::Awakenings => 2,
            Content::DesertOfTheHellscar => 3,
            Content::FallenSisters => 4,
            Content::MonsterPack1 => 5,
            Content::RiseOfTheUndeadDragon => 6,
            Content::SpoilsOfWar => 7,
            Content::TheRuinOfLuccanor => 8,
            Content::TheShadowWorld => 9,
        }
    }

    /// The pack with a given ordinal, if there is one.
    pub open spec fn spec_from_ordinal(n: int) -> Option<Content> {
        if n == 0 {
            Some(Content::Core)
        } else if n == 1 {
            Some(Content::Apocalypse)
        } else if n == 2 {
            Some(Content::Awakenings)
        } else if n == 3 {
            Some(Content::DesertOfTheHellscar)
        } else if n == 4 {
            Some(Content::FallenSisters)
        } else if n == 5 {
            Some(Content::MonsterPack1)
        } else if n == 6 {
            Some(Content::RiseOfTheUndeadDragon)
        } else if n == 7 {
            Some(Content::SpoilsOfWar)
        } else if n == 8 {
            Some(Content::TheRuinOfLuccanor)
        } else if n == 9 {
            Some(Content::TheShadowWorld)
        } else {
            None
        }
    }

    /// The pack with a given ordinal, if there is one.
    pub fn from_ordinal(n: u8) -> (r: Option<Content>)
        ensures
            r == Content::spec_from_ordinal(n as int),
            match r {
                Some(c) => c.spec_ordinal() == n,
                None => n >= CONTENT_COUNT,
            },
    {
        match n {
            0 => Some(Content::Core),
            1 => Some(Content::Apocalypse),
            2 => Some(Content::Awakenings),
            3 => Some(Content::DesertOfTheHellscar),
            4 => Some(Content::FallenSisters),
            5 => Some(Content::MonsterPack1),
            6 => Some(Content::RiseOfTheUndeadDragon),
            7 => Some(Content::SpoilsOfWar),
            8 => Some(Content::TheRuinOfLuccanor),
            9 => Some(Content::TheShadowWorld),
            _ => None,
        }
    }

    /// The identifier by which catalog text refers to the pack.
    pub open spec fn spec_ident(self) -> Seq<char> {
        match self {
            Content::Core => "Core"@,
            Content::Apocalypse => "Apocalypse"@,
            Content::Awakenings => "Awakenings"@,
            Content::DesertOfTheHellscar => "DesertOfTheHellscar"@,
            Content::FallenSisters => "FallenSisters"@,
            Content::MonsterPack1 => "MonsterPack1"@,
            Content::RiseOfTheUndeadDragon => "RiseOfTheUndeadDragon"@,
            Content::SpoilsOfWar => "SpoilsOfWar"@,
            Content::TheRuinOfLuccanor => "TheRuinOfLuccanor"@,
            Content::TheShadowWorld => "TheShadowWorld"@,
        }
    }

    /// The identifier by which catalog text refers to the pack.
    pub fn ident(self) -> (r: &'static str)
        ensures
            r@ == self.spec_ident(),
    {
        match self {
            Content::Core => "Core",
            Content::Apocalypse => "Apocalypse",
            Content::Awakenings => "Awakenings",
            Content::DesertOfTheHellscar => "DesertOfTheHellscar",
            Content::FallenSisters => "FallenSisters",
            Content::MonsterPack1 => "MonsterPack1",
            Content::RiseOfTheUndeadDragon => "RiseOfTheUndeadDragon",
            Content::SpoilsOfWar => "SpoilsOfWar",
            Content::TheRuinOfLuccanor => "TheRuinOfLuccanor",
            Content::TheShadowWorld => "TheShadowWorld",
        }
    }

    /// The first pack, from ordinal `k` on, whose identifier is `field`.
    pub open spec fn spec_parse_from(field: Seq<char>, k: int) -> Option<Content>
        decreases CONTENT_COUNT - k,
    {
        match Content::spec_from_ordinal(k) {
            Some(c) => if c.spec_ident() == field {
                Some(c)
            } else {
                Content::spec_parse_from(field, k + 1)
            },
            None => None,
        }
    }

    /// The pack that `field` names by its identifier, if it names one.
    pub open spec fn spec_parse(field: Seq<char>) -> Option<Content> {
        Content::spec_parse_from(field, 0)
    }

    /// What `spec_parse_from` finds bears the identifier, and where it finds
    /// nothing no pack from ordinal `k` on bears it.
    pub proof fn lemma_parse_from(field: Seq<char>, k: int)
        requires
            0 <= k,
        ensures
            match Content::spec_parse_from(field, k) {
                Some(c) => c.spec_ident() == field,
                None => forall|c: Content|
                    c.spec_ordinal() >= k ==> (#[trigger] c.spec_ident()) != field,
            },
        decreases CONTENT_COUNT - k,
    {
        if k < CONTENT_COUNT {
            Content::lemma_parse_from(field, k + 1);
        }
    }

    /// The pack that `field` names by its identifier, if it names one.
    pub fn parse(field: &[char]) -> (r: Option<Content>)
        ensures
            r == Content::spec_parse(field@),
            match r {
                Some(c) => c.spec_ident() == field@,
                None => forall|c: Content| c.spec_ident() != field@,
            },
    {
        let mut k: u8 = 0;
        loop
            invariant
                k <= CONTENT_COUNT,
                Content::spec_parse(field@) == Content::spec_parse_from(field@, k as int),
            decreases CONTENT_COUNT - k,
        {
            proof {
                Content::lemma_parse_from(field@, 0);
            }
            match Content::from_ordinal(k) {
                Some(c) => {
                    if eq_str(field, c.ident()) {
                        return Some(c);
                    }
                    k += 1;
                },
                None => {
                    return None;
                },
            }
        }
    }

    /// The pack's printed name in a language.
    pub open spec fn spec_name(self, language: GameLanguage) -> Seq<char> {
        match language {
            GameLanguage::En => match self {
                Content::Core => "Core"@,
                Content::Apocalypse => "Apocalypse"@,
                Content::Awakenings => "Awakenings"@,
                Content::DesertOfTheHellscar => "Desert of the Hellscar"@,
                Content::FallenSisters => "Fallen Sisters"@,
                Content::MonsterPack1 => "Monster Pack 1"@,
                Content::RiseOfTheUndeadDragon => "Rise of the Undead Dragon"@,
                Content::SpoilsOfWar => "Spoils of War"@,
                Content::TheRuinOfLuccanor => "The Ruin of Luccanor"@,
                Content::TheShadowWorld => "The Shadow World"@,
            },
            GameLanguage::De => match self {
                Content::Core => "Grundspiel"@,
                Content::Apocalypse => "Apocalypse*"@,
                Content::Awakenings => "Awakenings*"@,
                Content::DesertOfTheHellscar => "Wüste der Narben"@,
                Content::FallenSisters => "Fallen Sisters*"@,
                Content::MonsterPack1 => "Neue Helden & neue Monster"@,
                Content::RiseOfTheUndeadDragon => "Der untote Drache"@,
                Content::SpoilsOfWar => "Kriegsbeute"@,
                Content::TheRuinOfLuccanor => "Admiral Luccanors Verderben"@,
                Content::TheShadowWorld => "Die Schattenwelt"@,
            },
        }
    }

    /// The pack's printed name in a language.  A trailing `*` marks a name
    /// that is printed in English for want of a German one.
    pub fn name(self, game_language: GameLanguage) -> (r: &'static str)
        ensures
            r@ == self.spec_name(game_language),
    {
        match game_language {
            GameLanguage::En => match self {
                Content::Core => "Core",
                Content::Apocalypse => "Apocalypse",
                Content::Awakenings => "Awakenings",
                Content::DesertOfTheHellscar => "Desert of the Hellscar",
                Content::FallenSisters => "Fallen Sisters",
                Content::MonsterPack1 => "Monster Pack 1",
                Content::RiseOfTheUndeadDragon => "Rise of the Undead Dragon",
                Content::SpoilsOfWar => "Spoils of War",
                Content::TheRuinOfLuccanor => "The Ruin of Luccanor",
                Content::TheShadowWorld => "The Shadow World",
            },
            GameLanguage::De => match self {
                Content::Core => "Grundspiel",
                Content::Apocalypse => "Apocalypse*",
                Content::Awakenings => "Awakenings*",
                Content::DesertOfTheHellscar => "Wüste der Narben",
                Content::FallenSisters => "Fallen Sisters*",
                Content::MonsterPack1 => "Neue Helden & neue Monster",
                Content::RiseOfTheUndeadDragon => "Der untote Drache",
                Content::SpoilsOfWar => "Kriegsbeute",
                Content::TheRuinOfLuccanor => "Admiral Luccanors Verderben",
                Content::TheShadowWorld => "Die Schattenwelt",
            },
        }
    }

    /// The text by which packs are ordered in a listing: `Core` comes first
    /// whatever its name, the others go by their printed name.
    pub fn order_name(self, game_language: GameLanguage) -> (r: &'static str)
        ensures
            r@ == if self == Content::Core {
                "!first"@
            } else {
                self.spec_name(game_language)
            },
    {
        if self == Content::Core {
            "!first"
        } else {
            self.name(game_language)
        }
    }
}

/// The number of color classes.
pub const COLOR_COUNT: usize = 6;

/// A color class: the size or role category of a monster.
#[derive(Clone, Copy, Debug, PartialEq, Eq, Hash, Structural)]
pub enum Color {
    White,
    Gray,
    Black,
    Commander,
    Special,
    SpecialCommander,
}

impl Color {
    /// Whether the class is one of the two special ones, which have no
    /// printed name.
    pub open spec fn spec_is_any_special(self) -> bool {
        self == Color::Special || self == Color::SpecialCommander
    }

    /// Whether the class is one of the two special ones, which have no
    /// printed name.
    #[verifier::when_used_as_spec(spec_is_any_special)]
    pub fn is_any_special(self) -> (r: bool)
        ensures
            r == self.spec_is_any_special(),
    {
        self == Color::Special || self == Color::SpecialCommander
    }

    /// The identifier by which catalog text refers to the class.
    pub open spec fn spec_ident(self) -> Seq<char> {
        match self {
            Color::White => "White"@,
            Color::Gray => "Gray"@,
            Color::Black => "Black"@,
            Color::Commander => "Commander"@,
            Color::Special => "Special"@,
            Color::SpecialCommander => "SpecialCommander"@,
        }
    }

    /// The identifier by which catalog text refers to the class.
    pub fn ident(self) -> (r: &'static str)
        ensures
            r@ == self.spec_ident(),
    {
        match self {
            Color::White => "White",
            Color::Gray => "Gray",
            Color::Black => "Black",
            Color::Commander => "Commander",
            Color::Special => "Special",
            Color::SpecialCommander => "SpecialCommander",
        }
    }

    /// The position of the class in the declaration order, starting at 0.
    pub open spec fn spec_ordinal(self) -> int {
        match self {
            Color::White => 0,
            Color::Gray => 1,
            Color::Black => 2,
            Color::Commander => 3,
            Color::Special => 4,
            Color::SpecialCommander => 5,
        }
    }

    /// The class with a given ordinal, if there is one.
    pub open spec fn spec_from_ordinal(n: int) -> Option<Color> {
        if n == 0 {
            Some(Color::White)
        } else if n == 1 {
            Some(Color::Gray)
        } else if n == 2 {
            Some(Color::Black)
        } else if n == 3 {
            Some(Color::Commander)
        } else if n == 4 {
            Some(Color::Special)
        } else if n == 5 {
            Some(Color::SpecialCommander)
        } else {
            None
        }
    }

    /// The class with a given ordinal, if there is one.
    pub fn from_ordinal(n: u8) -> (r: Option<Color>)
        ensures
            r == Color::spec_from_ordinal(n as int),
            match r {
                Some(c) => c.spec_ordinal() == n,
                None => n >= COLOR_COUNT,
            },
    {
        match n {
            0 => Some(Color::White),
            1 => Some(Color::Gray),
            2 => Some(Color::Black),
            3 => Some(Color::Commander),
            4 => Some(Color::Special),
            5 => Some(Color::SpecialCommander),
            _ => None,
        }
    }

    /// The first class, from ordinal `k` on, whose identifier is `field`.
    pub open spec fn spec_parse_from(field: Seq<char>, k: int) -> Option<Color>
        decreases COLOR_COUNT - k,
    {
        match Color::spec_from_ordinal(k) {
            Some(c) => if c.spec_ident() == field {
                Some(c)
            } else {
                Color::spec_parse_from(field, k + 1)
            },
            None => None,
        }
    }

    /// The class that `field` names by its identifier, if it names one.
    pub open spec fn spec_parse(field: Seq<char>) -> Option<Color> {
        Color::spec_parse_from(field, 0)
    }

    /// What `spec_parse_from` finds bears the identifier, and where it finds
    /// nothing no class from ordinal `k` on bears it.
    pub proof fn lemma_parse_from(field: Seq<char>, k: int)
        requires
            0 <= k,
        ensures
            match Color::spec_parse_from(field, k) {
                Some(c) => c.spec_ident() == field,
                None => forall|c: Color|
                    c.spec_ordinal() >= k ==> (#[trigger] c.spec_ident()) != field,
            },
        decreases COLOR_COUNT - k,
    {
        if k < COLOR_COUNT {
            Color::lemma_parse_from(field, k + 1);
        }
    }

    /// The class that `field` names by its identifier, if it names one.
    pub fn parse(field: &[char]) -> (r: Option<Color>)
        ensures
            r == Color::spec_parse(field@),
            match r {
                Some(c) => c.spec_ident() == field@,
                None => forall|c: Color| c.spec_ident() != field@,
            },
    {
        let mut k: u8 = 0;
        loop
            invariant
                k <= COLOR_COUNT,
                Color::spec_parse(field@) == Color::spec_parse_from(field@, k as int),
            decreases COLOR_COUNT - k,
        {
            proof {
                Color::lemma_parse_from(field@, 0);
            }
            match Color::from_ordinal(k) {
                Some(c) => {
                    if eq_str(field, c.ident()) {
                        return Some(c);
                    }
                    k += 1;
                },
                None => {
                    return None;
                },
            }
        }
    }

    /// The printed name of the class in a language; the special classes have
    /// none.
    pub open spec fn spec_name(self, language: GameLanguage) -> Option<Seq<char>> {
        match language {
            GameLanguage::En => match self {
                Color::White => Some("White"@),
                Color::Gray => Some("Gray"@),
                Color::Black => Some("Black"@),
                Color::Commander => Some("Commander"@),
                Color::Special | Color::SpecialCommander => None,
            },
            GameLanguage::De => match self {
                Color::White => Some("Weiß"@),
                Color::Gray => Some("Grau"@),
                Color::Black => Some("Schwarz"@),
                Color::Commander => Some("Kommandant"@),
                Color::Special | Color::SpecialCommander => None,
            },
        }
    }

    /// The printed name of the class.  The special classes have none, and
    /// asking for it is a misuse that the precondition rules out.
    pub fn name(self, game_language: GameLanguage) -> (r: &'static str)
        requires
            !self.is_any_special(),
        ensures
            self.spec_name(game_language) == Some(r@),
    {
        match game_language {
            GameLanguage::En => match self {
                Color::White => "White",
                Color::Gray => "Gray",
                Color::Black => "Black",
                Color::Commander => "Commander",
                Color::Special | Color::SpecialCommander => vstd::pervasive::unreached(),
            },
            GameLanguage::De => match self {
                Color::White => "Weiß",
                Color::Gray => "Grau",
                Color::Black => "Schwarz",
                Color::Commander => "Kommandant",
                Color::Special | Color::SpecialCommander => vstd::pervasive::unreached(),
            },
        }
    }

    /// The abbreviation of the class in a language; the special classes have
    /// none.
    pub open spec fn spec_short(self, language: GameLanguage) -> Option<Seq<char>> {
        match language {
            GameLanguage::En => match self {
                Color::White => Some("WM"@),
                Color::Gray => Some("GM"@),
                Color::Black => Some("BM"@),
                Color::Commander => Some("Commander"@),
                Color::Special | Color::SpecialCommander => None,
            },
            GameLanguage::De => match self {
                Color::White => Some("WM"@),
                Color::Gray => Some("GM"@),
                Color::Black => Some("SM"@),
                Color::Commander => Some("Kommandant"@),
                Color::Special | Color::SpecialCommander => None,
            },
        }
    }

    /// The abbreviation of the class, as printed beside a monster.  The
    /// special classes have none.
    pub fn short(self, game_language: GameLanguage) -> (r: &'static str)
        requires
            !self.is_any_special(),
        ensures
            self.spec_short(game_language) == Some(r@),
    {
        match game_language {
            GameLanguage::En => match self {
                Color::White => "WM",
                Color::Gray => "GM",
                Color::Black => "BM",
                Color::Commander => "Commander",
                Color::Special | Color::SpecialCommander => vstd::pervasive::unreached(),
            },
            GameLanguage::De => match self {
                Color::White => "WM",
                Color::Gray => "GM",
                Color::Black => "SM",
                Color::Commander => "Kommandant",
                Color::Special | Color::SpecialCommander => vstd::pervasive::unreached(),
            },
        }
    }

    /// The one-letter prefix of the class in a language; the special classes
    /// have none.
    pub open spec fn spec_prefix(self, language: GameLanguage) -> Option<Seq<char>> {
        match language {
            GameLanguage::En => match self {
                Color::White => Some("W"@),
                Color::Gray => Some("G"@),
                Color::Black => Some("B"@),
                Color::Commander => Some("C"@),
                Color::Special | Color::SpecialCommander => None,
            },
            GameLanguage::De => match self {
                Color::White => Some("W"@),
                Color::Gray => Some("G"@),
                Color::Black => Some("S"@),
                Color::Commander => Some("K"@),
                Color::Special | Color::SpecialCommander => None,
            },
        }
    }

    /// The one-letter prefix of the class, as printed before a slot number.
    /// The special classes have none.
    pub fn prefix(self, game_language: GameLanguage) -> (r: &'static str)
        requires
            !self.is_any_special(),
        ensures
            self.spec_prefix(game_language) == Some(r@),
    {
        match game_language {
            GameLanguage::En => match self {
                Color::White => "W",
                Color::Gray => "G",
                Color::Black => "B",
                Color::Commander => "C",
                Color::Special | Color::SpecialCommander => vstd::pervasive::unreached(),
            },
            GameLanguage::De => match self {
                Color::White => "W",
                Color::Gray => "G",
                Color::Black => "S",
                Color::Commander => "K",
                Color::Special | Color::SpecialCommander => vstd::pervasive::unreached(),
            },
        }
    }
}

/// The number of special units.
pub const SPECIAL_COUNT: usize = 8;

/// A named unit that stands outside the regular color classes and tiers.
#[derive(Clone, Copy, Debug, PartialEq, Eq, Hash, Structural)]
pub enum Special {
    UndeadKing,
    UndeadKingsMinion,
    CommanderBrute,
    MurderousApparition,
    ManifestationOfWrath,
    DrifterApparition,
    TormentOfEnvy,
    DireExecutioner,
}

impl Special {
    /// The printed name of the unit in a language.
    pub open spec fn spec_name(self, language: GameLanguage) -> Seq<char> {
        match language {
            GameLanguage::En => match self {
                Special::UndeadKing => "Undead King"@,
                Special::UndeadKingsMinion => "Undead King's Minion"@,
                Special::CommanderBrute => "Brute"@,
                Special::MurderousApparition => "Murderous Apparition"@,
                Special::ManifestationOfWrath => "Manifestation of Wrath"@,
                Special::DrifterApparition => "Drifter Apparition"@,
                Special::TormentOfEnvy => "Torment of Envy"@,
                Special::DireExecutioner => "Dire Executioner"@,
            },
            GameLanguage::De => match self {
                Special::UndeadKing => "Untoter König"@,
                Special::UndeadKingsMinion => "Undead King's Minion"@,
                Special::CommanderBrute => "Scheusal"@,
                Special::MurderousApparition => "Mordende Erscheinung"@,
                Special::ManifestationOfWrath => "Manifestation des Zorns"@,
                Special::DrifterApparition => "Treibende Erscheinung"@,
                Special::TormentOfEnvy => "Qual der Gier"@,
                Special::DireExecutioner => "Henker des Schreckens"@,
            },
        }
    }

    /// The printed name of the unit in a language.
    pub fn name(self, game_language: GameLanguage) -> (r: &'static str)
        ensures
            r@ == self.spec_name(game_language),
    {
        match game_language {
            GameLanguage::En => match self {
                Special::UndeadKing => "Undead King",
                Special::UndeadKingsMinion => "Undead King's Minion",
                Special::CommanderBrute => "Brute",
                Special::MurderousApparition => "Murderous Apparition",
                Special::ManifestationOfWrath => "Manifestation of Wrath",
                Special::DrifterApparition => "Drifter Apparition",
                Special::TormentOfEnvy => "Torment of Envy",
                Special::DireExecutioner => "Dire Executioner",
            },
            GameLanguage::De => match self {
                Special::UndeadKing => "Untoter König",
                Special::UndeadKingsMinion => "Undead King's Minion",
                Special::CommanderBrute => "Scheusal",
                Special::MurderousApparition => "Mordende Erscheinung",
                Special::ManifestationOfWrath => "Manifestation des Zorns",
                Special::DrifterApparition => "Treibende Erscheinung",
                Special::TormentOfEnvy => "Qual der Gier",
                Special::DireExecutioner => "Henker des Schreckens",
            },
        }
    }

    /// The position of the unit in the declaration order, starting at 0.
    pub open spec fn spec_ordinal(self) -> int {
        match self {
            Special::UndeadKing => 0,
            Special::UndeadKingsMinion => 1,
            Special::CommanderBrute => 2,
            Special::MurderousApparition => 3,
            Special::ManifestationOfWrath => 4,
            Special::DrifterApparition => 5,
            Special::TormentOfEnvy => 6,
            Special::DireExecutioner => 7,
        }
    }

    /// The unit with a given ordinal, if there is one.
    pub open spec fn spec_from_ordinal(n: int) -> Option<Special> {
        if n == 0 {
            Some(Special::UndeadKing)
        } else if n == 1 {
            Some(Special::UndeadKingsMinion)
        } else if n == 2 {
            Some(Special::CommanderBrute)
        } else if n == 3 {
            Some(Special::MurderousApparition)
        } else if n == 4 {
            Some(Special::ManifestationOfWrath)
        } else if n == 5 {
            Some(Special::DrifterApparition)
        } else if n == 6 {
            Some(Special::TormentOfEnvy)
        } else if n == 7 {
            Some(Special::DireExecutioner)
        } else {
            None
        }
    }

    /// The unit with a given ordinal, if there is one.
    pub fn from_ordinal(n: u8) -> (r: Option<Special>)
        ensures
            r == Special::spec_from_ordinal(n as int),
            match r {
                Some(c) => c.spec_ordinal() == n,
                None => n >= SPECIAL_COUNT,
            },
    {
        match n {
            0 => Some(Special::UndeadKing),
            1 => Some(Special::UndeadKingsMinion),
            2 => Some(Special::CommanderBrute),
            3 => Some(Special::MurderousApparition),
            4 => Some(Special::ManifestationOfWrath),
            5 => Some(Special::DrifterApparition),
            6 => Some(Special::TormentOfEnvy),
            7 => Some(Special::DireExecutioner),
            _ => None,
        }
    }

    /// The first unit, from ordinal `k` on, whose English name is `field`.
    pub open spec fn spec_parse_from(field: Seq<char>, k: int) -> Option<Special>
        decreases SPECIAL_COUNT - k,
    {
        match Special::spec_from_ordinal(k) {
            Some(c) => if c.spec_name(GameLanguage::En) == field {
                Some(c)
            } else {
                Special::spec_parse_from(field, k + 1)
            },
            None => None,
        }
    }

    /// The unit that `field` names by its English name, if it names one.
    pub open spec fn spec_parse(field: Seq<char>) -> Option<Special> {
        Special::spec_parse_from(field, 0)
    }

    /// What `spec_parse_from` finds bears the name, and where it finds
    /// nothing no unit from ordinal `k` on bears it.
    pub proof fn lemma_parse_from(field: Seq<char>, k: int)
        requires
            0 <= k,
        ensures
            match Special::spec_parse_from(field, k) {
                Some(c) => c.spec_name(GameLanguage::En) == field,
                None => forall|c: Special|
                    c.spec_ordinal() >= k ==> (#[trigger] c.spec_name(GameLanguage::En)) != field,
            },
        decreases SPECIAL_COUNT - k,
    {
        if k < SPECIAL_COUNT {
            Special::lemma_parse_from(field, k + 1);
        }
    }

    /// The unit that `field` names by its English name, if it names one.
    pub fn parse(field: &[char]) -> (r: Option<Special>)
        ensures
            r == Special::spec_parse(field@),
            match r {
                Some(c) => c.spec_name(GameLanguage::En) == field@,
                None => forall|c: Special| c.spec_name(GameLanguage::En) != field@,
            },
    {
        let mut k: u8 = 0;
        loop
            invariant
                k <= SPECIAL_COUNT,
                Special::spec_parse(field@) == Special::spec_parse_from(field@, k as int),
            decreases SPECIAL_COUNT - k,
        {
            proof {
                Special::lemma_parse_from(field@, 0);
            }
            match Special::from_ordinal(k) {
                Some(c) => {
                    if eq_str(field, c.name(GameLanguage::En)) {
                        return Some(c);
                    }
                    k += 1;
                },
                None => {
                    return None;
                },
            }
        }
    }

    /// The English name of the catalog monster whose miniature stands for the
    /// unit on the board, if it has one.
    pub open spec fn spec_monster(self) -> Option<Seq<char>> {
        match self {
            Special::UndeadKing | Special::CommanderBrute => None,
            Special::UndeadKingsMinion => Some("Skeleton Archer"@),
            Special::MurderousApparition => Some("Shadow Vampire"@),
            Special::ManifestationOfWrath => Some("Shadow Knight"@),
            Special::TormentOfEnvy => Some("Abomination"@),
            Special::DrifterApparition | Special::DireExecutioner => Some("Executioner"@),
        }
    }

    /// The English name of the catalog monster whose miniature stands for the
    /// unit on the board, if it has one.
    pub fn monster(self) -> (r: Option<&'static str>)
        ensures
            r is Some == self.spec_monster() is Some,
            r is Some ==> r->0@ == self.spec_monster()->0,
    {
        match self {
            Special::UndeadKing | Special::CommanderBrute => None,
            Special::UndeadKingsMinion => Some("Skeleton Archer"),
            Special::MurderousApparition => Some("Shadow Vampire"),
            Special::ManifestationOfWrath => Some("Shadow Knight"),
            Special::TormentOfEnvy => Some("Abomination"),
            Special::DrifterApparition | Special::DireExecutioner => Some("Executioner"),
        }
    }

    /// The color class that the unit forces on a slot bound to it, if any:
    /// the two units that lead a warband count as special commanders.
    pub open spec fn spec_color(self) -> Option<Color> {
        match self {
            Special::UndeadKing | Special::CommanderBrute => Some(Color::SpecialCommander),
            _ => None,
        }
    }

    /// The color class that the unit forces on a slot bound to it, if any.
    #[verifier::when_used_as_spec(spec_color)]
    pub fn color(self) -> (r: Option<Color>)
        ensures
            r == self.spec_color(),
    {
        match self {
            Special::UndeadKing | Special::CommanderBrute => Some(Color::SpecialCommander),
            _ => None,
        }
    }
}

/// A level tier: the difficulty rank of a monster instance, or the special
/// unit that a slot outside the ranks stands for.
#[derive(Clone, Copy, Debug, PartialEq, Eq, Hash, Structural)]
pub enum Level {
    Rookie,
    Fighter,
    Veteran,
    Champion,
    Special(Option<Special>),
}

impl Level {
    /// The two-letter code of the tier.
    pub open spec fn spec_id(self) -> Seq<char> {
        match self {
            Level::Rookie => "Ro"@,
            Level::Fighter => "Fi"@,
            Level::Veteran => "Ve"@,
            Level::Champion => "Ch"@,
            Level::Special(_) => "Sp"@,
        }
    }

    /// The two-letter code of the tier.
    pub fn id(self) -> (r: &'static str)
        ensures
            r@ == self.spec_id(),
    {
        match self {
            Level::Rookie => "Ro",
            Level::Fighter => "Fi",
            Level::Veteran => "Ve",
            Level::Champion => "Ch",
            Level::Special(_) => "Sp",
        }
    }

    /// The printed name of the tier in a language.  A special tier prints
    /// the name of its unit, or nothing where it names none.
    pub open spec fn spec_name(self, language: GameLanguage) -> Seq<char> {
        match self {
            Level::Special(Some(s)) => s.spec_name(language),
            Level::Special(None) => ""@,
            _ => match language {
                GameLanguage::En => match self {
                    Level::Rookie => "Rookie"@,
                    Level::Fighter => "Fighter"@,
                    Level::Veteran => "Veteran"@,
                    _ => "Champion"@,
                },
                GameLanguage::De => match self {
                    Level::Rookie => "Novize"@,
                    Level::Fighter => "Kämpfer"@,
                    Level::Veteran => "Veteran"@,
                    _ => "Meister"@,
                },
            },
        }
    }

    /// The printed name of the tier in a language.
    pub fn name(self, game_language: GameLanguage) -> (r: &'static str)
        ensures
            r@ == self.spec_name(game_language),
    {
        match self {
            Level::Special(Some(s)) => s.name(game_language),
            Level::Special(None) => "",
            _ => match game_language {
                GameLanguage::En => match self {
                    Level::Rookie => "Rookie",
                    Level::Fighter => "Fighter",
                    Level::Veteran => "Veteran",
                    _ => "Champion",
                },
                GameLanguage::De => match self {
                    Level::Rookie => "Novize",
                    Level::Fighter => "Kämpfer",
                    Level::Veteran => "Veteran",
                    _ => "Meister",
                },
            },
        }
    }
}

/// A player-count number: a slot marked with it is used from that many
/// players on.
#[derive(Clone, Copy, Debug, PartialEq, Eq, Hash, Structural)]
pub enum Number {
    One,
    Two,
    Three,
    Four,
    Five,
}

impl Number {
    /// The number as an integer, 1 to 5.
    pub open spec fn spec_value(self) -> int {
        match self {
            Number::One => 1,
            Number::Two => 2,
            Number::Three => 3,
            Number::Four => 4,
            Number::Five => 5,
        }
    }

    /// The number as an integer, 1 to 5.
    pub fn value(self) -> (r: u8)
        ensures
            r == self.spec_value(),
    {
        match self {
            Number::One => 1,
            Number::Two => 2,
            Number::Three => 3,
            Number::Four => 4,
            Number::Five => 5,
        }
    }

    /// The number that a digit character writes, if it is one of 1 to 5.
    pub open spec fn spec_from_digit(c: char) -> Option<Number> {
        if c == '1' {
            Some(Number::One)
        } else if c == '2' {
            Some(Number::Two)
        } else if c == '3' {
            Some(Number::Three)
        } else if c == '4' {
            Some(Number::Four)
        } else if c == '5' {
            Some(Number::Five)
        } else {
            None
        }
    }

    /// The number that a digit character writes, if it is one of 1 to 5.
    #[verifier::when_used_as_spec(spec_from_digit)]
    pub fn from_digit(c: char) -> (r: Option<Number>)
        ensures
            r == Number::spec_from_digit(c),
    {
        if c == '1' {
            Some(Number::One)
        } else if c == '2' {
            Some(Number::Two)
        } else if c == '3' {
            Some(Number::Three)
        } else if c == '4' {
            Some(Number::Four)
        } else if c == '5' {
            Some(Number::Five)
        } else {
            None
        }
    }
}

} // verus!
