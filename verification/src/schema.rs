//! The upstream catalog's closed vocabularies, as plain enums. Each value
//! knows the code it is written as on the wire; the resolution logic reads
//! a handful of them (the meld layout and the meld-result component), and
//! callers that take the catalog's full records apart get the rest.

use vstd::prelude::*;

verus! {

/// The five colors of the game's color wheel.
#[derive(Debug, PartialEq, Eq, Clone, Copy)]
pub enum Color {
    White,
    Blue,
    Black,
    Red,
    Green,
}

impl Color {
    /// The code this value is written as on the wire.
    pub open spec fn code_spec(self) -> Seq<char> {
        match self {
            Color::White => "W"@,
            Color::Blue => "U"@,
            Color::Black => "B"@,
            Color::Red => "R"@,
            Color::Green => "G"@,
        }
    }

    /// Writes this value as its wire code.
    pub fn code(&self) -> (r: &'static str)
        ensures
            r@ == self.code_spec(),
    {
        match self {
            Color::White => "W",
            Color::Blue => "U",
            Color::Black => "B",
            Color::Red => "R",
            Color::Green => "G",
        }
    }
}

/// The kinds of mana a card can produce.
#[derive(Debug, PartialEq, Eq, Clone, Copy)]
pub enum ProducedMana {
    White,
    Blue,
    Black,
    Red,
    Green,
    Colorless,
    Snow,
}

impl ProducedMana {
    /// The code this value is written as on the wire.
    pub open spec fn code_spec(self) -> Seq<char> {
        match self {
            ProducedMana::White => "W"@,
            ProducedMana::Blue => "U"@,
            ProducedMana::Black => "B"@,
            ProducedMana::Red => "R"@,
            ProducedMana::Green => "G"@,
            ProducedMana::Colorless => "C"@,
            ProducedMana::Snow => "S"@,
        }
    }

    /// Writes this value as its wire code.
    pub fn code(&self) -> (r: &'static str)
        ensures
            r@ == self.code_spec(),
    {
        match self {
            ProducedMana::White => "W",
            ProducedMana::Blue => "U",
            ProducedMana::Black => "B",
            ProducedMana::Red => "R",
            ProducedMana::Green => "G",
            ProducedMana::Colorless => "C",
            ProducedMana::Snow => "S",
        }
    }
}

/// The printing languages the catalog serves.
#[derive(Debug, PartialEq, Eq, Clone, Copy)]
pub enum Language {
    En,
    Es,
    Fr,
    De,
    It,
    Pt,
    Ja,
    Ko,
    Ru,
    Zhs,
    Zht,
    He,
    La,
    Grc,
    Ar,
    Sa,
    Ph,
}

impl Language {
    /// The code this value is written as on the wire.
    pub open spec fn code_spec(self) -> Seq<char> {
        match self {
            Language::En => "en"@,
            Language::Es => "es"@,
            Language::Fr => "fr"@,
            Language::De => "de"@,
            Language::It => "it"@,
            Language::Pt => "pt"@,
            Language::Ja => "ja"@,
            Language::Ko => "ko"@,
            Language::Ru => "ru"@,
            Language::Zhs => "zhs"@,
            Language::Zht => "zht"@,
            Language::He => "he"@,
            Language::La => "la"@,
            Language::Grc => "grc"@,
            Language::Ar => "ar"@,
            Language::Sa => "sa"@,
            Language::Ph => "ph"@,
        }
    }

    /// Writes this value as its wire code.
    pub fn code(&self) -> (r: &'static str)
        ensures
            r@ == self.code_spec(),
    {
        match self {
            Language::En => "en",
            Language::Es => "es",
            Language::Fr => "fr",
            Language::De => "de",
            Language::It => "it",
            Language::Pt => "pt",
            Language::Ja => "ja",
            Language::Ko => "ko",
            Language::Ru => "ru",
            Language::Zhs => "zhs",
            Language::Zht => "zht",
            Language::He => "he",
            Language::La => "la",
            Language::Grc => "grc",
            Language::Ar => "ar",
            Language::Sa => "sa",
            Language::Ph => "ph",
        }
    }
}

/// The card frame generations.
#[derive(Debug, PartialEq, Eq, Clone, Copy)]
pub enum FrameType {
    Year1993,
    Year1997,
    Year2003,
    Year2015,
    Future,
}

impl FrameType {
    /// The code this value is written as on the wire.
    pub open spec fn code_spec(self) -> Seq<char> {
        match self {
            FrameType::Year1993 => "1993"@,
            FrameType::Year1997 => "1997"@,
            FrameType::Year2003 => "2003"@,
            FrameType::Year2015 => "2015"@,
            FrameType::Future => "future"@,
        }
    }

    /// Writes this value as its wire code.
    pub fn code(&self) -> (r: &'static str)
        ensures
            r@ == self.code_spec(),
    {
        match self {
            FrameType::Year1993 => "1993",
            FrameType::Year1997 => "1997",
            FrameType::Year2003 => "2003",
            FrameType::Year2015 => "2015",
            FrameType::Future => "future",
        }
    }
}

/// The physical layouts a printing can have.
#[derive(Debug, PartialEq, Eq, Clone, Copy)]
pub enum FrameLayout {
    Normal,
    Flip,
    Split,
    Transform,
    ModalDfc,
    Meld,
    Leveler,
    Class,
    Saga,
    Adventure,
    Planar,
    Scheme,
    Vanguard,
    Token,
    DoubleFacedToken,
    Emblem,
    Augment,
    Host,
    ArtSeries,
    ReversibleCard,
}

impl FrameLayout {
    /// The code this value is written as on the wire.
    pub open spec fn code_spec(self) -> Seq<char> {
        match self {
            FrameLayout::Normal => "normal"@,
            FrameLayout::Flip => "flip"@,
            FrameLayout::Split => "split"@,
            FrameLayout::Transform => "transform"@,
            FrameLayout::ModalDfc => "modal_dfc"@,
            FrameLayout::Meld => "meld"@,
            FrameLayout::Leveler => "leveler"@,
            FrameLayout::Class => "class"@,
            FrameLayout::Saga => "saga"@,
            FrameLayout::Adventure => "adventure"@,
            FrameLayout::Planar => "planar"@,
            FrameLayout::Scheme => "scheme"@,
            FrameLayout::Vanguard => "vanguard"@,
            FrameLayout::Token => "token"@,
            FrameLayout::DoubleFacedToken => "double_faced_token"@,
            FrameLayout::Emblem => "emblem"@,
            FrameLayout::Augment => "augment"@,
            FrameLayout::Host => "host"@,
            FrameLayout::ArtSeries => "art_series"@,
            FrameLayout::ReversibleCard => "reversible_card"@,
        }
    }

    /// Writes this value as its wire code.
    pub fn code(&self) -> (r: &'static str)
        ensures
            r@ == self.code_spec(),
    {
        match self {
            FrameLayout::Normal => "normal",
            FrameLayout::Flip => "flip",
            FrameLayout::Split => "split",
            FrameLayout::Transform => "transform",
            FrameLayout::ModalDfc => "modal_dfc",
            FrameLayout::Meld => "meld",
            FrameLayout::Leveler => "leveler",
            FrameLayout::Class => "class",
            FrameLayout::Saga => "saga",
            FrameLayout::Adventure => "adventure",
            FrameLayout::Planar => "planar",
            FrameLayout::Scheme => "scheme",
            FrameLayout::Vanguard => "vanguard",
            FrameLayout::Token => "token",
            FrameLayout::DoubleFacedToken => "double_faced_token",
            FrameLayout::Emblem => "emblem",
            FrameLayout::Augment => "augment",
            FrameLayout::Host => "host",
            FrameLayout::ArtSeries => "art_series",
            FrameLayout::ReversibleCard => "reversible_card",
        }
    }
}

/// How good the catalog's scan of a printing is.
#[derive(Debug, PartialEq, Eq, Clone, Copy)]
pub enum ImageStatus {
    Missing,
    Placeholder,
    Lowres,
    HighresScan,
}

impl ImageStatus {
    /// The code this value is written as on the wire.
    pub open spec fn code_spec(self) -> Seq<char> {
        match self {
            ImageStatus::Missing => "missing"@,
            ImageStatus::Placeholder => "placeholder"@,
            ImageStatus::Lowres => "lowres"@,
            ImageStatus::HighresScan => "highres_scan"@,
        }
    }

    /// Writes this value as its wire code.
    pub fn code(&self) -> (r: &'static str)
        ensures
            r@ == self.code_spec(),
    {
        match self {
            ImageStatus::Missing => "missing",
            ImageStatus::Placeholder => "placeholder",
            ImageStatus::Lowres => "lowres",
            ImageStatus::HighresScan => "highres_scan",
        }
    }
}

/// The kinds of objects the catalog's answers are made of.
#[derive(Debug, PartialEq, Eq, Clone, Copy)]
pub enum Object {
    Card,
    RelatedCard,
    CardFace,
}

impl Object {
    /// The code this value is written as on the wire.
    pub open spec fn code_spec(self) -> Seq<char> {
        match self {
            Object::Card => "card"@,
            Object::RelatedCard => "related_card"@,
            Object::CardFace => "card_face"@,
        }
    }

    /// Writes this value as its wire code.
    pub fn code(&self) -> (r: &'static str)
        ensures
            r@ == self.code_spec(),
    {
        match self {
            Object::Card => "card",
            Object::RelatedCard => "related_card",
            Object::CardFace => "card_face",
        }
    }
}

/// The role a related card plays for the card that references it; a meld back image comes from the reference whose role is the meld result.
#[derive(Debug, PartialEq, Eq, Clone, Copy)]
pub enum Component {
    Token,
    MeldPart,
    MeldResult,
    CompoPiece,
}

impl Component {
    /// The code this value is written as on the wire.
    pub open spec fn code_spec(self) -> Seq<char> {
        match self {
            Component::Token => "token"@,
            Component::MeldPart => "meld_part"@,
            Component::MeldResult => "meld_result"@,
            Component::CompoPiece => "combo_piece"@,
        }
    }

    /// Writes this value as its wire code.
    pub fn code(&self) -> (r: &'static str)
        ensures
            r@ == self.code_spec(),
    {
        match self {
            Component::Token => "token",
            Component::MeldPart => "meld_part",
            Component::MeldResult => "meld_result",
            Component::CompoPiece => "combo_piece",
        }
    }
}

/// The rarity grades of a printing.
#[derive(Debug, PartialEq, Eq, Clone, Copy)]
pub enum Rarity {
    Common,
    Uncommon,
    Rare,
    Special,
    Mythic,
    Bonus,
}

impl Rarity {
    /// The code this value is written as on the wire.
    pub open spec fn code_spec(self) -> Seq<char> {
        match self {
            Rarity::Common => "common"@,
            Rarity::Uncommon => "uncommon"@,
            Rarity::Rare => "rare"@,
            Rarity::Special => "special"@,
            Rarity::Mythic => "mythic"@,
            Rarity::Bonus => "bonus"@,
        }
    }

    /// Writes this value as its wire code.
    pub fn code(&self) -> (r: &'static str)
        ensures
            r@ == self.code_spec(),
    {
        match self {
            Rarity::Common => "common",
            Rarity::Uncommon => "uncommon",
            Rarity::Rare => "rare",
            Rarity::Special => "special",
            Rarity::Mythic => "mythic",
            Rarity::Bonus => "bonus",
        }
    }
}

/// The image renditions the catalog serves; resolution uses the border crop.
#[derive(Debug, PartialEq, Eq, Hash, Clone, Copy)]
pub enum ImageFormat {
    Png,
    BorderCrop,
    ArtCrop,
    Large,
    Normal,
    Small,
}

impl ImageFormat {
    /// The code this value is written as on the wire.
    pub open spec fn code_spec(self) -> Seq<char> {
        match self {
            ImageFormat::Png => "png"@,
            ImageFormat::BorderCrop => "border_crop"@,
            ImageFormat::ArtCrop => "art_crop"@,
            ImageFormat::Large => "large"@,
            ImageFormat::Normal => "normal"@,
            ImageFormat::Small => "small"@,
        }
    }

    /// Writes this value as its wire code.
    pub fn code(&self) -> (r: &'static str)
        ensures
            r@ == self.code_spec(),
    {
        match self {
            ImageFormat::Png => "png",
            ImageFormat::BorderCrop => "border_crop",
            ImageFormat::ArtCrop => "art_crop",
            ImageFormat::Large => "large",
            ImageFormat::Normal => "normal",
            ImageFormat::Small => "small",
        }
    }
}

/// Whether a card may be played in a format.
#[derive(Debug, PartialEq, Eq, Clone, Copy)]
pub enum Legality {
    NotLegal,
    Legal,
    Restricted,
    Banned,
}

impl Legality {
    /// The code this value is written as on the wire.
    pub open spec fn code_spec(self) -> Seq<char> {
        match self {
            Legality::NotLegal => "not_legal"@,
            Legality::Legal => "legal"@,
            Legality::Restricted => "restricted"@,
            Legality::Banned => "banned"@,
        }
    }

    /// Writes this value as its wire code.
    pub fn code(&self) -> (r: &'static str)
        ensures
            r@ == self.code_spec(),
    {
        match self {
            Legality::NotLegal => "not_legal",
            Legality::Legal => "legal",
            Legality::Restricted => "restricted",
            Legality::Banned => "banned",
        }
    }
}

/// The play formats the catalog tracks legality for.
#[derive(Debug, PartialEq, Eq, Hash, Clone, Copy)]
pub enum Format {
    Standard,
    Future,
    Historic,
    Pioneer,
    Modern,
    Legacy,
    Pauper,
    Vintage,
    Penny,
    Commander,
    Brawl,
    Duel,
    Oldschool,
    Gladiator,
    HistoricBrawl,
    Alchemy,
    PauperCommander,
    Premodern,
}

impl Format {
    /// The code this value is written as on the wire.
    pub open spec fn code_spec(self) -> Seq<char> {
        match self {
            Format::Standard => "standard"@,
            Format::Future => "future"@,
            Format::Historic => "historic"@,
            Format::Pioneer => "pioneer"@,
            Format::Modern => "modern"@,
            Format::Legacy => "legacy"@,
            Format::Pauper => "pauper"@,
            Format::Vintage => "vintage"@,
            Format::Penny => "penny"@,
            Format::Commander => "commander"@,
            Format::Brawl => "brawl"@,
            Format::Duel => "duel"@,
            Format::Oldschool => "oldschool"@,
            Format::Gladiator => "gladiator"@,
            Format::HistoricBrawl => "historicbrawl"@,
            Format::Alchemy => "alchemy"@,
            Format::PauperCommander => "paupercommander"@,
            Format::Premodern => "premodern"@,
        }
    }

    /// Writes this value as its wire code.
    pub fn code(&self) -> (r: &'static str)
        ensures
            r@ == self.code_spec(),
    {
        match self {
            Format::Standard => "standard",
            Format::Future => "future",
            Format::Historic => "historic",
            Format::Pioneer => "pioneer",
            Format::Modern => "modern",
            Format::Legacy => "legacy",
            Format::Pauper => "pauper",
            Format::Vintage => "vintage",
            Format::Penny => "penny",
            Format::Commander => "commander",
            Format::Brawl => "brawl",
            Format::Duel => "duel",
            Format::Oldschool => "oldschool",
            Format::Gladiator => "gladiator",
            Format::HistoricBrawl => "historicbrawl",
            Format::Alchemy => "alchemy",
            Format::PauperCommander => "paupercommander",
            Format::Premodern => "premodern",
        }
    }
}

/// The security stamps printed on some cards.
#[derive(Debug, PartialEq, Eq, Clone, Copy)]
pub enum SecurityStamp {
    Oval,
    Triangle,
    Acorn,
    Arena,
}

impl SecurityStamp {
    /// The code this value is written as on the wire.
    pub open spec fn code_spec(self) -> Seq<char> {
        match self {
            SecurityStamp::Oval => "oval"@,
            SecurityStamp::Triangle => "triangle"@,
            SecurityStamp::Acorn => "acorn"@,
            SecurityStamp::Arena => "arena"@,
        }
    }

    /// Writes this value as its wire code.
    pub fn code(&self) -> (r: &'static str)
        ensures
            r@ == self.code_spec(),
    {
        match self {
            SecurityStamp::Oval => "oval",
            SecurityStamp::Triangle => "triangle",
            SecurityStamp::Acorn => "acorn",
            SecurityStamp::Arena => "arena",
        }
    }
}

/// The platforms a printing exists on.
#[derive(Debug, PartialEq, Eq, Clone, Copy)]
pub enum Game {
    Paper,
    Arena,
    Mtgo,
    Astral,
    Sega,
}

impl Game {
    /// The code this value is written as on the wire.
    pub open spec fn code_spec(self) -> Seq<char> {
        match self {
            Game::Paper => "paper"@,
            Game::Arena => "arena"@,
            Game::Mtgo => "mtgo"@,
            Game::Astral => "astral"@,
            Game::Sega => "sega"@,
        }
    }

    /// Writes this value as its wire code.
    pub fn code(&self) -> (r: &'static str)
        ensures
            r@ == self.code_spec(),
    {
        match self {
            Game::Paper => "paper",
            Game::Arena => "arena",
            Game::Mtgo => "mtgo",
            Game::Astral => "astral",
            Game::Sega => "sega",
        }
    }
}

/// The border colors a printing can have.
#[derive(Debug, PartialEq, Eq, Clone, Copy)]
pub enum BorderColor {
    Black,
    White,
    Borderless,
    Silver,
    Gold,
}

impl BorderColor {
    /// The code this value is written as on the wire.
    pub open spec fn code_spec(self) -> Seq<char> {
        match self {
            BorderColor::Black => "black"@,
            BorderColor::White => "white"@,
            BorderColor::Borderless => "borderless"@,
            BorderColor::Silver => "silver"@,
            BorderColor::Gold => "gold"@,
        }
    }

    /// Writes this value as its wire code.
    pub fn code(&self) -> (r: &'static str)
        ensures
            r@ == self.code_spec(),
    {
        match self {
            BorderColor::Black => "black",
            BorderColor::White => "white",
            BorderColor::Borderless => "borderless",
            BorderColor::Silver => "silver",
            BorderColor::Gold => "gold",
        }
    }
}

/// The finishes a printing can come in.
#[derive(Debug, PartialEq, Eq, Clone, Copy)]
pub enum Finish {
    NonFoil,
    Foil,
    Etched,
    Glossy,
}

impl Finish {
    /// The code this value is written as on the wire.
    pub open spec fn code_spec(self) -> Seq<char> {
        match self {
            Finish::NonFoil => "nonfoil"@,
            Finish::Foil => "foil"@,
            Finish::Etched => "etched"@,
            Finish::Glossy => "glossy"@,
        }
    }

    /// Writes this value as its wire code.
    pub fn code(&self) -> (r: &'static str)
        ensures
            r@ == self.code_spec(),
    {
        match self {
            Finish::NonFoil => "nonfoil",
            Finish::Foil => "foil",
            Finish::Etched => "etched",
            Finish::Glossy => "glossy",
        }
    }
}

/// The decorative frame effects a printing can carry.
#[derive(Debug, PartialEq, Eq, Clone, Copy)]
pub enum FrameEffect {
    SunMoonDfc,
    MoonEldraziDfc,
    CompassLandDfc,
    OriginPwDfc,
    WaxingAndWaningMoonDfc,
    Legendary,
    NyxTouched,
    Devoid,
    Tombstone,
    Snow,
    Lesson,
    Draft,
    Inverted,
    Colorshifted,
    Miracle,
    Companion,
    ExtendedArt,
    Booster,
    Showcase,
    Fullart,
    Etched,
}

impl FrameEffect {
    /// The code this value is written as on the wire.
    pub open spec fn code_spec(self) -> Seq<char> {
        match self {
            FrameEffect::SunMoonDfc => "sunmoondfc"@,
            FrameEffect::MoonEldraziDfc => "mooneldrazidfc"@,
            FrameEffect::CompassLandDfc => "compasslanddfc"@,
            FrameEffect::OriginPwDfc => "originpwdfc"@,
            FrameEffect::WaxingAndWaningMoonDfc => "waxingandwaningmoondfc"@,
            FrameEffect::Legendary => "legendary"@,
            FrameEffect::NyxTouched => "nyxtouched"@,
            FrameEffect::Devoid => "devoid"@,
            FrameEffect::Tombstone => "tombstone"@,
            FrameEffect::Snow => "snow"@,
            FrameEffect::Lesson => "lesson"@,
            FrameEffect::Draft => "draft"@,
            FrameEffect::Inverted => "inverted"@,
            FrameEffect::Colorshifted => "colorshifted"@,
            FrameEffect::Miracle => "miracle"@,
            FrameEffect::Companion => "companion"@,
            FrameEffect::ExtendedArt => "extendedart"@,
            FrameEffect::Booster => "booster"@,
            FrameEffect::Showcase => "showcase"@,
            FrameEffect::Fullart => "fullart"@,
            FrameEffect::Etched => "etched"@,
        }
    }

    /// Writes this value as its wire code.
    pub fn code(&self) -> (r: &'static str)
        ensures
            r@ == self.code_spec(),
    {
        match self {
            FrameEffect::SunMoonDfc => "sunmoondfc",
            FrameEffect::MoonEldraziDfc => "mooneldrazidfc",
            FrameEffect::CompassLandDfc => "compasslanddfc",
            FrameEffect::OriginPwDfc => "originpwdfc",
            FrameEffect::WaxingAndWaningMoonDfc => "waxingandwaningmoondfc",
            FrameEffect::Legendary => "legendary",
            FrameEffect::NyxTouched => "nyxtouched",
            FrameEffect::Devoid => "devoid",
            FrameEffect::Tombstone => "tombstone",
            FrameEffect::Snow => "snow",
            FrameEffect::Lesson => "lesson",
            FrameEffect::Draft => "draft",
            FrameEffect::Inverted => "inverted",
            FrameEffect::Colorshifted => "colorshifted",
            FrameEffect::Miracle => "miracle",
            FrameEffect::Companion => "companion",
            FrameEffect::ExtendedArt => "extendedart",
            FrameEffect::Booster => "booster",
            FrameEffect::Showcase => "showcase",
            FrameEffect::Fullart => "fullart",
            FrameEffect::Etched => "etched",
        }
    }
}

/// Where and when a printing was previewed.
#[derive(Debug, PartialEq, Eq)]
pub struct Preview {
    pub previewed_at: String,
    pub source_uri: String,
    pub source: String,
}

} // verus!
