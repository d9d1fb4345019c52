//! Resolves free-form card decklists against a card catalog: parses decklist
//! lines, fuzzily matches card names per face, lazily stores printings per
//! canonical name, rate-limits upstream calls by reservation, and keeps a
//! time-stamped image cache.

pub mod cache;
pub mod collections;
pub mod decklist;
pub mod limiter;
pub mod lookup;
pub mod schema;
pub mod scryfall;
pub mod store;
pub mod text;

pub use crate::cache::{CachedImageResponse, ScryfallCache};
pub use crate::collections::StringSet;
pub use crate::decklist::{parse_decklist, parse_line, DecklistEntry, ParsedDecklistLine};
pub use crate::limiter::RateLimiter;
pub use crate::lookup::{CardNameLookup, NameLookupResult, NameMatchMode};
pub use crate::scryfall::{
    encode_card_name, get_minimal_scryfall_languages, insert_scryfall_object, CardPrintings,
    MinimalScryfallObject, PrintingTable, RawCard, RawFace, RawRelated, ScryfallCardNames,
};
pub use crate::store::{
    image_lines_from_decklist, BacksideMode, CardData, ImageLine,
};

use vstd::prelude::*;

verus! {

/// Pixel width of a single card image as served by the upstream catalog.
pub const IMAGE_WIDTH: u32 = 480;

/// Pixel height of a single card image as served by the upstream catalog.
pub const IMAGE_HEIGHT: u32 = 680;

/// Width of a composed 3x3 page of card images.
pub const PAGE_WIDTH: u32 = 3 * IMAGE_WIDTH;

/// Height of a composed 3x3 page of card images.
pub const PAGE_HEIGHT: u32 = 3 * IMAGE_HEIGHT;

/// Minimum interval between two outgoing upstream calls, in milliseconds.
pub const SCRYFALL_COOLDOWN_MS: u64 = 100;

} // verus!
