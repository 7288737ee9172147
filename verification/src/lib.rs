//! A memory-matching card game as a plain state object.
//!
//! The board is a row of cards that lie face down. A player turns two of them
//! face up; after a short pause the pair either stays up for good (the symbols
//! agree) or is turned back over. The session is driven frame by frame by
//! whatever window or test harness owns it, and never draws or waits itself.

pub mod card;
pub mod deck;
pub mod game;
pub mod layout;
pub mod session;
pub mod theorems;

pub use card::{face_down, face_of, Card, CardState, FACE_DOWN};
pub use deck::{
    is_paired_deck, is_rearrangement, pair_up, paired, shuffled_deck, standard_deck,
    standard_symbols, PAIRS,
};
pub use game::{position, positions, MemoryGameApp, RenderInstructions};
pub use layout::{ends_row, COLUMNS};
pub use session::{Event, Session, COOLDOWN_MICROS};
