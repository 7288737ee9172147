//! Cards and what the board shows for each of them.

use vstd::prelude::*;

verus! {

/// How a card currently lies on the board.
#[derive(Clone, Copy, Debug, PartialEq, Eq, Structural)]
pub enum CardState {
    /// Face down; a click turns it over.
    Hidden,
    /// Face up as one of the player's current picks.
    Revealed,
    /// Face up for good, as half of a found pair.
    Matched,
}

/// One cell of the board.
#[derive(Clone, Copy, Debug, PartialEq, Eq, Structural)]
pub struct Card {
    pub symbol: char,
    pub state: CardState,
}

/// The glyph drawn for a card that lies face down (a playing-card back).
pub const FACE_DOWN: char = '\u{1F3B4}';

/// What the board shows for `card`: the back of a hidden card, the symbol of
/// any other.
pub open spec fn face_of(card: Card) -> char {
    if card.state == CardState::Hidden {
        FACE_DOWN
    } else {
        card.symbol
    }
}

/// The card that carries `symbol` and lies face down.
pub open spec fn face_down(symbol: char) -> Card {
    Card { symbol, state: CardState::Hidden }
}

impl Card {
    /// A face-down card carrying `symbol`.
    pub fn hidden(symbol: char) -> (card: Card)
        ensures
            card == face_down(symbol),
    {
        Card { symbol, state: CardState::Hidden }
    }

    /// The glyph to draw for this card.
    pub fn face(&self) -> (glyph: char)
        ensures
            glyph == face_of(*self),
    {
        match self.state {
            CardState::Hidden => FACE_DOWN,
            CardState::Revealed | CardState::Matched => self.symbol,
        }
    }
}

} // verus!
