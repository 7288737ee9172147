//! The rules of the game, written as a mathematical model.
//!
//! A [`Session`] is the whole state of one game. Every rule is a function from
//! a session to the session that follows; the executable game in
//! [`crate::game`] is proved to follow them step by step.

use crate::card::{face_down, face_of, Card, CardState};
use vstd::prelude::*;

verus! {

/// How long a second pick stays on show before the pair is settled: one
/// second, counted in microseconds.
pub const COOLDOWN_MICROS: u64 = 1_000_000;

/// The state of one game.
pub struct Session {
    /// The board, in display order.
    pub cards: Seq<Card>,
    /// Position of the first card of the pair being picked, if any.
    pub first: Option<int>,
    /// Position of the second card of that pair, if any.
    pub second: Option<int>,
    /// Number of pairs the player has turned over so far.
    pub moves: nat,
    /// Microseconds left until the pending pair is settled; zero when no pair
    /// is pending.
    pub cooldown: nat,
}

/// One thing that can happen to a game.
pub enum Event {
    /// The tile at this position was clicked.
    Click(int),
    /// This many microseconds passed.
    Tick(nat),
    /// A whole frame: the time that passed and the tiles clicked during it.
    Frame(nat, Seq<int>),
}

/// `cards` with the card at `index` lying as `state` says.
pub open spec fn turned(cards: Seq<Card>, index: int, state: CardState) -> Seq<Card> {
    cards.update(index, Card { symbol: cards[index].symbol, state })
}

impl Session {
    /// A new game on the given symbols: every card face down, nothing picked,
    /// no move made, no pause running.
    pub open spec fn fresh(symbols: Seq<char>) -> Session {
        Session {
            cards: Seq::new(symbols.len(), |i: int| face_down(symbols[i])),
            first: None,
            second: None,
            moves: 0,
            cooldown: 0,
        }
    }

    /// The symbols on the board, in display order.
    pub open spec fn symbols(self) -> Seq<char> {
        Seq::new(self.cards.len(), |i: int| self.cards[i].symbol)
    }

    /// Whether `index` is one of the current picks.
    pub open spec fn is_picked(self, index: int) -> bool {
        self.first == Some(index) || self.second == Some(index)
    }

    /// The invariant of every game in play.
    ///
    /// Picks name cards on the board; a second pick comes only after a
    /// different first one; the pause runs exactly while two cards are picked
    /// and never exceeds its full length; and the cards lying `Revealed` are
    /// exactly the picks.
    pub open spec fn wf(self) -> bool {
        &&& self.first matches Some(a) ==> 0 <= a < self.cards.len()
        &&& self.second matches Some(b) ==> {
            &&& 0 <= b < self.cards.len()
            &&& self.first is Some
            &&& self.first != Some(b)
        }
        &&& self.cooldown > 0 <==> self.second is Some
        &&& self.cooldown <= COOLDOWN_MICROS
        &&& forall|i: int|
            0 <= i < self.cards.len() ==> ((#[trigger] self.cards[i]).state == CardState::Revealed
                <==> self.is_picked(i))
    }

    /// Whether every card has been matched: the game is won and over.
    pub open spec fn all_matched(self) -> bool {
        forall|i: int|
            0 <= i < self.cards.len() ==> (#[trigger] self.cards[i]).state == CardState::Matched
    }

    /// The positions of the cards that lie `Revealed`.
    pub open spec fn revealed(self) -> Set<int> {
        Set::new(|i: int| 0 <= i < self.cards.len() && self.cards[i].state == CardState::Revealed)
    }

    /// Whether a click on `index` turns a card over: no pause is running, no
    /// pair is waiting to be settled, and `index` names a face-down card.
    pub open spec fn accepts_click(self, index: int) -> bool {
        &&& self.cooldown == 0
        &&& self.second is None
        &&& 0 <= index < self.cards.len()
        &&& self.cards[index].state == CardState::Hidden
    }

    /// The session after a click on `index`.
    ///
    /// A click that is not accepted changes nothing. An accepted one turns the
    /// card face up; it becomes the first pick if there is none, and otherwise
    /// the second, which counts as a move and starts the pause.
    pub open spec fn click(self, index: int) -> Session {
        if !self.accepts_click(index) {
            self
        } else if self.first is None {
            Session {
                cards: turned(self.cards, index, CardState::Revealed),
                first: Some(index),
                ..self
            }
        } else {
            Session {
                cards: turned(self.cards, index, CardState::Revealed),
                second: Some(index),
                moves: self.moves + 1,
                cooldown: COOLDOWN_MICROS as nat,
                ..self
            }
        }
    }

    /// The session after the clicks in `clicks`, taken in order.
    pub open spec fn click_each(self, clicks: Seq<int>) -> Session
        decreases clicks.len(),
    {
        if clicks.len() == 0 {
            self
        } else {
            self.click_each(clicks.drop_last()).click(clicks.last())
        }
    }

    /// The session once the pause is over: a picked pair with equal symbols is
    /// matched, one with different symbols is turned face down again, and the
    /// picks are cleared.
    pub open spec fn settle(self) -> Session {
        match (self.first, self.second) {
            (Some(a), Some(b)) => {
                let state = if self.cards[a].symbol == self.cards[b].symbol {
                    CardState::Matched
                } else {
                    CardState::Hidden
                };
                Session {
                    cards: turned(turned(self.cards, a, state), b, state),
                    first: None,
                    second: None,
                    cooldown: 0,
                    ..self
                }
            },
            _ => Session { cooldown: 0, ..self },
        }
    }

    /// The session after `elapsed` microseconds have passed.
    ///
    /// Time only matters while the pause runs: it is counted down, and when it
    /// runs out the pending pair is settled.
    pub open spec fn tick(self, elapsed: nat) -> Session {
        if self.cooldown == 0 {
            self
        } else if elapsed < self.cooldown {
            Session { cooldown: (self.cooldown - elapsed) as nat, ..self }
        } else {
            self.settle()
        }
    }

    /// The session after one frame in which `elapsed` microseconds passed and
    /// the cards in `clicks` were clicked.
    ///
    /// A won game ignores the frame. While the pause runs, the frame only
    /// advances the clock and its clicks are dropped. Otherwise the clicks are
    /// applied in order.
    pub open spec fn after_frame(self, elapsed: nat, clicks: Seq<int>) -> Session {
        if self.all_matched() {
            self
        } else if self.cooldown > 0 {
            self.tick(elapsed)
        } else {
            self.click_each(clicks)
        }
    }

    /// The session after `event`.
    pub open spec fn step(self, event: Event) -> Session {
        match event {
            Event::Click(index) => self.click(index),
            Event::Tick(elapsed) => self.tick(elapsed),
            Event::Frame(elapsed, clicks) => self.after_frame(elapsed, clicks),
        }
    }

    /// The session after the events in `events`, taken in order.
    pub open spec fn run(self, events: Seq<Event>) -> Session
        decreases events.len(),
    {
        if events.len() == 0 {
            self
        } else {
            self.run(events.drop_last()).step(events.last())
        }
    }

    /// Whether a frame that starts in this session asks the host to draw
    /// again without waiting for input: it does while the pause is running.
    pub open spec fn wants_redraw(self) -> bool {
        !self.all_matched() && self.cooldown > 0
    }

    /// What the board shows, card by card.
    pub open spec fn faces(self) -> Seq<char> {
        Seq::new(self.cards.len(), |i: int| face_of(self.cards[i]))
    }

    /// A new game is in order.
    pub proof fn lemma_fresh_wf(symbols: Seq<char>)
        ensures
            Session::fresh(symbols).wf(),
            Session::fresh(symbols).symbols() == symbols,
    {
        assert(Session::fresh(symbols).symbols() =~= symbols);
    }

    /// A click keeps the game in order, keeps the board's size and symbols,
    /// and never lowers the move count.
    pub proof fn lemma_click_wf(self, index: int)
        requires
            self.wf(),
        ensures
            self.click(index).wf(),
            self.click(index).symbols() == self.symbols(),
            self.click(index).cards.len() == self.cards.len(),
            self.click(index).moves >= self.moves,
    {
        assert(self.click(index).symbols() =~= self.symbols());
    }

    /// Passing time keeps the game in order and keeps the board's size and
    /// symbols and the move count.
    pub proof fn lemma_tick_wf(self, elapsed: nat)
        requires
            self.wf(),
        ensures
            self.tick(elapsed).wf(),
            self.tick(elapsed).symbols() == self.symbols(),
            self.tick(elapsed).cards.len() == self.cards.len(),
            self.tick(elapsed).moves == self.moves,
    {
        assert(self.tick(elapsed).symbols() =~= self.symbols());
    }

    /// A run of clicks keeps the game in order, keeps the board's size and
    /// symbols, and never lowers the move count.
    pub proof fn lemma_click_each_wf(self, clicks: Seq<int>)
        requires
            self.wf(),
        ensures
            self.click_each(clicks).wf(),
            self.click_each(clicks).symbols() == self.symbols(),
            self.click_each(clicks).cards.len() == self.cards.len(),
            self.click_each(clicks).moves >= self.moves,
        decreases clicks.len(),
    {
        if clicks.len() > 0 {
            self.lemma_click_each_wf(clicks.drop_last());
            self.click_each(clicks.drop_last()).lemma_click_wf(clicks.last());
        }
    }

    /// The move count after part of a run of clicks is at most the count after
    /// all of it.
    pub proof fn lemma_click_each_prefix_moves(self, clicks: Seq<int>, k: int)
        requires
            self.wf(),
            0 <= k <= clicks.len(),
        ensures
            self.click_each(clicks.take(k)).moves <= self.click_each(clicks).moves,
        decreases clicks.len() - k,
    {
        if k == clicks.len() {
            assert(clicks.take(k) =~= clicks);
        } else {
            let longer = clicks.take(k + 1);
            assert(longer.drop_last() =~= clicks.take(k));
            self.lemma_click_each_wf(clicks.take(k));
            self.click_each(clicks.take(k)).lemma_click_wf(longer.last());
            self.lemma_click_each_prefix_moves(clicks, k + 1);
        }
    }

    /// A run of clicks completes at most one pair: the move count goes up by
    /// one at most, and not at all while the pause is running.
    pub proof fn lemma_click_each_moves(self, clicks: Seq<int>)
        requires
            self.wf(),
        ensures
            self.cooldown > 0 ==> self.click_each(clicks) == self,
            self.click_each(clicks).moves == self.moves || (self.click_each(clicks).moves
                == self.moves + 1 && self.click_each(clicks).cooldown > 0),
        decreases clicks.len(),
    {
        if clicks.len() > 0 {
            self.lemma_click_each_moves(clicks.drop_last());
        }
    }

    /// A frame completes at most one pair, so the move count after it is at
    /// most one more than before.
    pub proof fn lemma_after_frame_moves(self, elapsed: nat, clicks: Seq<int>)
        requires
            self.wf(),
        ensures
            self.moves <= self.after_frame(elapsed, clicks).moves <= self.moves + 1,
    {
        self.lemma_click_each_moves(clicks);
        self.lemma_tick_wf(elapsed);
    }

    /// A frame keeps the game in order and keeps the board's size and
    /// symbols.
    pub proof fn lemma_after_frame_wf(self, elapsed: nat, clicks: Seq<int>)
        requires
            self.wf(),
        ensures
            self.after_frame(elapsed, clicks).wf(),
            self.after_frame(elapsed, clicks).symbols() == self.symbols(),
            self.after_frame(elapsed, clicks).cards.len() == self.cards.len(),
            self.after_frame(elapsed, clicks).moves >= self.moves,
    {
        self.lemma_tick_wf(elapsed);
        self.lemma_click_each_wf(clicks);
    }

    /// Whatever happens keeps the game in order and keeps the board's size
    /// and symbols, and the move count never goes down.
    pub proof fn lemma_run_wf(self, events: Seq<Event>)
        requires
            self.wf(),
        ensures
            self.run(events).wf(),
            self.run(events).symbols() == self.symbols(),
            self.run(events).cards.len() == self.cards.len(),
            self.run(events).moves >= self.moves,
        decreases events.len(),
    {
        if events.len() > 0 {
            self.lemma_run_wf(events.drop_last());
            let before = self.run(events.drop_last());
            match events.last() {
                Event::Click(index) => before.lemma_click_wf(index),
                Event::Tick(elapsed) => before.lemma_tick_wf(elapsed),
                Event::Frame(elapsed, clicks) => before.lemma_after_frame_wf(elapsed, clicks),
            }
        }
    }
}

} // verus!
