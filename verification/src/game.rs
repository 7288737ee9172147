//! The game a host program holds and drives.

use crate::card::{Card, CardState};
use crate::deck::{is_paired_deck, is_rearrangement, shuffled_deck, standard_deck, PAIRS};
use crate::session::{Session, COOLDOWN_MICROS};
use vstd::prelude::*;

verus! {

/// One game of memory: the board, the current picks, the move counter and the
/// pause timer.
///
/// The host calls [`MemoryGameApp::update`] once per frame with the time that
/// has passed and the cards that were clicked, and draws what comes back.
/// Time is counted in whole microseconds. What the game is at any moment is
/// its view, a [`Session`]; every method says what it does to that view.
pub struct MemoryGameApp {
    grid: Vec<Card>,
    first_selection: Option<usize>,
    second_selection: Option<usize>,
    moves: u32,
    /// Microseconds left of the pause.
    wait_timer: u64,
}

/// What the host should put on screen after a frame.
pub struct RenderInstructions {
    /// The glyph to draw on each tile, in board order.
    pub faces: Vec<char>,
    /// Whether to show the win banner.
    pub win: bool,
    /// Whether to schedule another frame even if no input arrives.
    pub request_redraw: bool,
}

/// A stored pick as a position on the board.
pub open spec fn position(pick: Option<usize>) -> Option<int> {
    match pick {
        Some(i) => Some(i as int),
        None => None,
    }
}

/// Clicked tiles as positions on the board.
pub open spec fn positions(clicks: Seq<usize>) -> Seq<int> {
    Seq::new(clicks.len(), |k: int| clicks[k] as int)
}

impl View for MemoryGameApp {
    type V = Session;

    closed spec fn view(&self) -> Session {
        Session {
            cards: self.grid@,
            first: position(self.first_selection),
            second: position(self.second_selection),
            moves: self.moves as nat,
            cooldown: self.wait_timer as nat,
        }
    }
}

impl Default for MemoryGameApp {
    /// A new game on the standard deck, freshly shuffled: sixteen cards face
    /// down, eight symbols on two cards each, in whatever order the shuffle
    /// left them.
    fn default() -> (game: MemoryGameApp)
        ensures
            game.wf(),
            game@ == Session::fresh(game@.symbols()),
            is_rearrangement(game@.symbols(), standard_deck()),
            is_paired_deck(game@.symbols(), PAIRS as nat),
    {
        let deck = shuffled_deck();
        proof {
            Session::lemma_fresh_wf(deck@);
        }
        MemoryGameApp::from_symbols(deck)
    }
}

impl MemoryGameApp {
    /// The game is in order: see [`Session::wf`].
    pub open spec fn wf(&self) -> bool {
        self@.wf()
    }

    /// A new game on the given symbols, laid out in the given order.
    pub fn from_symbols(symbols: Vec<char>) -> (game: MemoryGameApp)
        ensures
            game@ == Session::fresh(symbols@),
            game.wf(),
    {
        let mut grid: Vec<Card> = Vec::new();
        let mut i: usize = 0;
        while i < symbols.len()
            invariant
                i <= symbols.len(),
                grid@ == Session::fresh(symbols@).cards.take(i as int),
            decreases symbols.len() - i,
        {
            grid.push(Card::hidden(symbols[i]));
            i += 1;
        }
        proof {
            Session::lemma_fresh_wf(symbols@);
            assert(grid@ =~= Session::fresh(symbols@).cards);
        }
        MemoryGameApp {
            grid,
            first_selection: None,
            second_selection: None,
            moves: 0,
            wait_timer: 0,
        }
    }

    /// Handles a click on the tile at `index`.
    ///
    /// The move counter must have room for the move this click may complete;
    /// a count below `u32::MAX` always leaves room.
    pub fn click(&mut self, index: usize)
        requires
            old(self).wf(),
            old(self)@.click(index as int).moves <= u32::MAX,
        ensures
            final(self)@ == old(self)@.click(index as int),
            final(self).wf(),
    {
        proof {
            self@.lemma_click_wf(index as int);
        }
        if self.wait_timer > 0 || index >= self.grid.len() {
            return;
        }
        if self.grid[index].state != CardState::Hidden {
            return;
        }
        self.grid[index].state = CardState::Revealed;
        if self.first_selection.is_none() {
            self.first_selection = Some(index);
        } else {
            self.second_selection = Some(index);
            self.moves += 1;
            self.wait_timer = COOLDOWN_MICROS;
        }
    }

    /// Lets `elapsed_micros` microseconds pass.
    pub fn tick(&mut self, elapsed_micros: u64)
        requires
            old(self).wf(),
        ensures
            final(self)@ == old(self)@.tick(elapsed_micros as nat),
            final(self).wf(),
    {
        proof {
            self@.lemma_tick_wf(elapsed_micros as nat);
        }
        if self.wait_timer == 0 {
            return;
        }
        if elapsed_micros < self.wait_timer {
            self.wait_timer -= elapsed_micros;
            return;
        }
        self.wait_timer = 0;
        match (self.first_selection, self.second_selection) {
            (Some(a), Some(b)) => {
                let state = if self.grid[a].symbol == self.grid[b].symbol {
                    CardState::Matched
                } else {
                    CardState::Hidden
                };
                self.grid[a].state = state;
                self.grid[b].state = state;
                self.first_selection = None;
                self.second_selection = None;
            },
            _ => {},
        }
    }

    /// Whether every card has been matched.
    pub fn is_won(&self) -> (won: bool)
        ensures
            won == self@.all_matched(),
    {
        let mut i: usize = 0;
        while i < self.grid.len()
            invariant
                i <= self.grid.len(),
                forall|j: int| 0 <= j < i ==> (#[trigger] self.grid@[j]).state == CardState::Matched,
            decreases self.grid.len() - i,
        {
            if self.grid[i].state != CardState::Matched {
                return false;
            }
            i += 1;
        }
        true
    }

    /// The glyph to draw on each tile, in board order.
    pub fn render(&self) -> (faces: Vec<char>)
        ensures
            faces@ == self@.faces(),
    {
        let mut faces: Vec<char> = Vec::new();
        let mut i: usize = 0;
        while i < self.grid.len()
            invariant
                i <= self.grid.len(),
                faces@ == self@.faces().take(i as int),
            decreases self.grid.len() - i,
        {
            faces.push(self.grid[i].face());
            i += 1;
        }
        faces
    }

    /// Runs one frame: `elapsed_micros` microseconds have passed since the
    /// last one and the tiles in `clicks` were clicked, in that order.
    ///
    /// The move counter must have room for the move this frame may complete;
    /// by [`Session::lemma_after_frame_moves`] a count below `u32::MAX`
    /// always leaves room.
    pub fn update(&mut self, elapsed_micros: u64, clicks: &[usize]) -> (out: RenderInstructions)
        requires
            old(self).wf(),
            old(self)@.after_frame(elapsed_micros as nat, positions(clicks@)).moves <= u32::MAX,
        ensures
            final(self)@ == old(self)@.after_frame(elapsed_micros as nat, positions(clicks@)),
            final(self).wf(),
            out.faces@ == final(self)@.faces(),
            out.win == final(self)@.all_matched(),
            out.request_redraw == old(self)@.wants_redraw(),
    {
        let ghost start = self@;
        let ghost wanted = positions(clicks@);
        let mut request_redraw = false;
        if !self.is_won() {
            if self.wait_timer > 0 {
                self.tick(elapsed_micros);
                request_redraw = true;
            } else {
                let mut k: usize = 0;
                while k < clicks.len()
                    invariant
                        k <= clicks.len(),
                        start.wf(),
                        self.wf(),
                        wanted == positions(clicks@),
                        self@ == start.click_each(wanted.take(k as int)),
                        start.click_each(wanted).moves <= u32::MAX,
                    decreases clicks.len() - k,
                {
                    proof {
                        assert(wanted.take(k + 1).drop_last() =~= wanted.take(k as int));
                        start.lemma_click_each_prefix_moves(wanted, k + 1);
                    }
                    self.click(clicks[k]);
                    k += 1;
                }
                assert(wanted.take(k as int) =~= wanted);
            }
        }
        RenderInstructions { faces: self.render(), win: self.is_won(), request_redraw }
    }

    /// Number of pairs turned over so far.
    pub fn moves(&self) -> (moves: u32)
        ensures
            moves == self@.moves,
    {
        self.moves
    }

    /// Microseconds left of the pause; zero when none is running.
    pub fn cooldown(&self) -> (micros: u64)
        ensures
            micros == self@.cooldown,
    {
        self.wait_timer
    }

    /// The board, in display order.
    pub fn cards(&self) -> (cards: &Vec<Card>)
        ensures
            cards@ == self@.cards,
    {
        &self.grid
    }

    /// Position of the first card of the pair being picked, if any.
    pub fn first_selection(&self) -> (pick: Option<usize>)
        ensures
            position(pick) == self@.first,
    {
        self.first_selection
    }

    /// Position of the second card of the pair being picked, if any.
    pub fn second_selection(&self) -> (pick: Option<usize>)
        ensures
            position(pick) == self@.second,
    {
        self.second_selection
    }
}

} // verus!
