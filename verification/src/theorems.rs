//! What the rules guarantee, stated over [`Session`] and proved.

use crate::card::CardState;
use crate::deck::{is_paired_deck, is_rearrangement, lemma_shuffled_deck_is_paired, standard_deck, PAIRS};
use crate::session::{turned, Event, Session, COOLDOWN_MICROS};
use vstd::prelude::*;

verus! {

/// A game dealt from the standard deck, however it was shuffled and whatever
/// has happened since, shows eight different symbols on sixteen cards, each
/// symbol on exactly two of them.
pub proof fn lemma_board_is_always_paired(deck: Seq<char>, events: Seq<Event>)
    requires
        is_rearrangement(deck, standard_deck()),
    ensures
        Session::fresh(deck).run(events).cards.len() == 16,
        Session::fresh(deck).run(events).symbols() == deck,
        is_paired_deck(Session::fresh(deck).run(events).symbols(), PAIRS as nat),
{
    lemma_shuffled_deck_is_paired(deck);
    Session::lemma_fresh_wf(deck);
    Session::fresh(deck).lemma_run_wf(events);
}

/// In a game that is in order at most two cards lie `Revealed`.
pub proof fn lemma_at_most_two_revealed(s: Session)
    requires
        s.wf(),
    ensures
        s.revealed().finite(),
        s.revealed().len() <= 2,
{
    let first: Set<int> = match s.first {
        Some(a) => set![a],
        None => Set::empty(),
    };
    let picks: Set<int> = match s.second {
        Some(b) => first.insert(b),
        None => first,
    };
    assert(s.revealed() =~= picks);
}

/// While the pause is running exactly two cards lie `Revealed`: the pair
/// that waits to be settled.
pub proof fn lemma_pause_shows_two(s: Session)
    requires
        s.wf(),
        s.cooldown > 0,
    ensures
        s.first is Some,
        s.second is Some,
        s.revealed() == set![s.first->0, s.second->0],
        s.revealed().len() == 2,
{
    assert(s.revealed() =~= set![s.first->0, s.second->0]);
}

/// From a new game on any symbols, whatever clicks, pauses and frames follow,
/// at most two cards lie `Revealed`.
pub proof fn lemma_never_more_than_two_revealed(symbols: Seq<char>, events: Seq<Event>)
    ensures
        Session::fresh(symbols).run(events).wf(),
        Session::fresh(symbols).run(events).revealed().finite(),
        Session::fresh(symbols).run(events).revealed().len() <= 2,
{
    Session::lemma_fresh_wf(symbols);
    Session::fresh(symbols).lemma_run_wf(events);
    lemma_at_most_two_revealed(Session::fresh(symbols).run(events));
}

/// With nothing picked, a click on a face-down card turns over that card and
/// no other, records it as the first pick, and leaves the move count alone.
pub proof fn lemma_first_pick(s: Session, index: int)
    requires
        s.wf(),
        s.first is None,
        s.second is None,
        0 <= index < s.cards.len(),
        s.cards[index].state == CardState::Hidden,
    ensures
        s.click(index).cards == turned(s.cards, index, CardState::Revealed),
        s.click(index).cards[index].state == CardState::Revealed,
        s.click(index).cards[index].symbol == s.cards[index].symbol,
        forall|j: int|
            0 <= j < s.cards.len() && j != index ==> s.click(index).cards[j] == s.cards[j],
        s.click(index).first == Some(index),
        s.click(index).second is None,
        s.click(index).moves == s.moves,
        s.click(index).cooldown == 0,
{
}

/// With one card picked, a click on another, face-down card turns it over,
/// records it as the second pick, adds exactly one move and starts the
/// one-second pause.
pub proof fn lemma_second_pick(s: Session, index: int)
    requires
        s.wf(),
        s.first is Some,
        s.second is None,
        s.first != Some(index),
        0 <= index < s.cards.len(),
        s.cards[index].state == CardState::Hidden,
    ensures
        s.click(index).cards == turned(s.cards, index, CardState::Revealed),
        s.click(index).cards[index].state == CardState::Revealed,
        s.click(index).first == s.first,
        s.click(index).second == Some(index),
        s.click(index).moves == s.moves + 1,
        s.click(index).cooldown == COOLDOWN_MICROS,
        s.click(index).cooldown == 1_000_000,
{
}

/// When the pause runs out, a picked pair with equal symbols becomes
/// `Matched`; one with different symbols goes back to `Hidden` and both of
/// its cards accept clicks again. No other card changes, the picks are
/// cleared and the move count stays.
pub proof fn lemma_pause_settles_pair(s: Session, elapsed: nat)
    requires
        s.wf(),
        s.cooldown > 0,
        elapsed >= s.cooldown,
    ensures
        s.first is Some,
        s.second is Some,
        ({
            let a = s.first->0;
            let b = s.second->0;
            let after = s.tick(elapsed);
            &&& after.first is None
            &&& after.second is None
            &&& after.cooldown == 0
            &&& after.moves == s.moves
            &&& after.cards.len() == s.cards.len()
            &&& forall|j: int|
                0 <= j < s.cards.len() && j != a && j != b ==> after.cards[j] == s.cards[j]
            &&& after.cards[a].symbol == s.cards[a].symbol
            &&& after.cards[b].symbol == s.cards[b].symbol
            &&& s.cards[a].symbol == s.cards[b].symbol ==> {
                &&& after.cards[a].state == CardState::Matched
                &&& after.cards[b].state == CardState::Matched
            }
            &&& s.cards[a].symbol != s.cards[b].symbol ==> {
                &&& after.cards[a].state == CardState::Hidden
                &&& after.cards[b].state == CardState::Hidden
                &&& after.accepts_click(a)
                &&& after.accepts_click(b)
            }
        }),
{
}

/// Until the pause runs out, passing time changes nothing but the time left.
pub proof fn lemma_pause_counts_down(s: Session, elapsed: nat)
    requires
        s.wf(),
        elapsed < s.cooldown,
    ensures
        s.tick(elapsed).cooldown == s.cooldown - elapsed,
        s.tick(elapsed).cards == s.cards,
        s.tick(elapsed).first == s.first,
        s.tick(elapsed).second == s.second,
        s.tick(elapsed).moves == s.moves,
{
}

/// A card that is `Matched` stays `Matched`, with its symbol, whatever
/// happens afterwards.
pub proof fn lemma_matched_stays_matched(s: Session, events: Seq<Event>, index: int)
    requires
        s.wf(),
        0 <= index < s.cards.len(),
        s.cards[index].state == CardState::Matched,
    ensures
        s.run(events).cards.len() == s.cards.len(),
        s.run(events).cards[index] == s.cards[index],
    decreases events.len(),
{
    if events.len() > 0 {
        lemma_matched_stays_matched(s, events.drop_last(), index);
        s.lemma_run_wf(events.drop_last());
        let before = s.run(events.drop_last());
        match events.last() {
            Event::Click(i) => {},
            Event::Tick(elapsed) => {},
            Event::Frame(elapsed, clicks) => {
                lemma_clicks_keep_matched(before, clicks, index);
            },
        }
    }
}

/// A run of clicks leaves a `Matched` card as it is.
pub proof fn lemma_clicks_keep_matched(s: Session, clicks: Seq<int>, index: int)
    requires
        s.wf(),
        0 <= index < s.cards.len(),
        s.cards[index].state == CardState::Matched,
    ensures
        s.click_each(clicks).cards.len() == s.cards.len(),
        s.click_each(clicks).cards[index] == s.cards[index],
    decreases clicks.len(),
{
    if clicks.len() > 0 {
        lemma_clicks_keep_matched(s, clicks.drop_last(), index);
        s.lemma_click_each_wf(clicks.drop_last());
    }
}

/// A click changes nothing if it lands on a card that is `Matched` or
/// already `Revealed`, if it lands outside the board, or if the pause is
/// running.
pub proof fn lemma_ignored_click(s: Session, index: int)
    requires
        s.wf(),
        ({
            ||| s.cooldown > 0
            ||| !(0 <= index < s.cards.len())
            ||| s.cards[index].state == CardState::Matched
            ||| s.cards[index].state == CardState::Revealed
        }),
    ensures
        s.click(index) == s,
{
}

/// While the pause is running, a frame drops all of its clicks: it does what
/// the passing of its time does, and asks to be drawn again.
pub proof fn lemma_frame_during_pause(s: Session, elapsed: nat, clicks: Seq<int>)
    requires
        s.wf(),
        s.cooldown > 0,
    ensures
        s.after_frame(elapsed, clicks) == s.tick(elapsed),
        s.wants_redraw(),
{
    let a = s.first->0;
    assert(s.cards[a].state == CardState::Revealed);
}

/// Once every card is `Matched` the game is over: no click, pause or frame
/// changes anything any more.
pub proof fn lemma_won_game_is_final(s: Session, events: Seq<Event>)
    requires
        s.wf(),
        s.all_matched(),
    ensures
        s.run(events) == s,
    decreases events.len(),
{
    if events.len() > 0 {
        lemma_won_game_is_final(s, events.drop_last());
        match events.last() {
            Event::Click(index) => {
                lemma_won_game_ignores_click(s, index);
            },
            Event::Tick(elapsed) => {
                lemma_won_game_has_no_pause(s);
            },
            Event::Frame(elapsed, clicks) => {},
        }
    }
}

/// In a won game nothing is picked and no pause is running.
pub proof fn lemma_won_game_has_no_pause(s: Session)
    requires
        s.wf(),
        s.all_matched(),
    ensures
        s.first is None,
        s.second is None,
        s.cooldown == 0,
{
    if let Some(a) = s.first {
        assert(s.cards[a].state == CardState::Revealed);
    }
}

/// A won game ignores every click.
pub proof fn lemma_won_game_ignores_click(s: Session, index: int)
    requires
        s.wf(),
        s.all_matched(),
    ensures
        s.click(index) == s,
{
    if 0 <= index < s.cards.len() {
        assert(s.cards[index].state == CardState::Matched);
    }
}

} // verus!
