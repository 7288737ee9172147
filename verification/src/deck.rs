//! The deck: which symbols are on the cards, and how they are mixed.

use rand::seq::SliceRandom;
use rand::thread_rng;
use vstd::prelude::*;

verus! {

/// Number of pairs in the standard deck.
pub const PAIRS: usize = 8;

/// The symbols of the standard deck, one of each: cat, dog, ghost, alien,
/// laptop, rocket, fire, ladybug.
pub open spec fn standard_symbols() -> Seq<char> {
    seq![
        '\u{1F431}',
        '\u{1F436}',
        '\u{1F47B}',
        '\u{1F47D}',
        '\u{1F4BB}',
        '\u{1F680}',
        '\u{1F525}',
        '\u{1F41E}',
    ]
}

/// The deck that holds each of `symbols` twice, the two copies side by side.
pub open spec fn paired(symbols: Seq<char>) -> Seq<char>
    decreases symbols.len(),
{
    if symbols.len() == 0 {
        Seq::empty()
    } else {
        paired(symbols.drop_last()).push(symbols.last()).push(symbols.last())
    }
}

/// The standard deck as it comes out of the box, before it is shuffled.
pub open spec fn standard_deck() -> Seq<char> {
    paired(standard_symbols())
}

/// Whether `a` holds the same symbols as `b`, each as often: one is the other
/// in some order.
pub open spec fn is_rearrangement(a: Seq<char>, b: Seq<char>) -> bool {
    a.to_multiset() == b.to_multiset()
}

/// Whether `deck` is made of `pairs` different symbols, each on exactly two
/// cards.
pub open spec fn is_paired_deck(deck: Seq<char>, pairs: nat) -> bool {
    &&& deck.len() == 2 * pairs
    &&& deck.to_set().finite()
    &&& deck.to_set().len() == pairs
    &&& forall|c: char| deck.contains(c) ==> #[trigger] deck.to_multiset().count(c) == 2
}

/// In `paired(symbols)` every one of `symbols` occurs twice and nothing else
/// occurs, provided `symbols` names none twice.
pub proof fn lemma_paired_counts(symbols: Seq<char>)
    requires
        symbols.no_duplicates(),
    ensures
        paired(symbols).len() == 2 * symbols.len(),
        forall|c: char|
            #[trigger] paired(symbols).to_multiset().count(c) == if symbols.contains(c) {
                2nat
            } else {
                0nat
            },
    decreases symbols.len(),
{
    broadcast use vstd::seq_lib::to_multiset_build;
    broadcast use vstd::multiset::group_multiset_axioms;

    if symbols.len() == 0 {
        paired(symbols).to_multiset_ensures();
    } else {
        let rest = symbols.drop_last();
        let last = symbols.last();
        lemma_paired_counts(rest);
        assert forall|c: char|
            #[trigger] paired(symbols).to_multiset().count(c) == if symbols.contains(c) {
                2nat
            } else {
                0nat
            } by {
            if c == last {
                assert(symbols[symbols.len() - 1] == c);
                if rest.contains(c) {
                    let i = choose|i: int| 0 <= i < rest.len() && rest[i] == c;
                    assert(symbols[i] == symbols[symbols.len() - 1]);
                }
            } else if symbols.contains(c) {
                let i = choose|i: int| 0 <= i < symbols.len() && symbols[i] == c;
                assert(rest[i] == c);
            } else if rest.contains(c) {
                let i = choose|i: int| 0 <= i < rest.len() && rest[i] == c;
                assert(symbols[i] == c);
            }
        }
    }
}

/// A deck that pairs up `symbols`, laid out in any order, is a paired deck
/// with as many pairs as there are symbols.
pub proof fn lemma_rearranged_pairs(deck: Seq<char>, symbols: Seq<char>)
    requires
        symbols.no_duplicates(),
        is_rearrangement(deck, paired(symbols)),
    ensures
        is_paired_deck(deck, symbols.len()),
        deck.to_set() == symbols.to_set(),
{
    lemma_paired_counts(symbols);
    deck.to_multiset_ensures();
    paired(symbols).to_multiset_ensures();
    symbols.unique_seq_to_set();
    vstd::seq_lib::seq_to_set_is_finite(deck);
    assert forall|c: char| deck.contains(c) <==> symbols.contains(c) by {
        assert(deck.to_multiset().count(c) == paired(symbols).to_multiset().count(c));
    }
    assert(deck.to_set() =~= symbols.to_set());
}

/// The standard symbols are eight different ones.
pub proof fn lemma_standard_symbols_distinct()
    ensures
        standard_symbols().len() == PAIRS,
        standard_symbols().no_duplicates(),
{
}

/// However the standard deck is shuffled, it shows eight different symbols on
/// sixteen cards, each symbol on exactly two of them.
pub proof fn lemma_shuffled_deck_is_paired(deck: Seq<char>)
    requires
        is_rearrangement(deck, standard_deck()),
    ensures
        is_paired_deck(deck, PAIRS as nat),
        deck.len() == 16,
{
    lemma_standard_symbols_distinct();
    lemma_rearranged_pairs(deck, standard_symbols());
}

/// The symbols of the standard deck, one of each.
pub fn symbols() -> (symbols: Vec<char>)
    ensures
        symbols@ == standard_symbols(),
{
    let symbols = vec![
        '\u{1F431}',
        '\u{1F436}',
        '\u{1F47B}',
        '\u{1F47D}',
        '\u{1F4BB}',
        '\u{1F680}',
        '\u{1F525}',
        '\u{1F41E}',
    ];
    assert(symbols@ =~= standard_symbols());
    symbols
}

/// Builds the deck that holds each of `symbols` twice, the two copies side
/// by side.
pub fn pair_up(symbols: &Vec<char>) -> (deck: Vec<char>)
    ensures
        deck@ == paired(symbols@),
{
    let mut deck: Vec<char> = Vec::new();
    let mut k: usize = 0;
    while k < symbols.len()
        invariant
            k <= symbols.len(),
            deck@ == paired(symbols@.take(k as int)),
        decreases symbols.len() - k,
    {
        assert(symbols@.take(k + 1).drop_last() =~= symbols@.take(k as int));
        deck.push(symbols[k]);
        deck.push(symbols[k]);
        k += 1;
    }
    assert(symbols@.take(k as int) =~= symbols@);
    deck
}

/// Shuffles `deck` in place.
///
/// Trusted, not proved: the body calls `rand::seq::SliceRandom::shuffle` on
/// the deck with the generator that `rand::thread_rng` hands out. That
/// shuffle walks the slice once and does nothing to it but swap two of its
/// elements at a time, so whatever the generator yields, the deck afterwards
/// holds the same symbols, each as often as before. This is all the contract
/// claims; it says nothing about the order they end up in. The call has no
/// argument on which it panics; `thread_rng` itself panics only if the
/// operating system cannot seed it.
#[verifier::external_body]
pub(crate) fn shuffle(deck: &mut Vec<char>)
    ensures
        final(deck)@.to_multiset() == old(deck)@.to_multiset(),
{
    deck.shuffle(&mut thread_rng());
}

/// The standard deck, freshly shuffled.
pub fn shuffled_deck() -> (deck: Vec<char>)
    ensures
        is_rearrangement(deck@, standard_deck()),
        is_paired_deck(deck@, PAIRS as nat),
        deck@.len() == 16,
{
    let mut deck = pair_up(&symbols());
    shuffle(&mut deck);
    proof {
        lemma_shuffled_deck_is_paired(deck@);
    }
    deck
}

} // verus!
