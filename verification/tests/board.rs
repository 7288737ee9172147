use memory_game::{ends_row, Card, CardState, MemoryGameApp, COLUMNS, FACE_DOWN};

#[test]
fn face_down_marker_is_the_card_back() {
    assert_eq!(FACE_DOWN, '🎴');
}

#[test]
fn hidden_card_shows_its_back() {
    let card = Card::hidden('x');
    assert_eq!(card, Card { symbol: 'x', state: CardState::Hidden });
    assert_eq!(card.face(), FACE_DOWN);
}

#[test]
fn revealed_and_matched_cards_show_their_symbol() {
    assert_eq!(Card { symbol: 'x', state: CardState::Revealed }.face(), 'x');
    assert_eq!(Card { symbol: 'y', state: CardState::Matched }.face(), 'y');
}

#[test]
fn render_follows_the_state_of_each_card() {
    let mut game = MemoryGameApp::from_symbols(vec!['a', 'b', 'a', 'b', 'c', 'c']);
    assert_eq!(game.render(), vec![FACE_DOWN; 6]);
    game.click(4);
    assert_eq!(
        game.render(),
        vec![FACE_DOWN, FACE_DOWN, FACE_DOWN, FACE_DOWN, 'c', FACE_DOWN]
    );
    game.click(5);
    game.tick(1_000_000);
    game.click(1);
    assert_eq!(
        game.render(),
        vec![FACE_DOWN, 'b', FACE_DOWN, FACE_DOWN, 'c', 'c']
    );
}

#[test]
fn render_does_not_change_the_game() {
    let mut game = MemoryGameApp::from_symbols(vec!['a', 'a']);
    game.click(0);
    let before = game.cards().clone();
    let first = game.render();
    let second = game.render();
    assert_eq!(first, second);
    assert_eq!(game.cards(), &before);
    assert_eq!(game.first_selection(), Some(0));
}

#[test]
fn rows_break_after_every_fourth_tile() {
    assert_eq!(COLUMNS, 4);
    let ends: Vec<usize> = (0..16).filter(|&i| ends_row(i)).collect();
    assert_eq!(ends, vec![3, 7, 11, 15]);
    assert!(!ends_row(0));
    assert!(!ends_row(4));
    assert!(ends_row(usize::MAX));
    assert!(!ends_row(usize::MAX - 1));
}
