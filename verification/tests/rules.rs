use memory_game::{Card, CardState, MemoryGameApp, COOLDOWN_MICROS};

use CardState::{Hidden, Matched, Revealed};

fn states(game: &MemoryGameApp) -> Vec<CardState> {
    game.cards().iter().map(|card| card.state).collect()
}

fn small_game() -> MemoryGameApp {
    MemoryGameApp::from_symbols(vec!['A', 'A', 'B', 'B'])
}

#[test]
fn new_game_is_all_face_down() {
    let game = small_game();
    assert_eq!(states(&game), vec![Hidden, Hidden, Hidden, Hidden]);
    assert_eq!(game.moves(), 0);
    assert_eq!(game.cooldown(), 0);
    assert_eq!(game.first_selection(), None);
    assert_eq!(game.second_selection(), None);
    assert!(!game.is_won());
}

#[test]
fn new_game_keeps_the_given_order() {
    let game = MemoryGameApp::from_symbols(vec!['x', 'y', 'y', 'x']);
    let symbols: Vec<char> = game.cards().iter().map(|card| card.symbol).collect();
    assert_eq!(symbols, vec!['x', 'y', 'y', 'x']);
    assert_eq!(game.cards()[2], Card { symbol: 'y', state: Hidden });
}

#[test]
fn four_card_game_played_to_the_end() {
    let mut game = small_game();

    game.click(0);
    assert_eq!(states(&game), vec![Revealed, Hidden, Hidden, Hidden]);
    assert_eq!(game.moves(), 0);

    game.click(2);
    assert_eq!(game.moves(), 1);
    assert_eq!(game.cooldown(), 1_000_000);
    assert_eq!(states(&game), vec![Revealed, Hidden, Revealed, Hidden]);

    game.tick(1_000_000);
    assert_eq!(states(&game), vec![Hidden, Hidden, Hidden, Hidden]);
    assert_eq!(game.cooldown(), 0);

    game.click(0);
    game.click(1);
    game.tick(1_000_000);
    assert_eq!(states(&game), vec![Matched, Matched, Hidden, Hidden]);
    assert!(!game.is_won());

    game.click(2);
    game.click(3);
    game.tick(1_000_000);
    assert_eq!(states(&game), vec![Matched, Matched, Matched, Matched]);
    assert!(game.is_won());
    assert_eq!(game.moves(), 3);
}

#[test]
fn four_card_game_played_frame_by_frame() {
    let mut game = small_game();

    let out = game.update(16_000, &[0]);
    assert_eq!(states(&game), vec![Revealed, Hidden, Hidden, Hidden]);
    assert_eq!(out.faces, vec!['A', '\u{1F3B4}', '\u{1F3B4}', '\u{1F3B4}']);
    assert!(!out.win);
    assert!(!out.request_redraw);

    let out = game.update(16_000, &[2]);
    assert_eq!(game.moves(), 1);
    assert_eq!(game.cooldown(), 1_000_000);
    assert_eq!(out.faces, vec!['A', '\u{1F3B4}', 'B', '\u{1F3B4}']);
    assert!(!out.request_redraw);

    let out = game.update(999_999, &[]);
    assert_eq!(game.cooldown(), 1);
    assert!(out.request_redraw);
    assert_eq!(out.faces, vec!['A', '\u{1F3B4}', 'B', '\u{1F3B4}']);

    let out = game.update(1, &[]);
    assert!(out.request_redraw);
    assert_eq!(states(&game), vec![Hidden, Hidden, Hidden, Hidden]);
    assert_eq!(out.faces, vec!['\u{1F3B4}'; 4]);

    game.update(0, &[0]);
    game.update(0, &[1]);
    game.update(2_000_000, &[]);
    assert_eq!(states(&game), vec![Matched, Matched, Hidden, Hidden]);

    game.update(0, &[2]);
    game.update(0, &[3]);
    let out = game.update(1_000_000, &[]);
    assert_eq!(states(&game), vec![Matched, Matched, Matched, Matched]);
    assert!(out.win);
    assert!(out.request_redraw);
    assert_eq!(out.faces, vec!['A', 'A', 'B', 'B']);

    let out = game.update(16_000, &[0, 1, 2, 3]);
    assert!(out.win);
    assert!(!out.request_redraw);
    assert_eq!(game.moves(), 3);
}

#[test]
fn first_click_reveals_only_that_card() {
    let mut game = small_game();
    game.click(3);
    assert_eq!(states(&game), vec![Hidden, Hidden, Hidden, Revealed]);
    assert_eq!(game.first_selection(), Some(3));
    assert_eq!(game.second_selection(), None);
    assert_eq!(game.moves(), 0);
    assert_eq!(game.cooldown(), 0);
}

#[test]
fn second_click_counts_a_move_and_starts_the_pause() {
    let mut game = small_game();
    game.click(3);
    game.click(1);
    assert_eq!(states(&game), vec![Hidden, Revealed, Hidden, Revealed]);
    assert_eq!(game.first_selection(), Some(3));
    assert_eq!(game.second_selection(), Some(1));
    assert_eq!(game.moves(), 1);
    assert_eq!(game.cooldown(), COOLDOWN_MICROS);
    assert_eq!(COOLDOWN_MICROS, 1_000_000);
}

#[test]
fn click_on_revealed_card_is_ignored() {
    let mut game = small_game();
    game.click(0);
    game.click(0);
    assert_eq!(states(&game), vec![Revealed, Hidden, Hidden, Hidden]);
    assert_eq!(game.first_selection(), Some(0));
    assert_eq!(game.second_selection(), None);
    assert_eq!(game.moves(), 0);
    assert_eq!(game.cooldown(), 0);
}

#[test]
fn click_on_matched_card_is_ignored() {
    let mut game = small_game();
    game.click(0);
    game.click(1);
    game.tick(COOLDOWN_MICROS);
    game.click(1);
    assert_eq!(states(&game), vec![Matched, Matched, Hidden, Hidden]);
    assert_eq!(game.first_selection(), None);
    assert_eq!(game.moves(), 1);
}

#[test]
fn click_during_pause_is_ignored() {
    let mut game = small_game();
    game.click(0);
    game.click(2);
    game.click(1);
    game.click(3);
    assert_eq!(states(&game), vec![Revealed, Hidden, Revealed, Hidden]);
    assert_eq!(game.moves(), 1);
    assert_eq!(game.cooldown(), COOLDOWN_MICROS);
}

#[test]
fn third_click_in_one_frame_is_ignored() {
    let mut game = small_game();
    let out = game.update(0, &[0, 2, 1]);
    assert_eq!(states(&game), vec![Revealed, Hidden, Revealed, Hidden]);
    assert_eq!(game.moves(), 1);
    assert_eq!(out.faces, vec!['A', '\u{1F3B4}', 'B', '\u{1F3B4}']);
}

#[test]
fn frame_during_pause_drops_its_clicks() {
    let mut game = small_game();
    game.update(0, &[0, 2]);
    let out = game.update(10, &[1, 3]);
    assert!(out.request_redraw);
    assert_eq!(states(&game), vec![Revealed, Hidden, Revealed, Hidden]);
    assert_eq!(game.cooldown(), 999_990);
    assert_eq!(game.moves(), 1);
}

#[test]
fn click_outside_the_board_is_ignored() {
    let mut game = small_game();
    game.click(4);
    game.click(usize::MAX);
    let out = game.update(0, &[16, 99]);
    assert_eq!(states(&game), vec![Hidden, Hidden, Hidden, Hidden]);
    assert_eq!(game.first_selection(), None);
    assert_eq!(game.moves(), 0);
    assert!(!out.request_redraw);
}

#[test]
fn pause_counts_down_by_the_elapsed_time() {
    let mut game = small_game();
    game.click(0);
    game.click(2);
    game.tick(400_000);
    assert_eq!(game.cooldown(), 600_000);
    assert_eq!(states(&game), vec![Revealed, Hidden, Revealed, Hidden]);
    game.tick(0);
    assert_eq!(game.cooldown(), 600_000);
    game.tick(599_999);
    assert_eq!(game.cooldown(), 1);
    assert_eq!(game.second_selection(), Some(2));
    game.tick(1);
    assert_eq!(game.cooldown(), 0);
    assert_eq!(game.second_selection(), None);
    assert_eq!(states(&game), vec![Hidden, Hidden, Hidden, Hidden]);
}

#[test]
fn overlong_frame_settles_the_pair() {
    let mut game = small_game();
    game.click(1);
    game.click(0);
    game.tick(u64::MAX);
    assert_eq!(game.cooldown(), 0);
    assert_eq!(states(&game), vec![Matched, Matched, Hidden, Hidden]);
    assert_eq!(game.first_selection(), None);
    assert_eq!(game.second_selection(), None);
}

#[test]
fn time_without_pause_changes_nothing() {
    let mut game = small_game();
    game.click(2);
    game.tick(5_000_000);
    assert_eq!(states(&game), vec![Hidden, Hidden, Revealed, Hidden]);
    assert_eq!(game.first_selection(), Some(2));
    assert_eq!(game.cooldown(), 0);
    let out = game.update(5_000_000, &[]);
    assert!(!out.request_redraw);
    assert_eq!(states(&game), vec![Hidden, Hidden, Revealed, Hidden]);
}

#[test]
fn mismatched_pair_can_be_clicked_again() {
    let mut game = small_game();
    game.click(1);
    game.click(3);
    game.tick(COOLDOWN_MICROS);
    assert_eq!(states(&game), vec![Hidden, Hidden, Hidden, Hidden]);
    game.click(3);
    assert_eq!(states(&game), vec![Hidden, Hidden, Hidden, Revealed]);
    assert_eq!(game.first_selection(), Some(3));
    game.click(1);
    assert_eq!(game.second_selection(), Some(1));
    assert_eq!(game.moves(), 2);
}

#[test]
fn matched_pair_stays_matched() {
    let mut game = small_game();
    game.click(2);
    game.click(3);
    game.tick(COOLDOWN_MICROS);
    assert_eq!(states(&game), vec![Hidden, Hidden, Matched, Matched]);
    game.click(2);
    game.click(0);
    game.click(3);
    game.tick(COOLDOWN_MICROS);
    game.update(0, &[2, 3, 3, 2]);
    game.update(COOLDOWN_MICROS, &[2]);
    assert_eq!(game.cards()[2], Card { symbol: 'B', state: Matched });
    assert_eq!(game.cards()[3], Card { symbol: 'B', state: Matched });
}

#[test]
fn at_most_two_cards_are_revealed() {
    let mut game = MemoryGameApp::from_symbols(vec!['a', 'b', 'c', 'a', 'b', 'c']);
    let clicks = [0, 1, 2, 3, 4, 5, 5, 3, 0, 2, 4, 1, 1, 4, 2, 5];
    for (n, &index) in clicks.iter().enumerate() {
        game.update(0, &[index, (index + 1) % 6, (index + 2) % 6]);
        let revealed = states(&game).iter().filter(|&&s| s == Revealed).count();
        assert!(revealed <= 2);
        if game.cooldown() > 0 {
            assert_eq!(revealed, 2);
        }
        if n % 2 == 1 {
            game.update(COOLDOWN_MICROS, &[]);
        }
    }
}

#[test]
fn won_game_ignores_everything() {
    let mut game = MemoryGameApp::from_symbols(vec!['z', 'z']);
    game.click(0);
    game.click(1);
    game.tick(COOLDOWN_MICROS);
    assert!(game.is_won());
    game.click(0);
    game.click(1);
    game.tick(123);
    let out = game.update(456, &[0, 1, 0]);
    assert!(out.win);
    assert!(!out.request_redraw);
    assert_eq!(out.faces, vec!['z', 'z']);
    assert_eq!(states(&game), vec![Matched, Matched]);
    assert_eq!(game.moves(), 1);
    assert_eq!(game.cooldown(), 0);
    assert_eq!(game.first_selection(), None);
    assert_eq!(game.second_selection(), None);
}

#[test]
fn empty_board_is_won_at_once() {
    let mut game = MemoryGameApp::from_symbols(Vec::new());
    assert!(game.is_won());
    let out = game.update(1_000, &[0]);
    assert!(out.win);
    assert!(out.faces.is_empty());
    assert!(!out.request_redraw);
    assert_eq!(game.moves(), 0);
}

#[test]
fn equal_symbols_match_wherever_they_lie() {
    let mut game = MemoryGameApp::from_symbols(vec!['q', 'r', 'r', 'q']);
    game.click(3);
    game.click(0);
    game.tick(COOLDOWN_MICROS);
    assert_eq!(states(&game), vec![Matched, Hidden, Hidden, Matched]);
}
