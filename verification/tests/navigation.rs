use crossword::Crossword;
use crossword::Direction;
use crossword::Vec2;
use crossword::Word;
use crossword::session::key_letter;
use crossword::session::Input;
use crossword::session::Session;

fn word(x: usize, y: usize, direction: Direction, clue: &str, answer: &str) -> Word {
    Word {
        position: Vec2 { x, y },
        direction,
        clue: clue.to_string(),
        answer: answer.chars().collect(),
    }
}

/// The 3x3 puzzle with Across "CAT" and Down "COW" sharing the 'C'.
///
/// ```text
/// C A T
/// O . .
/// W . .
/// ```
fn cat_cow_session() -> Session {
    let c = Crossword::new(vec![
        word(0, 0, Direction::Across, "Feline", "CAT"),
        word(0, 0, Direction::Down, "Bovine", "COW"),
    ])
    .unwrap();
    Session::new(c)
}

#[test]
fn fresh_session_is_idle_and_blank() {
    let s = cat_cow_session();
    assert_eq!(s.selected, None);
    assert_eq!(s.last_direction, None);
    assert!(s.solution.iter().all(|entry| entry.is_none()));
    assert!(!s.is_complete());
    assert!(!s.is_correct());
}

#[test]
fn keys_are_ignored_while_nothing_is_selected() {
    let mut s = cat_cow_session();
    assert!(!s.handle_key(Input::Letter('C')));
    assert!(!s.handle_key(Input::ArrowRight));
    assert_eq!(s.selected, None);
    assert!(s.solution.iter().all(|entry| entry.is_none()));
}

#[test]
fn select_toggles_and_blocked_deselects() {
    let mut s = cat_cow_session();
    s.select_cell(0);
    assert_eq!(s.selected, Some(0));
    s.select_cell(1);
    assert_eq!(s.selected, Some(1));
    s.select_cell(1);
    assert_eq!(s.selected, None);
    s.select_cell(1);
    s.select_cell(4);
    assert_eq!(s.selected, None);
}

#[test]
fn escape_deselects_and_keeps_the_direction() {
    let mut s = cat_cow_session();
    s.select_cell(0);
    s.handle_key(Input::ArrowRight);
    assert_eq!(s.last_direction, Some(Direction::Across));
    s.handle_key(Input::Escape);
    assert_eq!(s.selected, None);
    assert_eq!(s.last_direction, Some(Direction::Across));
}

#[test]
fn arrows_move_and_remember_their_direction() {
    let mut s = cat_cow_session();
    s.select_cell(0);
    assert!(!s.handle_key(Input::ArrowRight));
    assert_eq!(s.selected, Some(1));
    assert_eq!(s.last_direction, Some(Direction::Across));
    s.handle_key(Input::ArrowLeft);
    assert_eq!(s.selected, Some(0));
    s.handle_key(Input::ArrowDown);
    assert_eq!(s.selected, Some(3));
    assert_eq!(s.last_direction, Some(Direction::Down));
    s.handle_key(Input::ArrowUp);
    assert_eq!(s.selected, Some(0));
}

#[test]
fn edge_violating_moves_are_no_ops() {
    let mut s = cat_cow_session();
    s.select_cell(0);
    s.handle_key(Input::ArrowLeft);
    assert_eq!((s.selected, s.last_direction), (Some(0), None));
    s.handle_key(Input::ArrowUp);
    assert_eq!((s.selected, s.last_direction), (Some(0), None));
    s.select_cell(2);
    s.handle_key(Input::ArrowRight);
    assert_eq!((s.selected, s.last_direction), (Some(2), None));
    s.select_cell(6);
    s.handle_key(Input::ArrowDown);
    assert_eq!((s.selected, s.last_direction), (Some(6), None));
}

#[test]
fn moves_into_blocked_cells_are_no_ops() {
    let mut s = cat_cow_session();
    s.select_cell(1);
    s.handle_key(Input::ArrowDown);
    assert_eq!((s.selected, s.last_direction), (Some(1), None));
    s.select_cell(3);
    s.handle_key(Input::ArrowRight);
    assert_eq!((s.selected, s.last_direction), (Some(3), None));
}

#[test]
fn typing_advances_along_the_first_word_in_list_order() {
    let mut s = cat_cow_session();
    s.select_cell(0);
    // No direction is remembered yet, so the Across word, first in list
    // order, governs the advance.
    assert!(s.handle_key(Input::Letter('C')));
    assert_eq!(s.solution[0], Some('C'));
    assert_eq!(s.selected, Some(1));
    assert_eq!(s.last_direction, Some(Direction::Across));
    s.handle_key(Input::Letter('A'));
    assert_eq!(s.solution[1], Some('A'));
    assert_eq!(s.selected, Some(2));
}

#[test]
fn typing_prefers_the_remembered_direction_at_a_crossing() {
    let mut s = cat_cow_session();
    s.select_cell(0);
    s.handle_key(Input::ArrowDown);
    assert_eq!(s.last_direction, Some(Direction::Down));
    s.select_cell(0);
    assert_eq!(s.last_direction, Some(Direction::Down));
    s.handle_key(Input::Letter('C'));
    assert_eq!(s.solution[0], Some('C'));
    assert_eq!(s.selected, Some(3));
}

#[test]
fn typing_at_a_word_end_writes_but_stays_put() {
    let mut s = cat_cow_session();
    s.select_cell(2);
    assert!(s.handle_key(Input::Letter('T')));
    assert_eq!(s.solution[2], Some('T'));
    assert_eq!(s.selected, Some(2));
}

#[test]
fn write_then_delete_at_a_word_end_restores_the_store() {
    let mut s = cat_cow_session();
    s.select_cell(2);
    s.handle_key(Input::Letter('X'));
    assert_eq!(s.solution[2], Some('X'));
    assert!(s.handle_key(Input::Backspace));
    assert_eq!(s.solution[2], None);
    assert!(s.solution.iter().all(|entry| entry.is_none()));
    // The retreat moved the selection back along the word.
    assert_eq!(s.selected, Some(1));
}

#[test]
fn write_then_delete_mid_word_clears_the_advanced_cell() {
    // The Next/Previous asymmetry: the write advances first, so the delete
    // lands on the advanced cell and the written letter survives.
    let mut s = cat_cow_session();
    s.select_cell(0);
    s.handle_key(Input::Letter('C'));
    assert_eq!(s.selected, Some(1));
    s.handle_key(Input::Backspace);
    assert_eq!(s.solution[0], Some('C'));
    assert_eq!(s.solution[1], None);
    assert_eq!(s.selected, Some(0));
}

#[test]
fn completeness_and_correctness_track_the_grid() {
    let mut s = cat_cow_session();
    s.select_cell(0);
    for c in ['C', 'A', 'T'] {
        s.handle_key(Input::Letter(c));
    }
    assert!(!s.is_complete());
    assert!(!s.is_correct());
    s.select_cell(3);
    s.handle_key(Input::Letter('O'));
    s.handle_key(Input::Letter('W'));
    assert!(s.is_complete());
    assert!(s.is_correct());
}

#[test]
fn a_complete_store_with_a_wrong_letter_is_incorrect() {
    let mut s = cat_cow_session();
    s.select_cell(0);
    for c in ['C', 'A', 'X'] {
        s.handle_key(Input::Letter(c));
    }
    s.select_cell(3);
    s.handle_key(Input::Letter('O'));
    s.handle_key(Input::Letter('W'));
    assert!(s.is_complete());
    assert!(!s.is_correct());
}

#[test]
fn snapshot_lists_exactly_the_occupied_cells() {
    let mut s = cat_cow_session();
    s.select_cell(0);
    s.handle_key(Input::Letter('C'));
    let snapshot = s.solution_snapshot();
    assert_eq!(
        snapshot,
        vec![
            (0, Some('C')),
            (1, None),
            (2, None),
            (3, None),
            (6, None),
        ]
    );
}

#[test]
fn key_letter_uppercases_ascii_letters_only() {
    assert_eq!(key_letter('c'), Some('C'));
    assert_eq!(key_letter('z'), Some('Z'));
    assert_eq!(key_letter('Q'), Some('Q'));
    assert_eq!(key_letter('3'), None);
    assert_eq!(key_letter(' '), None);
    assert_eq!(key_letter('\u{00e9}'), None);
}
