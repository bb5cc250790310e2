use crossword::Cell;
use crossword::Crossword;
use crossword::CrosswordError;
use crossword::Direction;
use crossword::Vec2;
use crossword::Word;
use crossword::decode::decode_asset;
use crossword::decode::reverse_bits;
use crossword::labels::label_at;

fn word(x: usize, y: usize, direction: Direction, clue: &str, answer: &str) -> Word {
    Word {
        position: Vec2 { x, y },
        direction,
        clue: clue.to_string(),
        answer: answer.chars().collect(),
    }
}

fn cat_cow() -> Crossword {
    Crossword::new(vec![
        word(0, 0, Direction::Across, "Feline", "CAT"),
        word(0, 0, Direction::Down, "Bovine", "COW"),
    ])
    .unwrap()
}

#[test]
fn empty_word_list_is_rejected() {
    let r = Crossword::new(vec![]);
    assert_eq!(r.unwrap_err(), CrosswordError::EmptyWordList);
}

#[test]
fn size_is_minimal_bounding_rectangle() {
    let c = cat_cow();
    let size = c.size();
    assert_eq!(size, Vec2 { x: 3, y: 3 });

    let single = Crossword::new(vec![word(2, 1, Direction::Across, "One", "AXLE")]).unwrap();
    assert_eq!(single.size(), Vec2 { x: 6, y: 2 });

    let tall = Crossword::new(vec![word(4, 3, Direction::Down, "Two", "NO")]).unwrap();
    assert_eq!(tall.size(), Vec2 { x: 5, y: 5 });
}

#[test]
fn word_contains_its_run_only() {
    let w = word(1, 2, Direction::Across, "c", "HI");
    assert!(w.contains(Vec2 { x: 1, y: 2 }));
    assert!(w.contains(Vec2 { x: 2, y: 2 }));
    assert!(!w.contains(Vec2 { x: 3, y: 2 }));
    assert!(!w.contains(Vec2 { x: 1, y: 1 }));
    assert!(!w.contains(Vec2 { x: 0, y: 2 }));
}

#[test]
fn letter_at_resolves_first_match_in_list_order() {
    let c = Crossword::new(vec![
        word(0, 0, Direction::Across, "first", "AB"),
        word(0, 0, Direction::Down, "second", "XY"),
    ])
    .unwrap();
    // Both words cover (0,0) and disagree; the first in list order wins.
    assert_eq!(c.letter_at(Vec2 { x: 0, y: 0 }), Some('A'));
    assert_eq!(c.letter_at(Vec2 { x: 0, y: 1 }), Some('Y'));
    assert_eq!(c.letter_at(Vec2 { x: 1, y: 1 }), None);
}

#[test]
fn letter_at_is_stable_across_repeated_calls() {
    let c = cat_cow();
    for y in 0..3 {
        for x in 0..3 {
            let p = Vec2 { x, y };
            let first = c.letter_at(p);
            let second = c.letter_at(p);
            assert_eq!(first, second);
        }
    }
}

#[test]
fn words_containing_lists_every_cover_in_order() {
    let c = cat_cow();
    assert_eq!(c.words_containing(Vec2 { x: 0, y: 0 }), vec![0, 1]);
    assert_eq!(c.words_containing(Vec2 { x: 1, y: 0 }), vec![0]);
    assert_eq!(c.words_containing(Vec2 { x: 0, y: 2 }), vec![1]);
    assert_eq!(c.words_containing(Vec2 { x: 2, y: 2 }), vec![]);
}

#[test]
fn starts_are_distinct_and_in_reading_order() {
    let c = Crossword::new(vec![
        word(2, 1, Direction::Across, "a", "AB"),
        word(0, 0, Direction::Down, "b", "CD"),
        word(2, 1, Direction::Down, "c", "BE"),
        word(1, 0, Direction::Across, "d", "EF"),
    ])
    .unwrap();
    let starts = c.starts();
    assert_eq!(
        starts,
        vec![
            Vec2 { x: 0, y: 0 },
            Vec2 { x: 1, y: 0 },
            Vec2 { x: 2, y: 1 },
        ]
    );
    // Labels are the 1-based indices in that order.
    assert_eq!(label_at(&starts, Vec2 { x: 0, y: 0 }), Some(1));
    assert_eq!(label_at(&starts, Vec2 { x: 1, y: 0 }), Some(2));
    assert_eq!(label_at(&starts, Vec2 { x: 2, y: 1 }), Some(3));
    assert_eq!(label_at(&starts, Vec2 { x: 2, y: 0 }), None);
}

#[test]
fn grid_matches_the_concrete_scenario() {
    // A 3x3 puzzle with Across "CAT" and Down "COW" sharing the 'C'.
    let c = cat_cow();
    let size = c.size();
    let starts = c.starts();
    let grid = c.build_grid(size, &starts);
    assert_eq!(grid.len(), 9);
    assert_eq!(grid[0], Cell::Occupied { letter: 'C', label: Some(1) });
    assert_eq!(grid[1], Cell::Occupied { letter: 'A', label: None });
    assert_eq!(grid[2], Cell::Occupied { letter: 'T', label: None });
    assert_eq!(grid[3], Cell::Occupied { letter: 'O', label: None });
    assert_eq!(grid[6], Cell::Occupied { letter: 'W', label: None });
    for k in [4, 5, 7, 8] {
        assert_eq!(grid[k], Cell::Blocked);
    }
}

#[test]
fn clue_lists_are_ordered_by_label() {
    let c = Crossword::new(vec![
        word(2, 1, Direction::Across, "late", "AB"),
        word(0, 0, Direction::Down, "early", "CD"),
        word(2, 1, Direction::Down, "shared", "BE"),
        word(1, 0, Direction::Across, "middle", "EF"),
    ])
    .unwrap();
    let starts = c.starts();
    // Across: word 3 starts at label 2, word 0 at label 3.
    assert_eq!(c.clue_list(&starts, Direction::Across), vec![3, 0]);
    // Down: word 1 starts at label 1, word 2 at label 3.
    assert_eq!(c.clue_list(&starts, Direction::Down), vec![1, 2]);
}

#[test]
fn reverse_bits_mirrors_each_byte() {
    assert_eq!(reverse_bits(0b0000_0001), 0b1000_0000);
    assert_eq!(reverse_bits(0b1000_0000), 0b0000_0001);
    assert_eq!(reverse_bits(0b1101_0010), 0b0100_1011);
    assert_eq!(reverse_bits(0x00), 0x00);
    assert_eq!(reverse_bits(0xFF), 0xFF);
}

#[test]
fn decode_asset_undoes_the_packaging_transform() {
    let original: Vec<u8> = b"CAT 0 0 across".to_vec();
    let packaged: Vec<u8> = original.iter().map(|b| b.reverse_bits()).collect();
    let decoded = decode_asset(&packaged);
    assert_eq!(decoded, original);
    // Applying the transform twice gives the input back.
    assert_eq!(decode_asset(&decode_asset(&packaged)), packaged);
}
