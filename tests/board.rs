use jeopardy::board::{Board, BoardState, PressOutcome};
use jeopardy::geometry::{Geometry, PixelRect, Point, Size};
use jeopardy::mapping::{clue_coords, text_to_box_coords};
use jeopardy::quiz::{clue_value, CategorySource, Quiz, QuizSource};

const SIZE: Size = Size { width: 1800, height: 1000 };

fn test_quiz() -> Quiz {
    let categories = ["A", "B", "C", "D", "E", "F"]
        .iter()
        .map(|n| CategorySource {
            name: n.to_string(),
            clues: (1..=5).map(|k| Some(format!("{} for ${}", n, 200 * k))).collect(),
        })
        .collect();
    Quiz::load(&QuizSource { name: Some("Test".to_string()), categories }).unwrap()
}

// Inside the clue at category 2, row 3: pixels 600..900 across, 140..280 up.
const CELL_2_3: Point = Point { x: 750, y: 210 };

fn hidden_labels(b: &Board) -> Vec<usize> {
    (0..36).filter(|m| b.is_label_hidden(*m)).collect()
}

#[test]
fn press_reveals_and_second_press_restores() {
    let quiz = test_quiz();
    let g = Geometry::default();
    let mut b = Board::new();
    assert_eq!(b.state(), BoardState::Closed);
    let label = text_to_box_coords(16).unwrap() as usize;
    assert!(!b.is_label_hidden(label));

    match b.press(&quiz, &g, SIZE, Some(CELL_2_3)) {
        PressOutcome::Revealed { cell, overlay, text } => {
            assert_eq!(cell, 16);
            assert_eq!(clue_coords(cell), (2, 3));
            assert_eq!(clue_value(clue_coords(cell).1), 800);
            assert_eq!(text, "C for $800");
            assert_eq!(overlay, PixelRect { top: 280, bottom: 140, left: 600, right: 900 });
        }
        _ => panic!("the press should open the clue"),
    }
    assert_eq!(b.state(), BoardState::ShowingClue(16));
    assert_eq!(label, 8);
    assert!(b.is_label_hidden(label));
    assert_eq!(hidden_labels(&b), (0..30).collect::<Vec<usize>>());

    match b.press(&quiz, &g, SIZE, Some(Point { x: 5, y: 5 })) {
        PressOutcome::Dismissed { cell } => assert_eq!(cell, 16),
        _ => panic!("the press should close the clue"),
    }
    assert_eq!(b.state(), BoardState::Closed);
    assert!(!b.is_label_hidden(label));
    assert!(hidden_labels(&b).is_empty());
}

#[test]
fn used_clue_stays_inert() {
    let quiz = test_quiz();
    let g = Geometry::default();
    let mut b = Board::new();
    assert!(matches!(b.press(&quiz, &g, SIZE, Some(CELL_2_3)), PressOutcome::Revealed { .. }));
    assert!(matches!(b.press(&quiz, &g, SIZE, Some(CELL_2_3)), PressOutcome::Dismissed { cell: 16 }));
    assert!(b.is_retired(16));
    assert!(matches!(b.press(&quiz, &g, SIZE, Some(CELL_2_3)), PressOutcome::Ignored));
    assert_eq!(b.state(), BoardState::Closed);
    assert!(hidden_labels(&b).is_empty());
}

#[test]
fn dismissing_needs_no_pointer() {
    let quiz = test_quiz();
    let g = Geometry::default();
    let mut b = Board::new();
    assert!(matches!(b.press(&quiz, &g, SIZE, Some(CELL_2_3)), PressOutcome::Revealed { .. }));
    assert!(matches!(b.press(&quiz, &g, SIZE, None), PressOutcome::Dismissed { cell: 16 }));
}

#[test]
fn press_on_header_or_title_is_ignored() {
    let quiz = test_quiz();
    let g = Geometry::default();
    let mut b = Board::new();
    // Category header band: 700..850 pixels up.
    assert!(matches!(b.press(&quiz, &g, SIZE, Some(Point { x: 750, y: 800 })), PressOutcome::Ignored));
    // Title band.
    assert!(matches!(b.press(&quiz, &g, SIZE, Some(Point { x: 750, y: 950 })), PressOutcome::Ignored));
    assert_eq!(b.state(), BoardState::Closed);
    assert!((0..36).all(|n| !b.is_retired(n)));
}

#[test]
fn press_on_a_border_is_ignored() {
    let quiz = test_quiz();
    let g = Geometry::default();
    let mut b = Board::new();
    // The edge between columns 1 and 2.
    assert!(matches!(b.press(&quiz, &g, SIZE, Some(Point { x: 600, y: 210 })), PressOutcome::Ignored));
    // The edge between rows 2 and 3.
    assert!(matches!(b.press(&quiz, &g, SIZE, Some(Point { x: 750, y: 280 })), PressOutcome::Ignored));
}

#[test]
fn each_corner_clue_opens() {
    let quiz = test_quiz();
    let g = Geometry::default();
    let mut b = Board::new();
    // Top row of the first column is the $200 clue.
    match b.press(&quiz, &g, SIZE, Some(Point { x: 10, y: 650 })) {
        PressOutcome::Revealed { cell, text, .. } => {
            assert_eq!(cell, 1);
            assert_eq!(text, "A for $200");
        }
        _ => panic!("the press should open the clue"),
    }
    b.press(&quiz, &g, SIZE, None);
    match b.press(&quiz, &g, SIZE, Some(Point { x: 1790, y: 10 })) {
        PressOutcome::Revealed { cell, text, .. } => {
            assert_eq!(cell, 35);
            assert_eq!(text, "F for $1000");
        }
        _ => panic!("the press should open the clue"),
    }
}
