use jeopardy::mapping::{clue_coords, text_to_box_coords};

#[test]
fn clue_coords_of_every_clue_slot() {
    for n in 0..36usize {
        if n % 6 != 0 {
            let (c, r) = clue_coords(n);
            assert_eq!((c, r), (n / 6, n % 6 - 1));
            assert!(c < 6 && r < 5);
        }
    }
    assert_eq!(clue_coords(1), (0, 0));
    assert_eq!(clue_coords(16), (2, 3));
    assert_eq!(clue_coords(35), (5, 4));
}

#[test]
fn label_index_golden_values() {
    assert_eq!(text_to_box_coords(0), Some(30));
    assert_eq!(text_to_box_coords(1), Some(24));
    assert_eq!(text_to_box_coords(6), Some(31));
    assert_eq!(text_to_box_coords(35), Some(5));
    assert_eq!(text_to_box_coords(16), Some(8));
}

#[test]
fn label_index_out_of_range() {
    assert_eq!(text_to_box_coords(-1), None);
    assert_eq!(text_to_box_coords(36), None);
    assert_eq!(text_to_box_coords(i32::MAX), None);
    assert_eq!(text_to_box_coords(i32::MIN), None);
}

#[test]
fn label_index_is_a_bijection() {
    let mut seen = [false; 36];
    for n in 0..36 {
        let m = text_to_box_coords(n).unwrap();
        assert!((0..36).contains(&m));
        assert!(!seen[m as usize]);
        seen[m as usize] = true;
    }
    assert!(seen.iter().all(|b| *b));
}

#[test]
fn label_index_is_not_an_involution() {
    let once = text_to_box_coords(1).unwrap();
    assert_eq!(text_to_box_coords(once), Some(6 * (5 - 24 % 6) + 24 / 6));
    assert_ne!(text_to_box_coords(once), Some(1));
}
