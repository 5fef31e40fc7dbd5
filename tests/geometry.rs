use jeopardy::geometry::{hit, make_box, Geometry, PixelRect, Point, Rect, Size, GRID_UNITS};

#[test]
fn layout_of_the_board() {
    let g = Geometry::default();
    assert_eq!(g.title, Rect { top: 300, bottom: 255, left: 0, right: 300 });
    assert_eq!(g.categories.len(), 6);
    assert_eq!(g.categories[0].left, 0);
    assert_eq!(g.categories[5].right, GRID_UNITS);
    for i in 0..6 {
        let c = g.categories[i];
        assert_eq!((c.top, c.bottom), (255, 210));
        assert_eq!(c.right - c.left, 50);
        if i < 5 {
            assert_eq!(c.right, g.categories[i + 1].left);
        }
        assert_eq!(g.clues[i].len(), 5);
        assert_eq!(g.clues[i][0].top, c.bottom);
        assert_eq!(g.clues[i][4].bottom, 0);
        for j in 0..5 {
            let r = g.clues[i][j];
            assert_eq!(r.top - r.bottom, 42);
            assert_eq!((r.left, r.right), (c.left, c.right));
            if j < 4 {
                assert_eq!(r.bottom, g.clues[i][j + 1].top);
            }
        }
    }
    assert_eq!(g.clues[2][3], Rect { top: 84, bottom: 42, left: 100, right: 150 });
}

#[test]
fn scaling_to_pixels() {
    let size = Size { width: 1800, height: 1000 };
    let r = make_box(&size, &Rect { top: 84, bottom: 42, left: 100, right: 150 });
    assert_eq!(r, PixelRect { top: 280, bottom: 140, left: 600, right: 900 });
    let title = make_box(&size, &Rect { top: 300, bottom: 255, left: 0, right: 300 });
    assert_eq!(title, PixelRect { top: 1000, bottom: 850, left: 0, right: 1800 });
}

#[test]
fn scaling_rounds_down() {
    let size = Size { width: 7, height: 10 };
    let r = make_box(&size, &Rect { top: 100, bottom: 50, left: 50, right: 100 });
    assert_eq!(r, PixelRect { top: 3, bottom: 1, left: 1, right: 2 });
}

#[test]
fn scaling_the_largest_viewport() {
    let size = Size { width: u32::MAX, height: u32::MAX };
    let r = make_box(&size, &Rect { top: 300, bottom: 0, left: 0, right: 300 });
    assert_eq!(r.top, u32::MAX as u64);
    assert_eq!(r.right, u32::MAX as u64);
}

#[test]
fn hit_is_strict() {
    let r = PixelRect { top: 280, bottom: 140, left: 600, right: 900 };
    assert!(hit(&r, &Point { x: 750, y: 210 }));
    assert!(hit(&r, &Point { x: 601, y: 279 }));
    assert!(!hit(&r, &Point { x: 600, y: 210 }));
    assert!(!hit(&r, &Point { x: 900, y: 210 }));
    assert!(!hit(&r, &Point { x: 750, y: 140 }));
    assert!(!hit(&r, &Point { x: 750, y: 280 }));
}
