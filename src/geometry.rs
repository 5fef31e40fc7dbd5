//! Layout of the board in fixed grid units, and its scaling to pixels.
//!
//! One grid unit is `1 / GRID_UNITS` of the viewport's width or height. The
//! title takes the top band, the category headers the band below it, and the
//! rest splits evenly into clue rows; columns split the width evenly.
use vstd::prelude::*;
use crate::mapping::{NCATEGORIES, NCLUES};

verus! {

/// Grid units in the full width or height of the viewport.
pub const GRID_UNITS: u32 = 300;

/// Top edge of the category band (bottom edge of the title band).
pub const CATEGORY_TOP: u32 = 255;

/// Bottom edge of the category band (top edge of the first clue row).
pub const CATEGORY_BOTTOM: u32 = 210;

/// Width of one column.
pub const COLUMN_WIDTH: u32 = 50;

/// Height of one clue row.
pub const ROW_HEIGHT: u32 = 42;

/// A rectangle in grid units, measured from the bottom-left corner.
#[derive(Clone, Copy, Debug, PartialEq, Eq, Structural)]
pub struct Rect {
    pub top: u32,
    pub bottom: u32,
    pub left: u32,
    pub right: u32,
}

/// A rectangle in pixels, measured from the bottom-left corner.
#[derive(Clone, Copy, Debug, PartialEq, Eq, Structural)]
pub struct PixelRect {
    pub top: u64,
    pub bottom: u64,
    pub left: u64,
    pub right: u64,
}

/// The size of the viewport in pixels.
#[derive(Clone, Copy, Debug, PartialEq, Eq, Structural)]
pub struct Size {
    pub width: u32,
    pub height: u32,
}

/// A pointer position in pixels, measured from the bottom-left corner.
#[derive(Clone, Copy, Debug, PartialEq, Eq, Structural)]
pub struct Point {
    pub x: u64,
    pub y: u64,
}

pub open spec fn rect(top: int, bottom: int, left: int, right: int) -> Rect {
    Rect { top: top as u32, bottom: bottom as u32, left: left as u32, right: right as u32 }
}

/// The title band: full width, from the top edge down to the categories.
pub open spec fn title_rect() -> Rect {
    rect(300, 255, 0, 300)
}

/// The header of category `i`.
pub open spec fn category_rect(i: int) -> Rect {
    rect(255, 210, 50 * i, 50 * (i + 1))
}

/// The clue at row `j` (0 is the top row) of category `i`.
pub open spec fn clue_rect(i: int, j: int) -> Rect {
    rect(210 - 42 * j, 210 - 42 * (j + 1), 50 * i, 50 * (i + 1))
}

/// One coordinate scaled from grid units to pixels, rounded down.
pub open spec fn scale(v: int, extent: int) -> int {
    v * extent / 300
}

pub open spec fn scaled(r: Rect, size: Size) -> PixelRect {
    PixelRect {
        top: scale(r.top as int, size.height as int) as u64,
        bottom: scale(r.bottom as int, size.height as int) as u64,
        left: scale(r.left as int, size.width as int) as u64,
        right: scale(r.right as int, size.width as int) as u64,
    }
}

/// The point lies strictly inside the rectangle.
pub open spec fn contains(r: PixelRect, p: Point) -> bool {
    r.left < p.x < r.right && r.bottom < p.y < r.top
}

/// The layout of the whole board.
pub struct Geometry {
    pub title: Rect,
    pub categories: Vec<Rect>,
    pub clues: Vec<Vec<Rect>>,
}

impl Geometry {
    /// Holds the one layout of a six-by-five board.
    pub open spec fn wf(&self) -> bool {
        &&& self.title == title_rect()
        &&& self.categories@.len() == 6
        &&& self.clues@.len() == 6
        &&& forall|i: int| 0 <= i < 6 ==> #[trigger] self.categories@[i] == category_rect(i)
        &&& forall|i: int| 0 <= i < 6 ==> #[trigger] self.clues@[i]@.len() == 5
        &&& forall|i: int, j: int|
            0 <= i < 6 && 0 <= j < 5 ==> #[trigger] self.clues@[i]@[j] == clue_rect(i, j)
    }
}

impl Default for Geometry {
    /// Computes the layout.
    fn default() -> (g: Geometry)
        ensures
            g.wf(),
    {
        let title = Rect { top: GRID_UNITS, bottom: CATEGORY_TOP, left: 0, right: GRID_UNITS };
        let mut categories: Vec<Rect> = Vec::new();
        let mut clues: Vec<Vec<Rect>> = Vec::new();
        let mut i: usize = 0;
        while i < NCATEGORIES
            invariant
                i <= 6,
                categories@.len() == i,
                clues@.len() == i,
                forall|k: int| 0 <= k < i ==> #[trigger] categories@[k] == category_rect(k),
                forall|k: int| 0 <= k < i ==> #[trigger] clues@[k]@.len() == 5,
                forall|k: int, j: int|
                    0 <= k < i && 0 <= j < 5 ==> #[trigger] clues@[k]@[j] == clue_rect(k, j),
            decreases 6 - i,
        {
            let left = COLUMN_WIDTH * i as u32;
            let right = COLUMN_WIDTH * (i as u32 + 1);
            categories.push(Rect { top: CATEGORY_TOP, bottom: CATEGORY_BOTTOM, left, right });
            let mut column: Vec<Rect> = Vec::new();
            let mut j: usize = 0;
            while j < NCLUES
                invariant
                    i < 6,
                    j <= 5,
                    left == 50 * i,
                    right == 50 * (i + 1),
                    column@.len() == j,
                    forall|k: int| 0 <= k < j ==> #[trigger] column@[k] == clue_rect(i as int, k),
                decreases 5 - j,
            {
                let top = CATEGORY_BOTTOM - ROW_HEIGHT * j as u32;
                let bottom = CATEGORY_BOTTOM - ROW_HEIGHT * (j as u32 + 1);
                column.push(Rect { top, bottom, left, right });
                j += 1;
            }
            clues.push(column);
            i += 1;
        }
        Geometry { title, categories, clues }
    }
}

/// Scales a rectangle from grid units to the pixels of a viewport.
pub fn make_box(size: &Size, raw: &Rect) -> (r: PixelRect)
    ensures
        r == scaled(*raw, *size),
{
    proof {
        scale_fits(raw.top as int, size.height as int);
        scale_fits(raw.bottom as int, size.height as int);
        scale_fits(raw.left as int, size.width as int);
        scale_fits(raw.right as int, size.width as int);
    }
    PixelRect {
        top: raw.top as u64 * size.height as u64 / 300,
        bottom: raw.bottom as u64 * size.height as u64 / 300,
        left: raw.left as u64 * size.width as u64 / 300,
        right: raw.right as u64 * size.width as u64 / 300,
    }
}

/// Tests whether a pointer position lies strictly inside a pixel rectangle.
pub fn hit(r: &PixelRect, p: &Point) -> (b: bool)
    ensures
        b == contains(*r, *p),
{
    r.left < p.x && p.x < r.right && r.bottom < p.y && p.y < r.top
}

proof fn scale_fits(v: int, extent: int)
    requires
        0 <= v <= u32::MAX,
        0 <= extent <= u32::MAX,
    ensures
        0 <= v * extent <= u64::MAX,
        0 <= scale(v, extent) <= u64::MAX,
{
    assert(0 <= v * extent <= u32::MAX * u32::MAX) by (nonlinear_arith)
        requires
            0 <= v <= u32::MAX,
            0 <= extent <= u32::MAX,
    ;
}

/// Scaling keeps the order of coordinates.
pub proof fn lemma_scale_monotonic(a: int, b: int, extent: int)
    requires
        0 <= a <= b,
        0 <= extent,
    ensures
        scale(a, extent) <= scale(b, extent),
{
    assert(a * extent <= b * extent) by (nonlinear_arith)
        requires
            0 <= a <= b,
            0 <= extent,
    ;
    vstd::arithmetic::div_mod::lemma_div_is_ordered(a * extent, b * extent, 300);
}

/// A coordinate within the grid scales to a pixel within the extent.
pub proof fn lemma_scale_bounded(v: int, extent: int)
    requires
        0 <= v <= 300,
        0 <= extent,
    ensures
        0 <= scale(v, extent) <= extent,
{
    lemma_scale_monotonic(v, 300, extent);
    lemma_scale_monotonic(0, v, extent);
}

/// The category headers split the full width into equal columns, side by
/// side without gap or overlap, all within the category band; the clue rows
/// of every column split the band below the headers down to the bottom edge
/// into equal rows, again without gap or overlap.
pub proof fn lemma_layout_partitions(g: &Geometry)
    requires
        g.wf(),
    ensures
        g.categories@[0].left == 0,
        g.categories@[5].right == GRID_UNITS,
        forall|i: int| 0 <= i < 5 ==> #[trigger] g.categories@[i].right == g.categories@[i + 1].left,
        forall|i: int|
            0 <= i < 6 ==> {
                let c = #[trigger] g.categories@[i];
                &&& c.right - c.left == COLUMN_WIDTH
                &&& c.top == g.title.bottom
                &&& c.bottom == CATEGORY_BOTTOM
            },
        forall|i: int| 0 <= i < 6 ==> (#[trigger] g.clues@[i])@[0].top == g.categories@[i].bottom,
        forall|i: int| 0 <= i < 6 ==> (#[trigger] g.clues@[i])@[4].bottom == 0,
        forall|i: int, j: int|
            0 <= i < 6 && 0 <= j < 4 ==> (#[trigger] g.clues@[i]@[j]).bottom == g.clues@[i]@[j + 1].top,
        forall|i: int, j: int|
            0 <= i < 6 && 0 <= j < 5 ==> {
                let r = #[trigger] g.clues@[i]@[j];
                &&& r.top - r.bottom == ROW_HEIGHT
                &&& r.left == g.categories@[i].left
                &&& r.right == g.categories@[i].right
            },
{
    assert(g.categories@[0] == category_rect(0));
    assert(g.categories@[5] == category_rect(5));
    assert forall|i: int| 0 <= i < 5 implies #[trigger] g.categories@[i].right == g.categories@[i + 1].left by {
        assert(g.categories@[i] == category_rect(i));
        assert(g.categories@[i + 1] == category_rect(i + 1));
    }
    assert forall|i: int| 0 <= i < 6 implies (#[trigger] g.clues@[i])@[0].top == g.categories@[i].bottom by {
        assert(g.clues@[i]@[0] == clue_rect(i, 0));
    }
    assert forall|i: int| 0 <= i < 6 implies (#[trigger] g.clues@[i])@[4].bottom == 0 by {
        assert(g.clues@[i]@[4] == clue_rect(i, 4));
    }
    assert forall|i: int, j: int|
        0 <= i < 6 && 0 <= j < 4 implies (#[trigger] g.clues@[i]@[j]).bottom == g.clues@[i]@[j + 1].top by {
        assert(g.clues@[i]@[j] == clue_rect(i, j));
        assert(g.clues@[i]@[j + 1] == clue_rect(i, j + 1));
    }
}

} // verus!
