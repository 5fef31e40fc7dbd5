//! The board's state machine: which clue is open, which clues are used up,
//! and which labels are hidden, updated on each pointer press.
//!
//! Labels are numbered by label position (see `mapping`): positions below
//! `NVALUE_LABELS` hold dollar values, the last six the category headers.
//! The title is not numbered and never hides.
use vstd::prelude::*;
use crate::geometry::{
    Geometry, PixelRect, Point, Size, clue_rect, contains, hit, make_box, scale, scaled,
};
use crate::mapping::{
    NSLOTS, clue_coords, is_clue_slot, label_index, slot_category, slot_row, text_to_box_coords,
};
use crate::quiz::Quiz;

verus! {

/// Label positions that hold dollar values.
pub const NVALUE_LABELS: usize = 30;

/// Whether a clue is open.
#[derive(Clone, Copy, Debug, PartialEq, Eq, Structural)]
pub enum BoardState {
    Closed,
    /// The clue behind this click slot is shown.
    ShowingClue(usize),
}

/// What a press did, for the presentation to carry out.
pub enum PressOutcome {
    /// The press hit no open clue; nothing changed.
    Ignored,
    /// The clue behind `cell` opened: show `text` over `overlay`.
    Revealed { cell: usize, overlay: PixelRect, text: String },
    /// The clue behind `cell` closed: remove its overlay.
    Dismissed { cell: usize },
}

/// The state of a board.
pub struct Board {
    state: BoardState,
    retired: Vec<bool>,
    hidden: Vec<bool>,
}

/// The state of a board: whether a clue is open, which click slots are used
/// up, and which label positions are hidden.
pub struct BoardModel {
    pub state: BoardState,
    pub retired: Seq<bool>,
    pub hidden: Seq<bool>,
}

impl View for Board {
    type V = BoardModel;

    closed spec fn view(&self) -> BoardModel {
        BoardModel { state: self.state, retired: self.retired@, hidden: self.hidden@ }
    }
}

/// No label hidden.
pub open spec fn all_shown() -> Seq<bool> {
    Seq::new(36, |m: int| false)
}

/// Every dollar value hidden, the category headers shown.
pub open spec fn values_hidden() -> Seq<bool> {
    Seq::new(36, |m: int| m < 30)
}

/// The press at `p` falls strictly inside the clue region of click slot `n`.
pub open spec fn slot_hit(n: int, size: Size, p: Point) -> bool {
    &&& is_clue_slot(n)
    &&& contains(scaled(clue_rect(slot_category(n), slot_row(n)), size), p)
}

impl BoardModel {
    pub open spec fn wf(self) -> bool {
        &&& self.retired.len() == 36
        &&& self.hidden.len() == 36
        &&& forall|n: int| 0 <= n < 36 && #[trigger] self.retired[n] ==> is_clue_slot(n)
        &&& match self.state {
            BoardState::Closed => self.hidden == all_shown(),
            BoardState::ShowingClue(c) => {
                &&& is_clue_slot(c as int)
                &&& self.retired[c as int]
                &&& self.hidden == values_hidden()
            },
        }
    }

    /// Slot `n` is still in play and the press at `p` hits it.
    pub open spec fn open_hit(self, n: int, size: Size, p: Point) -> bool {
        0 <= n < 36 && !self.retired[n] && slot_hit(n, size, p)
    }

    /// The slot that a press opens: the one in play that it hits, if any.
    pub open spec fn pressed_cell(self, size: Size, p: Option<Point>) -> Option<int> {
        if p is Some && exists|n: int| self.open_hit(n, size, p->0) {
            Some(choose|n: int| self.open_hit(n, size, p->0))
        } else {
            None
        }
    }

    /// The state after a press at `p` on a viewport of `size`.
    pub open spec fn step(self, size: Size, p: Option<Point>) -> BoardModel {
        match self.state {
            BoardState::ShowingClue(_) => BoardModel {
                state: BoardState::Closed,
                retired: self.retired,
                hidden: all_shown(),
            },
            BoardState::Closed => match self.pressed_cell(size, p) {
                Some(n) => BoardModel {
                    state: BoardState::ShowingClue(n as usize),
                    retired: self.retired.update(n, true),
                    hidden: values_hidden(),
                },
                None => self,
            },
        }
    }
}

/// Distinct clue regions share no interior point.
pub proof fn lemma_hits_disjoint(n1: int, n2: int, size: Size, p: Point)
    requires
        slot_hit(n1, size, p),
        slot_hit(n2, size, p),
    ensures
        n1 == n2,
{
    let (c1, r1) = (slot_category(n1), slot_row(n1));
    let (c2, r2) = (slot_category(n2), slot_row(n2));
    let w = size.width as int;
    let h = size.height as int;
    assert(0 <= c1 < 6 && 0 <= c2 < 6 && 0 <= r1 < 5 && 0 <= r2 < 5);
    lemma_clue_rect_scales(c1, r1, size);
    lemma_clue_rect_scales(c2, r2, size);
    if c1 < c2 {
        crate::geometry::lemma_scale_monotonic(50 * (c1 + 1), 50 * c2, w);
    } else if c2 < c1 {
        crate::geometry::lemma_scale_monotonic(50 * (c2 + 1), 50 * c1, w);
    } else if r1 < r2 {
        crate::geometry::lemma_scale_monotonic(210 - 42 * r2, 210 - 42 * (r1 + 1), h);
    } else if r2 < r1 {
        crate::geometry::lemma_scale_monotonic(210 - 42 * r1, 210 - 42 * (r2 + 1), h);
    }
}

/// From no clue open, a press inside the region of clue `c` opens `c` and
/// hides its dollar value; the next press, wherever it lands, closes it and
/// shows every label again, with `c` used up; and a press inside the region
/// of `c` after that changes nothing.
pub proof fn lemma_press_cycle(m: BoardModel, size: Size, p1: Point, p2: Point, p3: Point, c: int)
    requires
        m.wf(),
        m.state == BoardState::Closed,
        m.open_hit(c, size, p1),
        slot_hit(c, size, p3),
    ensures
        ({
            let m1 = m.step(size, Some(p1));
            let m2 = m1.step(size, Some(p2));
            &&& m1.wf()
            &&& m1.state == BoardState::ShowingClue(c as usize)
            &&& m1.hidden[label_index(c)]
            &&& forall|k: int| 30 <= k < 36 ==> !#[trigger] m1.hidden[k]
            &&& m2.wf()
            &&& m2.state == BoardState::Closed
            &&& m2.hidden == m.hidden
            &&& m2.retired[c]
            &&& m2.step(size, Some(p3)) == m2
        }),
{
    let k = choose|k: int| m.open_hit(k, size, p1);
    lemma_hits_disjoint(k, c, size, p1);
    let m1 = m.step(size, Some(p1));
    let m2 = m1.step(size, Some(p2));
    assert(label_index(c) < 30);
    if exists|n: int| m2.open_hit(n, size, p3) {
        let n = choose|n: int| m2.open_hit(n, size, p3);
        lemma_hits_disjoint(n, c, size, p3);
    }
}

/// The pixel rectangle of a clue region, written out.
proof fn lemma_clue_rect_scales(c: int, r: int, size: Size)
    requires
        0 <= c < 6,
        0 <= r < 5,
    ensures
        scaled(clue_rect(c, r), size) == (PixelRect {
            top: scale(210 - 42 * r, size.height as int) as u64,
            bottom: scale(210 - 42 * (r + 1), size.height as int) as u64,
            left: scale(50 * c, size.width as int) as u64,
            right: scale(50 * (c + 1), size.width as int) as u64,
        }),
        scale(210 - 42 * r, size.height as int) <= u64::MAX,
        scale(210 - 42 * (r + 1), size.height as int) <= u64::MAX,
        scale(50 * c, size.width as int) <= u64::MAX,
        scale(50 * (c + 1), size.width as int) <= u64::MAX,
        0 <= scale(210 - 42 * (r + 1), size.height as int),
        0 <= scale(50 * c, size.width as int),
{
    crate::geometry::lemma_scale_bounded(210 - 42 * r, size.height as int);
    crate::geometry::lemma_scale_bounded(210 - 42 * (r + 1), size.height as int);
    crate::geometry::lemma_scale_bounded(50 * c, size.width as int);
    crate::geometry::lemma_scale_bounded(50 * (c + 1), size.width as int);
}

impl Board {
    /// A fresh board: no clue open, none used, every label shown.
    pub fn new() -> (b: Board)
        ensures
            b@.wf(),
            b@.state == BoardState::Closed,
            b@.retired == Seq::new(36, |n: int| false),
    {
        let mut retired: Vec<bool> = Vec::new();
        let mut hidden: Vec<bool> = Vec::new();
        let mut i: usize = 0;
        while i < NSLOTS
            invariant
                i <= 36,
                retired@ == Seq::new(i as nat, |n: int| false),
                hidden@ == Seq::new(i as nat, |n: int| false),
            decreases 36 - i,
        {
            retired.push(false);
            hidden.push(false);
            i += 1;
            assert(retired@ =~= Seq::new(i as nat, |n: int| false));
            assert(hidden@ =~= Seq::new(i as nat, |n: int| false));
        }
        let b = Board { state: BoardState::Closed, retired, hidden };
        assert(b@.hidden =~= all_shown());
        b
    }

    pub fn state(&self) -> (r: BoardState)
        ensures
            r == self@.state,
    {
        self.state
    }

    /// Whether the label at position `m` is hidden.
    pub fn is_label_hidden(&self, m: usize) -> (r: bool)
        requires
            self@.wf(),
            m < 36,
        ensures
            r == self@.hidden[m as int],
    {
        self.hidden[m]
    }

    /// Whether the clue behind click slot `n` has been used up.
    pub fn is_retired(&self, n: usize) -> (r: bool)
        requires
            self@.wf(),
            n < 36,
        ensures
            r == self@.retired[n as int],
    {
        self.retired[n]
    }

    /// Handles one pointer press at `pointer` on a viewport of `size`.
    ///
    /// With no clue open, a press inside the region of a clue still in play
    /// opens it: the clue is used up for good, every dollar value hides, and
    /// the outcome carries the clue's text and its pixel rectangle. A press
    /// elsewhere changes nothing. With a clue open, any press closes it and
    /// shows every label again.
    pub fn press(&mut self, quiz: &Quiz, geometry: &Geometry, size: Size, pointer: Option<Point>) -> (r: PressOutcome)
        requires
            old(self)@.wf(),
            quiz@.wf(),
            geometry.wf(),
            old(self)@.state == BoardState::Closed ==> pointer is Some,
        ensures
            final(self)@.wf(),
            final(self)@ == old(self)@.step(size, pointer),
            match r {
                PressOutcome::Ignored => {
                    &&& old(self)@.state == BoardState::Closed
                    &&& old(self)@.pressed_cell(size, pointer) is None
                },
                PressOutcome::Revealed { cell, overlay, text } => {
                    &&& old(self)@.state == BoardState::Closed
                    &&& old(self)@.pressed_cell(size, pointer) == Some(cell as int)
                    &&& overlay == scaled(clue_rect(slot_category(cell as int), slot_row(cell as int)), size)
                    &&& text@ == quiz@.clues[slot_category(cell as int)][slot_row(cell as int)]
                },
                PressOutcome::Dismissed { cell } => old(self)@.state == BoardState::ShowingClue(cell),
            },
    {
        match self.state {
            BoardState::ShowingClue(cell) => {
                self.close();
                PressOutcome::Dismissed { cell }
            },
            BoardState::Closed => {
                let p = match pointer {
                    Some(p) => p,
                    None => { return PressOutcome::Ignored; },
                };
                let ghost m0 = self@;
                let mut n: usize = 0;
                while n < NSLOTS
                    invariant
                        n <= 36,
                        self@ == m0,
                        m0 == old(self)@,
                        m0.wf(),
                        m0.state == BoardState::Closed,
                        pointer == Some(p),
                        quiz@.wf(),
                        geometry.wf(),
                        forall|k: int| 0 <= k < n ==> !m0.open_hit(k, size, p),
                    decreases 36 - n,
                {
                    if n % 6 != 0 && !self.retired[n] {
                        let (c, row) = clue_coords(n);
                        let b = make_box(&size, &geometry.clues[c][row]);
                        if hit(&b, &p) {
                            proof {
                                assert(m0.open_hit(n as int, size, p));
                                let k = choose|k: int| m0.open_hit(k, size, p);
                                lemma_hits_disjoint(k, n as int, size, p);
                                assert(m0.pressed_cell(size, pointer) == Some(n as int));
                            }
                            self.open(n);
                            let text = quiz.get_clue(n).to_owned();
                            return PressOutcome::Revealed { cell: n, overlay: b, text };
                        }
                    }
                    n += 1;
                }
                PressOutcome::Ignored
            },
        }
    }

    /// Opens the clue behind click slot `cell`.
    fn open(&mut self, cell: usize)
        requires
            old(self)@.wf(),
            old(self)@.state == BoardState::Closed,
            is_clue_slot(cell as int),
        ensures
            final(self)@ == (BoardModel {
                state: BoardState::ShowingClue(cell),
                retired: old(self)@.retired.update(cell as int, true),
                hidden: values_hidden(),
            }),
    {
        proof {
            assert(label_index(cell as int) < 30);
            assert(old(self)@.hidden == all_shown());
        }
        self.retired.set(cell, true);
        match text_to_box_coords(cell as i32) {
            Some(m) => { self.hidden.set(m as usize, true); },
            None => {},
        }
        let mut m: usize = 0;
        while m < NVALUE_LABELS
            invariant
                m <= 30,
                self.hidden@.len() == 36,
                self.retired@ == old(self)@.retired.update(cell as int, true),
                forall|k: int| 0 <= k < m ==> self.hidden@[k],
                forall|k: int| 30 <= k < 36 ==> !self.hidden@[k],
            decreases 30 - m,
        {
            self.hidden.set(m, true);
            m += 1;
        }
        self.state = BoardState::ShowingClue(cell);
        assert(self.hidden@ =~= values_hidden());
    }

    /// Closes the open clue and shows every label again.
    fn close(&mut self)
        requires
            old(self)@.wf(),
            old(self)@.state is ShowingClue,
        ensures
            final(self)@ == (BoardModel {
                state: BoardState::Closed,
                retired: old(self)@.retired,
                hidden: all_shown(),
            }),
    {
        let mut m: usize = 0;
        while m < NSLOTS
            invariant
                m <= 36,
                self.hidden@.len() == 36,
                self.retired@ == old(self)@.retired,
                forall|k: int| 0 <= k < m ==> !self.hidden@[k],
            decreases 36 - m,
        {
            self.hidden.set(m, false);
            m += 1;
        }
        self.state = BoardState::Closed;
        assert(self.hidden@ =~= all_shown());
    }
}

} // verus!
