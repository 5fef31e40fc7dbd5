//! Index arithmetic between click slots, label positions and board cells.
//!
//! Click slots run column by column: each category owns six consecutive
//! slots, the first of which is its (non-clickable) header. Labels run row by
//! row, starting with the most valuable row and ending with the headers.
use vstd::prelude::*;

verus! {

/// Number of categories (columns) on the board.
pub const NCATEGORIES: usize = 6;

/// Number of clues (rows) in each category.
pub const NCLUES: usize = 5;

/// Number of click slots, and of labels below the title.
pub const NSLOTS: usize = 36;

/// A slot is clickable unless it is the header slot of its category.
pub open spec fn is_clue_slot(n: int) -> bool {
    0 <= n < 36 && n % 6 != 0
}

/// The category of a click slot.
pub open spec fn slot_category(n: int) -> int {
    n / 6
}

/// The clue row of a clickable slot; 0 is the cheapest clue.
pub open spec fn slot_row(n: int) -> int {
    n % 6 - 1
}

/// The click slot of the clue at `(category, row)`.
pub open spec fn clue_slot(category: int, row: int) -> int {
    6 * category + row + 1
}

/// The label position of the element that belongs to click slot `n`.
pub open spec fn label_index(n: int) -> int {
    6 * (5 - n % 6) + n / 6
}

/// The click slot that owns the label at position `m`.
pub open spec fn label_slot(m: int) -> int {
    6 * (m % 6) + 5 - m / 6
}

/// Returns `(category, row)` of a clickable slot.
pub fn clue_coords(n: usize) -> (r: (usize, usize))
    requires
        is_clue_slot(n as int),
    ensures
        r.0 as int == slot_category(n as int),
        r.1 as int == slot_row(n as int),
        r.0 < NCATEGORIES,
        r.1 < NCLUES,
        clue_slot(r.0 as int, r.1 as int) == n,
{
    (n / 6, n % 6 - 1)
}

/// Returns the label position that belongs to click slot `n`, or nothing
/// when `n` is not a slot.
pub fn text_to_box_coords(n: i32) -> (r: Option<i32>)
    ensures
        0 <= n < 36 ==> r == Some(label_index(n as int) as i32),
        !(0 <= n < 36) ==> r is None,
{
    if 0 <= n && n <= 35 {
        Some(6 * (5 - n % 6) + n / 6)
    } else {
        None
    }
}

/// The label position maps the slots one to one onto the label positions:
/// every slot lands on a position, distinct slots on distinct positions, and
/// every position is reached from the slot `label_slot` names.
pub proof fn lemma_label_index_bijective()
    ensures
        forall|n: int| 0 <= n < 36 ==> 0 <= #[trigger] label_index(n) < 36,
        forall|n: int| 0 <= n < 36 ==> #[trigger] label_slot(label_index(n)) == n,
        forall|m: int| 0 <= m < 36 ==> 0 <= #[trigger] label_slot(m) < 36,
        forall|m: int| 0 <= m < 36 ==> #[trigger] label_index(label_slot(m)) == m,
        forall|n1: int, n2: int|
            0 <= n1 < 36 && 0 <= n2 < 36 && #[trigger] label_index(n1) == #[trigger] label_index(n2)
                ==> n1 == n2,
{
    assert forall|n: int| 0 <= n < 36 implies #[trigger] label_slot(label_index(n)) == n by {
        let k = label_index(n);
        assert(k % 6 == n / 6 && k / 6 == 5 - n % 6);
    }
    assert forall|m: int| 0 <= m < 36 implies #[trigger] label_index(label_slot(m)) == m by {
        let s = label_slot(m);
        assert(s % 6 == 5 - m / 6 && s / 6 == m % 6);
    }
    assert forall|n1: int, n2: int|
        0 <= n1 < 36 && 0 <= n2 < 36 && #[trigger] label_index(n1) == #[trigger] label_index(n2)
        implies n1 == n2 by {
        assert(label_slot(label_index(n1)) == n1);
        assert(label_slot(label_index(n2)) == n2);
    }
}

} // verus!
