use vstd::prelude::*;
use crate::NUM_COLS;
use crate::NUM_ROWS;
use crate::frame::Frame;
use crate::frame::in_bounds;

verus! {

/// One terminal write: put `glyph` at column `x`, row `y`.
#[derive(Clone, Copy, Debug, PartialEq, Eq, Structural)]
pub struct CellWrite {
    pub x: usize,
    pub y: usize,
    pub glyph: char,
}

/// Whether one pass emits the cell at `(x, y)`: always on a forced repaint,
/// otherwise exactly when the glyph changed.
pub open spec fn cell_written(prev: Frame, curr: Frame, force: bool, x: int, y: int) -> bool {
    force || curr.at(x, y) != prev.at(x, y)
}

/// The write emitted for the cell at `(x, y)`.
pub open spec fn write_at(curr: Frame, x: int, y: int) -> CellWrite {
    CellWrite { x: x as usize, y: y as usize, glyph: curr.at(x, y) }
}

/// The writes emitted for column `x`, rows under `y`, top to bottom.
pub open spec fn writes_col(prev: Frame, curr: Frame, force: bool, x: int, y: int) -> Seq<
    CellWrite,
>
    decreases y,
{
    if y <= 0 {
        Seq::<CellWrite>::empty()
    } else {
        writes_col(prev, curr, force, x, y - 1) + if cell_written(prev, curr, force, x, y - 1) {
            seq![write_at(curr, x, y - 1)]
        } else {
            Seq::<CellWrite>::empty()
        }
    }
}

/// The writes emitted for the columns left of `x`, column-major.
pub open spec fn writes_upto(prev: Frame, curr: Frame, force: bool, x: int) -> Seq<CellWrite>
    decreases x,
{
    if x <= 0 {
        Seq::<CellWrite>::empty()
    } else {
        writes_upto(prev, curr, force, x - 1) + writes_col(prev, curr, force, x - 1, NUM_ROWS as int)
    }
}

/// Every write one pass over the whole grid emits, in emission order:
/// column-major, `x` outer, `y` inner.
pub open spec fn writes(prev: Frame, curr: Frame, force: bool) -> Seq<CellWrite> {
    writes_upto(prev, curr, force, NUM_COLS as int)
}

/// Diff `curr` against `prev` and return exactly the cells a terminal must
/// repaint, in column-major order: every cell when `force` is set, otherwise
/// only the cells whose glyph changed.
#[verifier::loop_isolation(false)]
pub fn render(prev: &Frame, curr: &Frame, force: bool) -> (out: Vec<CellWrite>)
    requires
        prev.wf(),
        curr.wf(),
    ensures
        out@ == writes(*prev, *curr, force),
{
    let mut out: Vec<CellWrite> = Vec::new();
    let mut x: usize = 0;
    while x < NUM_COLS
        invariant
            x <= NUM_COLS,
            out@ == writes_upto(*prev, *curr, force, x as int),
        decreases NUM_COLS - x,
    {
        let mut y: usize = 0;
        while y < NUM_ROWS
            invariant
                x < NUM_COLS,
                y <= NUM_ROWS,
                out@ == writes_upto(*prev, *curr, force, x as int) + writes_col(
                    *prev,
                    *curr,
                    force,
                    x as int,
                    y as int,
                ),
            decreases NUM_ROWS - y,
        {
            let glyph = curr.get(x, y);
            if force || glyph != prev.get(x, y) {
                out.push(CellWrite { x, y, glyph });
            }
            proof {
                assert(out@ =~= writes_upto(*prev, *curr, force, x as int) + writes_col(
                    *prev,
                    *curr,
                    force,
                    x as int,
                    y + 1,
                ));
            }
            y = y + 1;
        }
        x = x + 1;
    }
    out
}

proof fn lemma_writes_col_force_len(prev: Frame, curr: Frame, x: int, y: int)
    requires
        y >= 0,
    ensures
        writes_col(prev, curr, true, x, y).len() == y,
    decreases y,
{
    if y > 0 {
        lemma_writes_col_force_len(prev, curr, x, y - 1);
    }
}

proof fn lemma_writes_upto_force_len(prev: Frame, curr: Frame, x: int)
    requires
        x >= 0,
    ensures
        writes_upto(prev, curr, true, x).len() == x * NUM_ROWS,
    decreases x,
{
    if x > 0 {
        lemma_writes_upto_force_len(prev, curr, x - 1);
        lemma_writes_col_force_len(prev, curr, x - 1, NUM_ROWS as int);
        assert((x - 1) * NUM_ROWS + NUM_ROWS == x * NUM_ROWS) by (nonlinear_arith);
    }
}

/// A forced repaint emits every cell of the grid, whatever the two frames
/// hold: exactly width times height writes.
pub proof fn lemma_render_force_writes_all(prev: Frame, curr: Frame)
    ensures
        writes(prev, curr, true).len() == NUM_COLS * NUM_ROWS,
{
    lemma_writes_upto_force_len(prev, curr, NUM_COLS as int);
}

proof fn lemma_writes_col_same_none(prev: Frame, curr: Frame, x: int, y: int)
    requires
        0 <= x < NUM_COLS,
        0 <= y <= NUM_ROWS,
        forall|i: int, j: int| in_bounds(i, j) ==> curr.at(i, j) == prev.at(i, j),
    ensures
        writes_col(prev, curr, false, x, y).len() == 0,
    decreases y,
{
    if y > 0 {
        lemma_writes_col_same_none(prev, curr, x, y - 1);
        assert(in_bounds(x, y - 1));
    }
}

proof fn lemma_writes_upto_same_none(prev: Frame, curr: Frame, x: int)
    requires
        0 <= x <= NUM_COLS,
        forall|i: int, j: int| in_bounds(i, j) ==> curr.at(i, j) == prev.at(i, j),
    ensures
        writes_upto(prev, curr, false, x).len() == 0,
    decreases x,
{
    if x > 0 {
        lemma_writes_upto_same_none(prev, curr, x - 1);
        lemma_writes_col_same_none(prev, curr, x - 1, NUM_ROWS as int);
    }
}

/// Without a forced repaint, two frames that agree on every cell produce no
/// writes at all.
pub proof fn lemma_render_same_writes_none(prev: Frame, curr: Frame)
    requires
        forall|i: int, j: int| in_bounds(i, j) ==> curr.at(i, j) == prev.at(i, j),
    ensures
        writes(prev, curr, false).len() == 0,
{
    lemma_writes_upto_same_none(prev, curr, NUM_COLS as int);
}

/// Every emitted write names an in-bounds cell and carries that cell's
/// current glyph, and without a forced repaint only changed cells appear.
pub proof fn lemma_writes_sound(prev: Frame, curr: Frame, force: bool)
    ensures
        forall|k: int|
            0 <= k < writes(prev, curr, force).len() ==> {
                let w = #[trigger] writes(prev, curr, force)[k];
                &&& in_bounds(w.x as int, w.y as int)
                &&& w.glyph == curr.at(w.x as int, w.y as int)
                &&& cell_written(prev, curr, force, w.x as int, w.y as int)
            },
{
    lemma_writes_upto_sound(prev, curr, force, NUM_COLS as int);
}

proof fn lemma_writes_col_sound(prev: Frame, curr: Frame, force: bool, x: int, y: int)
    requires
        0 <= x < NUM_COLS,
        0 <= y <= NUM_ROWS,
    ensures
        forall|k: int|
            0 <= k < writes_col(prev, curr, force, x, y).len() ==> {
                let w = #[trigger] writes_col(prev, curr, force, x, y)[k];
                &&& in_bounds(w.x as int, w.y as int)
                &&& w.glyph == curr.at(w.x as int, w.y as int)
                &&& cell_written(prev, curr, force, w.x as int, w.y as int)
            },
    decreases y,
{
    if y > 0 {
        lemma_writes_col_sound(prev, curr, force, x, y - 1);
        let s = writes_col(prev, curr, force, x, y);
        let p = writes_col(prev, curr, force, x, y - 1);
        assert forall|k: int| 0 <= k < s.len() implies {
            let w = #[trigger] s[k];
            &&& in_bounds(w.x as int, w.y as int)
            &&& w.glyph == curr.at(w.x as int, w.y as int)
            &&& cell_written(prev, curr, force, w.x as int, w.y as int)
        } by {
            if k < p.len() {
                assert(s[k] == p[k]);
            } else {
                assert(s[k] == write_at(curr, x, y - 1));
            }
        }
    }
}

proof fn lemma_writes_upto_sound(prev: Frame, curr: Frame, force: bool, x: int)
    requires
        0 <= x <= NUM_COLS,
    ensures
        forall|k: int|
            0 <= k < writes_upto(prev, curr, force, x).len() ==> {
                let w = #[trigger] writes_upto(prev, curr, force, x)[k];
                &&& in_bounds(w.x as int, w.y as int)
                &&& w.glyph == curr.at(w.x as int, w.y as int)
                &&& cell_written(prev, curr, force, w.x as int, w.y as int)
            },
    decreases x,
{
    if x > 0 {
        lemma_writes_upto_sound(prev, curr, force, x - 1);
        lemma_writes_col_sound(prev, curr, force, x - 1, NUM_ROWS as int);
        let s = writes_upto(prev, curr, force, x);
        let p = writes_upto(prev, curr, force, x - 1);
        let c = writes_col(prev, curr, force, x - 1, NUM_ROWS as int);
        assert forall|k: int| 0 <= k < s.len() implies {
            let w = #[trigger] s[k];
            &&& in_bounds(w.x as int, w.y as int)
            &&& w.glyph == curr.at(w.x as int, w.y as int)
            &&& cell_written(prev, curr, force, w.x as int, w.y as int)
        } by {
            if k < p.len() {
                assert(s[k] == p[k]);
            } else {
                assert(s[k] == c[k - p.len()]);
            }
        }
    }
}

} // verus!
