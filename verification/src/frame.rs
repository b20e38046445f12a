use vstd::prelude::*;
use crate::NUM_COLS;
use crate::NUM_ROWS;

verus! {

/// The glyph that fills every cell of a freshly built frame.
pub const BLANK: char = ' ';

/// One rendered instant: a fixed `NUM_COLS` x `NUM_ROWS` grid of glyphs,
/// stored column-major (column `x` occupies indices `x * NUM_ROWS ..`).
pub struct Frame {
    cells: Vec<char>,
}

/// True when `(x, y)` names a cell of the grid.
pub open spec fn in_bounds(x: int, y: int) -> bool {
    &&& 0 <= x < NUM_COLS
    &&& 0 <= y < NUM_ROWS
}

impl Frame {
    /// The dimensions never change after construction.
    pub closed spec fn wf(self) -> bool {
        self.cells@.len() == NUM_COLS * NUM_ROWS
    }

    /// The glyph at column `x`, row `y`.
    pub closed spec fn at(self, x: int, y: int) -> char {
        self.cells@[x * NUM_ROWS + y]
    }
}

/// Distinct in-bounds cells occupy distinct positions of the backing vector.
proof fn lemma_cell_index_injective(x1: int, y1: int, x2: int, y2: int)
    requires
        in_bounds(x1, y1),
        in_bounds(x2, y2),
        x1 * NUM_ROWS + y1 == x2 * NUM_ROWS + y2,
    ensures
        x1 == x2 && y1 == y2,
{
    assert(x1 == x2 && y1 == y2) by (nonlinear_arith)
        requires
            0 <= y1 < NUM_ROWS,
            0 <= y2 < NUM_ROWS,
            x1 * NUM_ROWS + y1 == x2 * NUM_ROWS + y2,
    ;
}

/// A blank frame of the fixed dimensions.
pub fn new_frame() -> (f: Frame)
    ensures
        f.wf(),
        forall|x: int, y: int| in_bounds(x, y) ==> f.at(x, y) == BLANK,
{
    let mut cells: Vec<char> = Vec::new();
    let mut i: usize = 0;
    while i < NUM_COLS * NUM_ROWS
        invariant
            i <= NUM_COLS * NUM_ROWS,
            cells@.len() == i,
            forall|k: int| 0 <= k < i ==> cells@[k] == BLANK,
        decreases NUM_COLS * NUM_ROWS - i,
    {
        cells.push(BLANK);
        i = i + 1;
    }
    let f = Frame { cells };
    assert forall|x: int, y: int| in_bounds(x, y) implies f.at(x, y) == BLANK by {
        assert(0 <= x * NUM_ROWS + y < NUM_COLS * NUM_ROWS) by (nonlinear_arith)
            requires
                0 <= x < NUM_COLS,
                0 <= y < NUM_ROWS,
        ;
    }
    f
}

impl Frame {
    /// Write `glyph` at `(x, y)`; every other cell keeps its glyph.
    pub fn set(&mut self, x: usize, y: usize, glyph: char)
        requires
            old(self).wf(),
            x < NUM_COLS,
            y < NUM_ROWS,
        ensures
            final(self).wf(),
            final(self).at(x as int, y as int) == glyph,
            forall|i: int, j: int|
                in_bounds(i, j) && !(i == x && j == y)
                    ==> final(self).at(i, j) == old(self).at(i, j),
    {
        proof {
            assert(0 <= x * NUM_ROWS + y < NUM_COLS * NUM_ROWS) by (nonlinear_arith)
                requires
                    0 <= x < NUM_COLS,
                    0 <= y < NUM_ROWS,
            ;
        }
        self.cells[x * NUM_ROWS + y] = glyph;
        proof {
            assert forall|i: int, j: int|
                in_bounds(i, j) && !(i == x && j == y)
                    implies self.at(i, j) == old(self).at(i, j) by {
                if i * NUM_ROWS + j == x * NUM_ROWS + y {
                    lemma_cell_index_injective(i, j, x as int, y as int);
                }
            }
        }
    }

    /// Read the glyph at `(x, y)`.
    pub fn get(&self, x: usize, y: usize) -> (glyph: char)
        requires
            self.wf(),
            x < NUM_COLS,
            y < NUM_ROWS,
        ensures
            glyph == self.at(x as int, y as int),
    {
        proof {
            assert(0 <= x * NUM_ROWS + y < NUM_COLS * NUM_ROWS) by (nonlinear_arith)
                requires
                    0 <= x < NUM_COLS,
                    0 <= y < NUM_ROWS,
            ;
        }
        self.cells[x * NUM_ROWS + y]
    }
}

/// Anything that can paint itself into a frame; `draws` says exactly which
/// cells the painting touches and with what.
pub trait Drawable {
    /// What the entity asks of itself before it can draw (its own
    /// well-formedness, so that every cell it touches is on the grid).
    spec fn draw_req(&self) -> bool;

    /// The relation between the frame before and after one `draw` call.
    spec fn draws(&self, before: Frame, after: Frame) -> bool;

    /// Paint this entity into `frame`.
    fn draw(&self, frame: &mut Frame)
        requires
            old(frame).wf(),
            self.draw_req(),
        ensures
            final(frame).wf(),
            self.draws(*old(frame), *final(frame)),
    ;
}

} // verus!
