use space_invaders::NUM_COLS;
use space_invaders::NUM_ROWS;
use space_invaders::frame::BLANK;
use space_invaders::frame::new_frame;
use space_invaders::render::CellWrite;
use space_invaders::render::render;

#[test]
fn a_fresh_frame_is_blank_and_keeps_what_is_set() {
    let mut f = new_frame();
    assert_eq!(f.get(0, 0), BLANK);
    assert_eq!(f.get(NUM_COLS - 1, NUM_ROWS - 1), BLANK);
    f.set(3, 7, 'A');
    assert_eq!(f.get(3, 7), 'A');
    assert_eq!(f.get(3, 8), BLANK);
    assert_eq!(f.get(4, 7), BLANK);
}

#[test]
fn identical_frames_produce_no_writes() {
    let prev = new_frame();
    let curr = new_frame();
    let out = render(&prev, &curr, false);
    assert_eq!(out.len(), 0);
}

#[test]
fn a_forced_repaint_emits_every_cell() {
    let prev = new_frame();
    let mut curr = new_frame();
    curr.set(5, 5, 'x');
    let out = render(&prev, &curr, true);
    assert_eq!(out.len(), NUM_COLS * NUM_ROWS);
    // Column-major order: x outer, y inner.
    assert_eq!(out[0], CellWrite { x: 0, y: 0, glyph: BLANK });
    assert_eq!(out[1], CellWrite { x: 0, y: 1, glyph: BLANK });
    assert_eq!(out[NUM_ROWS], CellWrite { x: 1, y: 0, glyph: BLANK });
    assert_eq!(out[5 * NUM_ROWS + 5], CellWrite { x: 5, y: 5, glyph: 'x' });
}

#[test]
fn only_changed_cells_are_written() {
    let mut prev = new_frame();
    prev.set(2, 9, '|');
    let mut curr = new_frame();
    curr.set(0, 4, 'A');
    curr.set(7, 1, 'x');
    let out = render(&prev, &curr, false);
    // Three deltas: the two new glyphs and the cell that went blank again,
    // in column-major order.
    assert_eq!(out.len(), 3);
    assert_eq!(out[0], CellWrite { x: 0, y: 4, glyph: 'A' });
    assert_eq!(out[1], CellWrite { x: 2, y: 9, glyph: BLANK });
    assert_eq!(out[2], CellWrite { x: 7, y: 1, glyph: 'x' });
}
