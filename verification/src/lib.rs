pub mod frame;
pub mod game;
pub mod invaders;
pub mod player;
pub mod render;
pub mod shot;

use vstd::prelude::*;

verus! {

/// Number of rows in the play field and in every rendered frame.
pub const NUM_ROWS: usize = 30;

/// Number of columns in the play field and in every rendered frame.
pub const NUM_COLS: usize = 60;

} // verus!
