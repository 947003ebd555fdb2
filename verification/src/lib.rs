use vstd::prelude::*;

pub mod channel;
pub mod channel_laws;
pub mod frame;
pub mod render;
pub mod render_laws;
pub mod render_loop;

verus! {

/// Number of columns of every frame the game draws.
pub const NUM_COLS: usize = 40;

/// Number of rows of every frame the game draws.
pub const NUM_ROWS: usize = 20;

} // verus!
