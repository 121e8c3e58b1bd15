//! The data the HTTP handlers exchange with the engine: the snapshot a
//! response carries and the query a toggle request carries. The transport
//! itself lives outside the crate; every handler's computation is one
//! engine call followed by `snapshot`.

use vstd::prelude::*;

use crate::engine::GameOfLife;
use crate::engine::HEIGHT;
use crate::engine::WIDTH;

verus! {

/// The grid a response carries, with its dimensions.
#[derive(Debug)]
pub struct GameState {
    pub grid: Vec<u8>,
    pub width: usize,
    pub height: usize,
}

/// The cell a toggle request names.
#[derive(Debug)]
pub struct ToggleQuery {
    pub row: usize,
    pub col: usize,
}

/// The response snapshot of an engine: a copy of its current grid and the
/// fixed canvas dimensions.
pub fn snapshot(gol: &GameOfLife) -> (state: GameState)
    ensures
        state.grid@ == gol@.current,
        state.width == WIDTH,
        state.height == HEIGHT,
{
    let grid = gol.current.clone();
    proof {
        assert(grid@ =~= gol.current@);
    }
    GameState { grid, width: WIDTH, height: HEIGHT }
}

} // verus!
