//! The embeddable engine facade: a binary grid of caller-chosen dimensions
//! with cell-level editing, bulk loading, resizing, and the same B3/S23 step
//! as the fixed-size engine. This is the surface a host environment drives
//! one call at a time.

use vstd::prelude::*;

use crate::rule::binarize;
use crate::rule::binarize_cells;
use crate::rule::cells_binary;
use crate::rule::count_live;
use crate::rule::lemma_next_gen_wf;
use crate::rule::lemma_product_exceeds;
use crate::rule::lemma_product_fits;
use crate::rule::lemma_row_major_bound;
use crate::rule::live_count;
use crate::rule::next_gen;
use crate::rule::next_generation;

verus! {

/// Default canvas size used by the service and the legacy entry points.
pub const DEFAULT_WIDTH: usize = 20;

pub const DEFAULT_HEIGHT: usize = 20;

/// Errors of the bulk loader.
#[derive(Debug, Clone, Copy, PartialEq, Eq, Structural)]
pub enum GridError {
    /// The supplied buffer length does not match the declared dimensions.
    DimensionMismatch,
}

/// Mathematical state of a board: its dimensions and the flat row-major
/// cell buffer.
pub ghost struct BoardView {
    pub width: int,
    pub height: int,
    pub cells: Seq<u8>,
}

/// Boards reachable through the public operations: one binary cell per
/// canvas position.
pub open spec fn wf_board(b: BoardView) -> bool {
    &&& b.width >= 0
    &&& b.height >= 0
    &&& b.cells.len() == b.width * b.height
    &&& cells_binary(b.cells)
}

/// An all-dead grid of `n` cells.
pub open spec fn dead_grid(n: int) -> Seq<u8> {
    Seq::new(n as nat, |i: int| 0u8)
}

/// A grid-sized buffer of dead cells.
#[verifier::loop_isolation(false)]
fn dead_cells(n: usize) -> (cells: Vec<u8>)
    ensures
        cells@ == dead_grid(n as int),
{
    let mut cells: Vec<u8> = Vec::new();
    let mut i: usize = 0;
    while i < n
        invariant
            i <= n,
            cells@.len() == i,
            forall|k: int| 0 <= k < i ==> cells@[k] == 0,
        decreases n - i,
    {
        cells.push(0u8);
        i = i + 1;
    }
    proof {
        assert(cells@ =~= dead_grid(n as int));
    }
    cells
}

/// A binary grid of caller-chosen dimensions driven one operation at a time.
pub struct GameOfLifeWasm {
    width: usize,
    height: usize,
    cells: Vec<u8>,
}

impl View for GameOfLifeWasm {
    type V = BoardView;

    closed spec fn view(&self) -> BoardView {
        BoardView { width: self.width as int, height: self.height as int, cells: self.cells@ }
    }
}

impl GameOfLifeWasm {
    /// A fresh, all-dead board of the given dimensions.
    pub fn new(width: usize, height: usize) -> (board: GameOfLifeWasm)
        requires
            width * height <= usize::MAX,
        ensures
            board@.width == width,
            board@.height == height,
            board@.cells == dead_grid(width * height),
            wf_board(board@),
    {
        let total = width * height;
        GameOfLifeWasm { width, height, cells: dead_cells(total) }
    }

    /// The current grid as a flat array, one byte per cell.
    pub fn get_state(&self) -> (state: Vec<u8>)
        ensures
            state@ == self@.cells,
    {
        let state = self.cells.clone();
        proof {
            assert(state@ =~= self.cells@);
        }
        state
    }

    /// One forward generation of the whole board.
    pub fn step(&mut self)
        requires
            wf_board(old(self)@),
        ensures
            final(self)@.width == old(self)@.width,
            final(self)@.height == old(self)@.height,
            final(self)@.cells == next_gen(old(self)@.cells, old(self)@.width, old(self)@.height),
            wf_board(final(self)@),
    {
        let next = next_generation(self.cells.as_slice(), self.width, self.height);
        self.cells = next;
        proof {
            lemma_next_gen_wf(old(self)@.cells, old(self)@.width, old(self)@.height);
        }
    }

    /// Writes one cell if (row, col) is on the canvas; out-of-range
    /// coordinates are silently ignored.
    pub fn set_cell(&mut self, row: usize, col: usize, alive: bool)
        requires
            wf_board(old(self)@),
        ensures
            final(self)@.width == old(self)@.width,
            final(self)@.height == old(self)@.height,
            row < old(self)@.height && col < old(self)@.width ==> final(self)@.cells == old(self)@.cells.update(
                row as int * old(self)@.width + col,
                if alive {
                    1u8
                } else {
                    0u8
                },
            ),
            !(row < old(self)@.height && col < old(self)@.width) ==> final(self)@.cells == old(self)@.cells,
            wf_board(final(self)@),
    {
        let n = self.cells.len();
        if row < self.height && col < self.width {
            proof {
                lemma_row_major_bound(self@.width, self@.height, row as int, col as int);
            }
            let idx = row * self.width + col;
            let value: u8 = if alive {
                1
            } else {
                0
            };
            self.cells[idx] = value;
            proof {
                assert(cells_binary(self.cells@));
            }
        }
    }

    /// Whether the cell at (row, col) is alive; false off the canvas.
    pub fn get_cell(&self, row: usize, col: usize) -> (alive: bool)
        requires
            wf_board(self@),
        ensures
            alive == (row < self@.height && col < self@.width && self@.cells[row as int
                * self@.width + col] == 1),
    {
        let n = self.cells.len();
        if row < self.height && col < self.width {
            proof {
                lemma_row_major_bound(self@.width, self@.height, row as int, col as int);
            }
            let idx = row * self.width + col;
            self.cells[idx] == 1
        } else {
            false
        }
    }

    /// Flips the cell at (row, col) if it is on the canvas; a silent no-op
    /// otherwise.
    pub fn toggle_cell(&mut self, row: usize, col: usize)
        requires
            wf_board(old(self)@),
        ensures
            final(self)@.width == old(self)@.width,
            final(self)@.height == old(self)@.height,
            row < old(self)@.height && col < old(self)@.width ==> final(self)@.cells == old(self)@.cells.update(
                row as int * old(self)@.width + col,
                if old(self)@.cells[row as int * old(self)@.width + col] == 0 {
                    1u8
                } else {
                    0u8
                },
            ),
            !(row < old(self)@.height && col < old(self)@.width) ==> final(self)@.cells == old(self)@.cells,
            wf_board(final(self)@),
    {
        proof {
            if row < self@.height && col < self@.width {
                lemma_row_major_bound(self@.width, self@.height, row as int, col as int);
            }
        }
        let current = self.get_cell(row, col);
        self.set_cell(row, col, !current);
    }

    /// Kills every cell.
    pub fn clear(&mut self)
        requires
            wf_board(old(self)@),
        ensures
            final(self)@.width == old(self)@.width,
            final(self)@.height == old(self)@.height,
            final(self)@.cells == dead_grid(old(self)@.width * old(self)@.height),
            wf_board(final(self)@),
    {
        let len = self.cells.len();
        self.cells = dead_cells(len);
    }

    /// Replaces the board with a fresh, all-dead one of the given
    /// dimensions.
    pub fn resize(&mut self, width: usize, height: usize)
        requires
            width * height <= usize::MAX,
        ensures
            final(self)@.width == width,
            final(self)@.height == height,
            final(self)@.cells == dead_grid(width * height),
            wf_board(final(self)@),
    {
        let total = width * height;
        self.width = width;
        self.height = height;
        self.cells = dead_cells(total);
    }

    /// Loads a flat buffer, one byte per cell, nonzero meaning alive. Fails
    /// with `DimensionMismatch` — leaving the board untouched — exactly when
    /// the buffer length differs from `width * height`; on success the board
    /// takes the new dimensions and cells.
    pub fn load_from_array(&mut self, data: &[u8], width: usize, height: usize) -> (r: Result<
        (),
        GridError,
    >)
        requires
            wf_board(old(self)@),
        ensures
            r is Err <==> data@.len() != width * height,
            r is Err ==> final(self)@ == old(self)@ && r == Result::<(), GridError>::Err(
                GridError::DimensionMismatch,
            ),
            r is Ok ==> final(self)@.width == width && final(self)@.height == height && final(self)@.cells == binarize(data@),
            wf_board(final(self)@),
    {
        let len = data.len();
        if height == 0 {
            if len != 0 {
                return Err(GridError::DimensionMismatch);
            }
            self.width = width;
            self.height = height;
            self.cells = binarize_cells(data);
            proof {
                assert(width * 0 == 0) by (nonlinear_arith);
            }
            return Ok(());
        }
        if width > usize::MAX / height {
            proof {
                lemma_product_exceeds(width as int, height as int, usize::MAX as int);
            }
            return Err(GridError::DimensionMismatch);
        }
        proof {
            lemma_product_fits(width as int, height as int, usize::MAX as int);
        }
        let total = width * height;
        if len != total {
            return Err(GridError::DimensionMismatch);
        }
        self.width = width;
        self.height = height;
        self.cells = binarize_cells(data);
        Ok(())
    }

    /// The board's width and height.
    pub fn get_dimensions(&self) -> (dims: (usize, usize))
        ensures
            dims.0 == self@.width,
            dims.1 == self@.height,
    {
        (self.width, self.height)
    }

    /// Number of live cells on the board.
    pub fn count_live_cells(&self) -> (n: usize)
        requires
            wf_board(self@),
        ensures
            n as int == live_count(self@.cells),
    {
        count_live(self.cells.as_slice())
    }
}

/// A fresh board with the default canvas.
pub fn create_game() -> (board: GameOfLifeWasm)
    ensures
        board@.width == DEFAULT_WIDTH,
        board@.height == DEFAULT_HEIGHT,
        board@.cells == dead_grid(DEFAULT_WIDTH * DEFAULT_HEIGHT),
        wf_board(board@),
{
    GameOfLifeWasm::new(DEFAULT_WIDTH, DEFAULT_HEIGHT)
}

/// A fresh board with a custom canvas.
pub fn create_game_with_size(width: usize, height: usize) -> (board: GameOfLifeWasm)
    requires
        width * height <= usize::MAX,
    ensures
        board@.width == width,
        board@.height == height,
        board@.cells == dead_grid(width * height),
        wf_board(board@),
{
    GameOfLifeWasm::new(width, height)
}

/// Whether the dimensions are accepted for a hosted board: nonzero and at
/// most 1000 on each side.
pub fn validate_dimensions(width: usize, height: usize) -> (ok: bool)
    ensures
        ok == (0 < width <= 1000 && 0 < height <= 1000),
{
    width > 0 && height > 0 && width <= 1000 && height <= 1000
}

/// The version string the service reports.
pub fn get_version() -> (v: String)
    ensures
        v@ == "2.0.0-ultimate"@,
{
    String::from_str("2.0.0-ultimate")
}

/// The sample pattern: a glider in the top-left corner of the default
/// canvas, with live cells at (1,0), (2,1), (0,2), (1,2), (2,2).
pub open spec fn glider_grid() -> Seq<u8> {
    Seq::new(
        (DEFAULT_WIDTH * DEFAULT_HEIGHT) as nat,
        |i: int|
            if i == 1 * DEFAULT_WIDTH + 0 || i == 2 * DEFAULT_WIDTH + 1 || i == 0 * DEFAULT_WIDTH
                + 2 || i == 1 * DEFAULT_WIDTH + 2 || i == 2 * DEFAULT_WIDTH + 2 {
                1u8
            } else {
                0u8
            },
    )
}

/// The default grid with the sample glider pattern.
pub fn sample_grid() -> (grid: Vec<u8>)
    ensures
        grid@ == glider_grid(),
        wf_grid_default(grid@),
{
    let mut grid = dead_cells(DEFAULT_WIDTH * DEFAULT_HEIGHT);
    grid[1 * DEFAULT_WIDTH + 0] = 1;
    grid[2 * DEFAULT_WIDTH + 1] = 1;
    grid[0 * DEFAULT_WIDTH + 2] = 1;
    grid[1 * DEFAULT_WIDTH + 2] = 1;
    grid[2 * DEFAULT_WIDTH + 2] = 1;
    proof {
        assert(grid@ =~= glider_grid());
    }
    grid
}

/// A binary grid covering the default canvas.
pub open spec fn wf_grid_default(g: Seq<u8>) -> bool {
    g.len() == DEFAULT_WIDTH * DEFAULT_HEIGHT && cells_binary(g)
}

/// One generation of a flat default-canvas grid, reading any nonzero byte
/// as alive. A buffer of the wrong size is handed back unchanged.
pub fn tick(current: &[u8]) -> (next: Vec<u8>)
    ensures
        current@.len() == DEFAULT_WIDTH * DEFAULT_HEIGHT ==> next@ == next_gen(
            binarize(current@),
            DEFAULT_WIDTH as int,
            DEFAULT_HEIGHT as int,
        ),
        current@.len() != DEFAULT_WIDTH * DEFAULT_HEIGHT ==> next@ == current@,
{
    if current.len() != DEFAULT_WIDTH * DEFAULT_HEIGHT {
        return vstd::slice::slice_to_vec(current);
    }
    let cells = binarize_cells(current);
    next_generation(cells.as_slice(), DEFAULT_WIDTH, DEFAULT_HEIGHT)
}

} // verus!
