//! The evolution engine behind the HTTP service: a fixed 20 x 20 binary grid
//! held as a flat row-major buffer, stepped by the B3/S23 rule, with an
//! unbounded undo history and a reset to the grid the engine was built with.
//!
//! The history grows by one full snapshot per forward step and has no
//! capacity ceiling; that unbounded growth is an intentional trade-off kept
//! from the service's behavior.

use vstd::prelude::*;

use crate::rule::cells_binary;
use crate::rule::lemma_next_gen_wf;
use crate::rule::lemma_row_major_bound;
use crate::rule::neighbor_count;
use crate::rule::neighbor_total;
use crate::rule::next_gen;
use crate::rule::next_generation;

verus! {

pub const WIDTH: usize = 20;

pub const HEIGHT: usize = 20;

/// Row-major position of cell (row, col) in the flat buffer.
pub fn index(row: usize, col: usize) -> (i: usize)
    requires
        row < HEIGHT,
        col < WIDTH,
    ensures
        i == row * WIDTH + col,
{
    row * WIDTH + col
}

/// Live neighbors of (row, col) on the fixed-size grid.
pub fn count_neighbors(grid: &[u8], row: usize, col: usize) -> (n: u8)
    requires
        grid@.len() == WIDTH * HEIGHT,
        cells_binary(grid@),
        row < HEIGHT,
        col < WIDTH,
    ensures
        n as int == neighbor_count(grid@, WIDTH as int, HEIGHT as int, row as int, col as int),
{
    neighbor_total(grid, WIDTH, HEIGHT, row, col)
}

/// Replaces `next` with one generation of `current`. Every output cell
/// depends only on the read-only current buffer and lands in its own slot of
/// the fresh output buffer, so the rows could be farmed out to any number of
/// workers; this computes them in row order.
pub fn update(current: &[u8], next: &mut Vec<u8>)
    requires
        current@.len() == WIDTH * HEIGHT,
        cells_binary(current@),
    ensures
        final(next)@ == next_gen(current@, WIDTH as int, HEIGHT as int),
{
    *next = next_generation(current, WIDTH, HEIGHT);
}

/// Mathematical state of an engine: the visible grid, the undo snapshots
/// (most recent last), and the grid the engine was constructed with.
pub ghost struct GolState {
    pub current: Seq<u8>,
    pub history: Seq<Seq<u8>>,
    pub initial: Seq<u8>,
}

/// A grid the engine can hold: one binary cell per position of the fixed
/// canvas.
pub open spec fn wf_grid(g: Seq<u8>) -> bool {
    g.len() == WIDTH * HEIGHT && cells_binary(g)
}

/// Engine states reachable through the public operations: every held grid is
/// well-formed.
pub open spec fn wf_state(s: GolState) -> bool {
    wf_grid(s.current) && wf_grid(s.initial) && forall|i: int|
        0 <= i < s.history.len() ==> wf_grid(#[trigger] s.history[i])
}

/// One forward step: the pre-step grid is pushed onto the history, then the
/// next generation replaces it.
pub open spec fn spec_step(s: GolState) -> GolState {
    GolState {
        current: next_gen(s.current, WIDTH as int, HEIGHT as int),
        history: s.history.push(s.current),
        initial: s.initial,
    }
}

/// One undo: the most recent snapshot becomes current and leaves the
/// history; on an empty history the state is unchanged and the flag is
/// false.
pub open spec fn spec_step_back(s: GolState) -> (GolState, bool) {
    if s.history.len() == 0 {
        (s, false)
    } else {
        (
            GolState { current: s.history.last(), history: s.history.drop_last(), initial: s.initial },
            true,
        )
    }
}

/// Toggling flips the binary cell at (row, col) when it is on the canvas and
/// is a silent no-op otherwise; the history is never touched.
pub open spec fn spec_toggle(s: GolState, row: int, col: int) -> GolState {
    if 0 <= row < HEIGHT && 0 <= col < WIDTH {
        GolState {
            current: s.current.update(
                row * WIDTH + col,
                if s.current[row * WIDTH + col] == 0 {
                    1u8
                } else {
                    0u8
                },
            ),
            history: s.history,
            initial: s.initial,
        }
    } else {
        s
    }
}

/// Reset restores the initial grid and discards the whole undo trail.
pub open spec fn spec_reset(s: GolState) -> GolState {
    GolState { current: s.initial, history: Seq::empty(), initial: s.initial }
}

/// The evolution engine. The fields are public so that surrounding layers
/// can read the raw buffers; mutation goes through the methods, whose
/// contracts assume and preserve `wf_state`.
pub struct GameOfLife {
    pub current: Vec<u8>,
    pub history: Vec<Vec<u8>>,
    pub initial: Vec<u8>,
}

impl View for GameOfLife {
    type V = GolState;

    open spec fn view(&self) -> GolState {
        GolState {
            current: self.current@,
            history: self.history.deep_view(),
            initial: self.initial@,
        }
    }
}

impl GameOfLife {
    /// A fresh engine: current and initial grid both equal to the given one,
    /// history empty.
    pub fn new(initial: Vec<u8>) -> (gol: GameOfLife)
        requires
            wf_grid(initial@),
        ensures
            gol@ == (GolState { current: initial@, history: Seq::<Seq<u8>>::empty(), initial: initial@ }),
            wf_state(gol@),
    {
        let gol = GameOfLife { current: initial.clone(), history: Vec::new(), initial };
        proof {
            assert(gol.current@ =~= gol.initial@);
            assert(gol.history.deep_view() =~~= Seq::<Seq<u8>>::empty());
        }
        gol
    }

    /// Read-only snapshot of the current grid.
    pub fn get_state(&self) -> (state: &[u8])
        ensures
            state@ == self@.current,
    {
        self.current.as_slice()
    }

    /// One forward generation; the pre-step grid joins the history.
    pub fn step(&mut self)
        requires
            wf_state(old(self)@),
        ensures
            final(self)@ == spec_step(old(self)@),
            wf_state(final(self)@),
    {
        let snapshot = self.current.clone();
        proof {
            assert(snapshot@ =~= self.current@);
        }
        self.history.push(snapshot);
        let next = next_generation(self.current.as_slice(), WIDTH, HEIGHT);
        self.current = next;
        proof {
            lemma_next_gen_wf(old(self)@.current, WIDTH as int, HEIGHT as int);
            assert(self.history.deep_view() =~~= old(self)@.history.push(old(self)@.current));
            assert forall|i: int| 0 <= i < self@.history.len() implies wf_grid(
                #[trigger] self@.history[i],
            ) by {
                if i < old(self)@.history.len() {
                    assert(wf_grid(old(self)@.history[i]));
                }
            }
        }
    }

    /// Undo one step: restores the most recent snapshot if one exists and
    /// says whether it did.
    pub fn step_back(&mut self) -> (went_back: bool)
        requires
            wf_state(old(self)@),
        ensures
            final(self)@ == spec_step_back(old(self)@).0,
            went_back == spec_step_back(old(self)@).1,
            wf_state(final(self)@),
    {
        let popped = self.history.pop();
        match popped {
            Some(prev) => {
                self.current = prev;
                proof {
                    assert(old(self)@.history.len() > 0);
                    assert(self.current@ =~= old(self)@.history.last());
                    assert(self.history.deep_view() =~~= old(self)@.history.drop_last());
                    assert(wf_grid(old(self)@.history[old(self)@.history.len() - 1]));
                    assert forall|i: int| 0 <= i < self@.history.len() implies wf_grid(
                        #[trigger] self@.history[i],
                    ) by {
                        assert(wf_grid(old(self)@.history[i]));
                    }
                }
                true
            },
            None => {
                proof {
                    assert(self.history.deep_view() =~~= old(self)@.history);
                }
                false
            },
        }
    }

    /// Flips the cell at (row, col) if it is on the canvas; out-of-range
    /// coordinates are silently ignored.
    pub fn toggle_cell(&mut self, row: usize, col: usize)
        requires
            wf_state(old(self)@),
        ensures
            final(self)@ == spec_toggle(old(self)@, row as int, col as int),
            wf_state(final(self)@),
    {
        if row < HEIGHT && col < WIDTH {
            proof {
                lemma_row_major_bound(WIDTH as int, HEIGHT as int, row as int, col as int);
            }
            let idx = row * WIDTH + col;
            let flipped: u8 = if self.current[idx] == 0 {
                1
            } else {
                0
            };
            self.current[idx] = flipped;
            proof {
                assert(cells_binary(self.current@));
            }
        }
    }

    /// Restores the initial grid and empties the history.
    pub fn reset(&mut self)
        requires
            wf_state(old(self)@),
        ensures
            final(self)@ == spec_reset(old(self)@),
            wf_state(final(self)@),
    {
        self.current = self.initial.clone();
        self.history.clear();
        proof {
            assert(self.current@ =~= old(self)@.initial);
            assert(self.history.deep_view() =~~= Seq::<Seq<u8>>::empty());
        }
    }
}

/// Parses rows of pattern text into a flat grid: a `1` is a live cell, any
/// other character a dead one; the rows are concatenated in order.
pub open spec fn spec_parse_rows(rows: Seq<Seq<char>>) -> Seq<u8>
    decreases rows.len(),
{
    if rows.len() == 0 {
        Seq::empty()
    } else {
        spec_parse_row(rows.first()) + spec_parse_rows(rows.drop_first())
    }
}

/// One parsed row: one cell per character.
pub open spec fn spec_parse_row(row: Seq<char>) -> Seq<u8> {
    Seq::new(row.len(), |i: int| if row[i] == '1' { 1u8 } else { 0u8 })
}

/// Builds the flat initial grid from one text row per grid row. The caller
/// is responsible for supplying rows that cover the fixed canvas; the result
/// always holds one binary cell per supplied character.
#[verifier::loop_isolation(false)]
pub fn parse_initial_state(initial: &[&str]) -> (grid: Vec<u8>)
    ensures
        grid@ == spec_parse_rows(initial.deep_view()),
        cells_binary(grid@),
{
    let mut grid: Vec<u8> = Vec::new();
    let ghost rows = initial.deep_view();
    let n = initial.len();
    let mut i: usize = 0;
    while i < n
        invariant
            i <= n,
            grid@ == spec_parse_rows(rows.take(i as int)),
            cells_binary(grid@),
        decreases n - i,
    {
        let row: &str = initial[i];
        let len = row.unicode_len();
        let mut j: usize = 0;
        while j < len
            invariant
                j <= len,
                len == row@.len(),
                row@ == rows[i as int],
                i < n,
                grid@ == spec_parse_rows(rows.take(i as int)) + spec_parse_row(row@).take(j as int),
                cells_binary(grid@),
            decreases len - j,
        {
            let ch = row.get_char(j);
            grid.push(if ch == '1' { 1u8 } else { 0u8 });
            proof {
                assert(spec_parse_row(row@).take(j + 1) =~= spec_parse_row(row@).take(j as int).push(
                    spec_parse_row(row@)[j as int],
                ));
                assert(grid@ =~= spec_parse_rows(rows.take(i as int)) + spec_parse_row(row@).take(
                    j + 1,
                ));
            }
            j = j + 1;
        }
        proof {
            assert(spec_parse_row(row@).take(len as int) =~= spec_parse_row(row@));
            lemma_parse_rows_snoc(rows, i as int);
            assert(grid@ =~= spec_parse_rows(rows.take(i + 1)));
        }
        i = i + 1;
    }
    proof {
        assert(rows.take(n as int) =~= rows);
    }
    grid
}

/// Appending one more row to a prefix parses to the prefix's cells followed
/// by that row's cells.
proof fn lemma_parse_rows_snoc(rows: Seq<Seq<char>>, i: int)
    requires
        0 <= i < rows.len(),
    ensures
        spec_parse_rows(rows.take(i + 1)) == spec_parse_rows(rows.take(i)) + spec_parse_row(
            rows[i],
        ),
    decreases i,
{
    if i == 0 {
        assert(rows.take(1).drop_first() =~= Seq::<Seq<char>>::empty());
        assert(rows.take(0) =~= Seq::<Seq<char>>::empty());
        assert(rows.take(1).first() == rows[0]);
        assert(spec_parse_rows(Seq::<Seq<char>>::empty()) =~= Seq::<u8>::empty());
        assert(spec_parse_rows(rows.take(1)) == spec_parse_row(rows.take(1).first())
            + spec_parse_rows(rows.take(1).drop_first()));
        assert(spec_parse_row(rows[0]) + Seq::<u8>::empty() =~= spec_parse_row(rows[0]));
        assert(spec_parse_rows(rows.take(1)) =~= spec_parse_row(rows[0]));
        assert(spec_parse_rows(rows.take(0)) + spec_parse_row(rows[0]) =~= spec_parse_row(rows[0]));
    } else {
        lemma_parse_rows_snoc(rows.drop_first(), i - 1);
        assert(rows.take(i + 1).drop_first() =~= rows.drop_first().take(i));
        assert(rows.take(i).drop_first() =~= rows.drop_first().take(i - 1));
        assert(rows.drop_first()[i - 1] == rows[i]);
        assert(spec_parse_rows(rows.take(i + 1)) == spec_parse_row(rows[0]) + spec_parse_rows(
            rows.drop_first().take(i),
        ));
        assert(spec_parse_rows(rows.take(i)) == spec_parse_row(rows[0]) + spec_parse_rows(
            rows.drop_first().take(i - 1),
        ));
        assert(spec_parse_rows(rows.take(i)) + spec_parse_row(rows[i]) =~= spec_parse_row(rows[0])
            + (spec_parse_rows(rows.drop_first().take(i - 1)) + spec_parse_row(rows[i])));
    }
}

/// One step then one undo restores the starting state exactly, and the undo
/// reports that a snapshot existed.
pub proof fn lemma_step_then_back_restores(s: GolState)
    ensures
        spec_step_back(spec_step(s)).0.current =~= s.current,
        spec_step_back(spec_step(s)).0.history =~= s.history,
        spec_step_back(spec_step(s)).0.initial =~= s.initial,
        spec_step_back(spec_step(s)).1,
{
    assert(spec_step(s).history.last() == s.current);
    assert(spec_step(s).history.drop_last() =~= s.history);
}

/// Reset always lands in the same state — the initial grid with an empty
/// history — no matter what stepping, undoing, or toggling preceded it:
/// every operation preserves the initial grid, and resetting after any of
/// them equals resetting right away.
pub proof fn lemma_reset_idempotent(s: GolState, row: int, col: int)
    ensures
        spec_reset(s).current == s.initial,
        spec_reset(s).history.len() == 0,
        spec_reset(spec_step(s)) == spec_reset(s),
        spec_reset(spec_step_back(s).0) == spec_reset(s),
        spec_reset(spec_toggle(s, row, col)) == spec_reset(s),
        spec_reset(spec_reset(s)) == spec_reset(s),
{
}

/// Toggling the same in-bounds cell twice restores the starting state; an
/// out-of-bounds toggle never alters it.
pub proof fn lemma_toggle_involution(s: GolState, row: int, col: int)
    requires
        wf_state(s),
    ensures
        0 <= row < HEIGHT && 0 <= col < WIDTH ==> spec_toggle(spec_toggle(s, row, col), row, col)
            == s,
        !(0 <= row < HEIGHT && 0 <= col < WIDTH) ==> spec_toggle(s, row, col) == s,
{
    if 0 <= row < HEIGHT && 0 <= col < WIDTH {
        lemma_row_major_bound(WIDTH as int, HEIGHT as int, row, col);
        let idx = row * WIDTH + col;
        let once = spec_toggle(s, row, col);
        assert(once.current[idx] != s.current[idx]);
        assert(spec_toggle(once, row, col).current =~= s.current);
    }
}

} // verus!
