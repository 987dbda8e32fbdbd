//! Frames for a 5 × 5 LED matrix: a heart, a blank frame, and a single light
//! that runs clockwise round the border of the matrix.

use vstd::prelude::*;

verus! {

/// Index of the last row and of the last column.
pub const LAST: usize = 4;

/// Number of cells on the border of the matrix.
pub const BORDER_CELLS: usize = 16;

/// The brightness of the cell at (`row`, `col`) of a frame.
pub open spec fn cell(frame: [[u8; 5]; 5], row: int, col: int) -> u8 {
    frame@[row]@[col]
}

/// The heart picture, row by row.
pub open spec fn heart_rows() -> Seq<Seq<u8>> {
    seq![
        seq![0u8, 1, 0, 1, 0],
        seq![1u8, 0, 1, 0, 1],
        seq![1u8, 0, 0, 0, 1],
        seq![0u8, 1, 0, 1, 0],
        seq![0u8, 0, 1, 0, 0],
    ]
}

/// The heart picture.
pub fn heart() -> (frame: [[u8; 5]; 5])
    ensures
        forall|r: int, c: int| 0 <= r < 5 && 0 <= c < 5 ==> cell(frame, r, c) == heart_rows()[r][c],
{
    let frame: [[u8; 5]; 5] = [
        [0, 1, 0, 1, 0],
        [1, 0, 1, 0, 1],
        [1, 0, 0, 0, 1],
        [0, 1, 0, 1, 0],
        [0, 0, 1, 0, 0],
    ];
    frame
}

/// A frame with every light off.
pub fn blank() -> (frame: [[u8; 5]; 5])
    ensures
        forall|r: int, c: int| 0 <= r < 5 && 0 <= c < 5 ==> cell(frame, r, c) == 0,
{
    let row: [u8; 5] = [0u8; 5];
    let frame: [[u8; 5]; 5] = [row; 5];
    frame
}

/// Whether (`row`, `col`) lies on the border of the matrix.
pub open spec fn on_border(row: int, col: int) -> bool {
    &&& 0 <= row <= 4
    &&& 0 <= col <= 4
    &&& (row == 0 || row == 4 || col == 0 || col == 4)
}

/// The cell the running light moves to from (`row`, `col`): along the top
/// row to the right, down the right column, along the bottom row to the
/// left, up the left column.
pub open spec fn next_border_cell(row: int, col: int) -> (int, int) {
    if row == 0 && col < 4 {
        (0, col + 1)
    } else if col == 4 && row < 4 {
        (row + 1, 4)
    } else if row == 4 && col > 0 {
        (4, col - 1)
    } else {
        (row - 1, 0)
    }
}

/// The place of a border cell along the clockwise walk that starts at the
/// top left corner: 0 to 15.
pub open spec fn border_index(row: int, col: int) -> int {
    if row == 0 && col < 4 {
        col
    } else if col == 4 && row < 4 {
        4 + row
    } else if row == 4 && col > 0 {
        12 - col
    } else {
        16 - row
    }
}

/// The border cell at place `k` (0 to 15) of the clockwise walk.
pub open spec fn border_cell(k: int) -> (int, int) {
    if k < 4 {
        (0, k)
    } else if k < 8 {
        (k - 4, 4)
    } else if k < 12 {
        (4, 12 - k)
    } else {
        (16 - k, 0)
    }
}

/// The cell reached from (`row`, `col`) after `steps` moves.
pub open spec fn border_cell_after(row: int, col: int, steps: nat) -> (int, int)
    decreases steps,
{
    if steps == 0 {
        (row, col)
    } else {
        let prev = border_cell_after(row, col, (steps - 1) as nat);
        next_border_cell(prev.0, prev.1)
    }
}

/// Places and border cells match one to one.
pub proof fn lemma_border_places(row: int, col: int, k: int)
    ensures
        on_border(row, col) ==> 0 <= border_index(row, col) < 16 && border_cell(border_index(row, col)) == (row, col),
        0 <= k < 16 ==> on_border(border_cell(k).0, border_cell(k).1) && border_index(border_cell(k).0, border_cell(k).1) == k,
{
}

/// The light stays on the border, and each move takes it one place further
/// along the walk, from place 15 back to place 0.
pub proof fn lemma_move_advances(row: int, col: int)
    requires
        on_border(row, col),
    ensures
        on_border(next_border_cell(row, col).0, next_border_cell(row, col).1),
        border_index(next_border_cell(row, col).0, next_border_cell(row, col).1)
            == (border_index(row, col) + 1) % 16,
{
}

/// Each move goes to a neighbouring cell (one row or one column away), and
/// always clockwise round the centre of the matrix: the turn from the centre
/// to the cell and on along the move is to the right on the display.
pub proof fn lemma_move_clockwise(row: int, col: int)
    requires
        on_border(row, col),
    ensures
        ({
            let dr = next_border_cell(row, col).0 - row;
            let dc = next_border_cell(row, col).1 - col;
            &&& (dr == 0 && (dc == 1 || dc == -1)) || (dc == 0 && (dr == 1 || dr == -1))
            &&& (col - 2) * dr - (row - 2) * dc > 0
        }),
{
}

/// After `steps` moves the light is on the border, `steps` places further
/// along the walk.
pub proof fn lemma_moves_advance(row: int, col: int, steps: nat)
    requires
        on_border(row, col),
    ensures
        on_border(border_cell_after(row, col, steps).0, border_cell_after(row, col, steps).1),
        border_index(border_cell_after(row, col, steps).0, border_cell_after(row, col, steps).1)
            == (border_index(row, col) + steps) % 16,
    decreases steps,
{
    if steps > 0 {
        lemma_moves_advance(row, col, (steps - 1) as nat);
        let prev = border_cell_after(row, col, (steps - 1) as nat);
        lemma_move_advances(prev.0, prev.1);
    }
}

/// The light returns to where it was after exactly 16 moves.
pub proof fn lemma_walk_returns(row: int, col: int)
    requires
        on_border(row, col),
    ensures
        border_cell_after(row, col, 16) == (row, col),
{
    lemma_moves_advance(row, col, 16);
    let here = border_cell_after(row, col, 16);
    lemma_border_places(row, col, 0);
    lemma_border_places(here.0, here.1, 0);
}

/// Within one round of 16 moves the light never comes back to a cell it
/// has lit.
pub proof fn lemma_walk_distinct(row: int, col: int, i: nat, j: nat)
    requires
        on_border(row, col),
        i < j < 16,
    ensures
        border_cell_after(row, col, i) != border_cell_after(row, col, j),
{
    lemma_moves_advance(row, col, i);
    lemma_moves_advance(row, col, j);
    lemma_border_places(row, col, 0);
    let b = border_index(row, col);
    let ci = border_cell_after(row, col, i);
    let cj = border_cell_after(row, col, j);
    assert((b + i) % 16 != (b + j) % 16);
    assert(border_index(ci.0, ci.1) != border_index(cj.0, cj.1));
}

/// Within one round of 16 moves the light lights every border cell.
pub proof fn lemma_walk_covers(row: int, col: int, r: int, c: int)
    requires
        on_border(row, col),
        on_border(r, c),
    ensures
        exists|i: nat| i < 16 && border_cell_after(row, col, i) == (r, c),
{
    lemma_border_places(row, col, 0);
    lemma_border_places(r, c, 0);
    let a = border_index(r, c);
    let b = border_index(row, col);
    let i: nat = if a >= b { (a - b) as nat } else { (a - b + 16) as nat };
    lemma_moves_advance(row, col, i);
    assert((b + i) % 16 == a);
    let there = border_cell_after(row, col, i);
    lemma_border_places(there.0, there.1, 0);
    assert(border_cell_after(row, col, i) == (r, c));
}

/// The cell lit by the running light.
pub struct RunningLight {
    row: usize,
    col: usize,
}

impl RunningLight {
    #[verifier::type_invariant]
    spec fn stays_on_border(&self) -> bool {
        on_border(self.row as int, self.col as int)
    }

    /// The lit cell's row.
    pub closed spec fn spec_row(&self) -> int {
        self.row as int
    }

    /// The lit cell's column.
    pub closed spec fn spec_col(&self) -> int {
        self.col as int
    }

    /// The light at the top left corner, where the walk starts.
    pub fn new() -> (light: Self)
        ensures
            light.spec_row() == 0,
            light.spec_col() == 0,
    {
        RunningLight { row: 0, col: 0 }
    }

    /// The lit cell's row.
    pub fn row(&self) -> (row: usize)
        ensures
            row == self.spec_row(),
            on_border(self.spec_row(), self.spec_col()),
    {
        proof { use_type_invariant(self); }
        self.row
    }

    /// The lit cell's column.
    pub fn col(&self) -> (col: usize)
        ensures
            col == self.spec_col(),
            on_border(self.spec_row(), self.spec_col()),
    {
        proof { use_type_invariant(self); }
        self.col
    }

    /// Moves the light one cell clockwise along the border.
    pub fn advance(&mut self)
        ensures
            (final(self).spec_row(), final(self).spec_col()) == next_border_cell(old(self).spec_row(), old(self).spec_col()),
            on_border(final(self).spec_row(), final(self).spec_col()),
    {
        proof { use_type_invariant(&*self); }
        let row = self.row;
        let col = self.col;
        if row == 0 && col < LAST {
            *self = RunningLight { row: 0, col: col + 1 };
        } else if col == LAST && row < LAST {
            *self = RunningLight { row: row + 1, col: LAST };
        } else if row == LAST && col > 0 {
            *self = RunningLight { row: LAST, col: col - 1 };
        } else {
            *self = RunningLight { row: row - 1, col: 0 };
        }
    }

    /// The frame with only the light's cell lit.
    pub fn frame(&self) -> (frame: [[u8; 5]; 5])
        ensures
            forall|r: int, c: int|
                0 <= r < 5 && 0 <= c < 5 ==> cell(frame, r, c) == (if r == self.spec_row() && c == self.spec_col() { 1u8 } else { 0u8 }),
    {
        proof { use_type_invariant(self); }
        let mut lit_row: [u8; 5] = [0u8; 5];
        lit_row[self.col] = 1;
        assert(forall|c: int| 0 <= c < 5 ==> lit_row@[c] == (if c == self.spec_col() { 1u8 } else { 0u8 }));
        let mut frame = blank();
        let ghost before = frame;
        frame[self.row] = lit_row;
        assert forall|r: int, c: int| 0 <= r < 5 && 0 <= c < 5 implies cell(frame, r, c) == (if r == self.spec_row() && c == self.spec_col() { 1u8 } else { 0u8 }) by {
            if r == self.spec_row() {
                assert(frame@[r] == lit_row);
            } else {
                assert(frame@[r] == before@[r]);
                assert(cell(before, r, c) == 0);
            }
        }
        frame
    }
}

} // verus!
