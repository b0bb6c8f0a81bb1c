//! The board: a fixed ROWS x COLS grid of cells with bounded writes, piece
//! locking, and the snapshot queries used by the game logic, the tests, and
//! the presentation layer.

use vstd::prelude::*;

use crate::cell_type::{CellType, PieceColor};
use crate::constants::{COLS, ROWS};
use crate::piece::Piece;
use crate::point_2d::Point2D;

verus! {

/// The mathematical view of a cell store: a sequence of rows, each a
/// sequence of cells.
pub open spec fn grid_of(cells: Seq<Vec<CellType>>) -> Seq<Seq<CellType>> {
    cells.map_values(|row: Vec<CellType>| row@)
}

/// A row of COLS empty cells.
pub open spec fn empty_row_spec() -> Seq<CellType> {
    Seq::new(COLS as nat, |c: int| CellType::Empty)
}

/// A fully empty grid of ROWS rows.
pub open spec fn empty_grid_spec() -> Seq<Seq<CellType>> {
    Seq::new(ROWS as nat, |r: int| empty_row_spec())
}

/// A well-formed grid: exactly ROWS rows of COLS cells each.
pub open spec fn wf_grid(g: Seq<Seq<CellType>>) -> bool {
    &&& g.len() == ROWS
    &&& forall|r: int| 0 <= r < g.len() ==> (#[trigger] g[r]).len() == COLS
}

/// Writing one cell at a (possibly out-of-range) coordinate: an in-range
/// write replaces that cell, an out-of-range write changes nothing.
pub open spec fn place_cell(g: Seq<Seq<CellType>>, row: int, col: int, cell: CellType) -> Seq<
    Seq<CellType>,
> {
    if 0 <= row < g.len() && 0 <= col < g[row].len() {
        g.update(row, g[row].update(col, cell))
    } else {
        g
    }
}

/// Locking the first `n` blocks of a piece into the grid, in block order,
/// each write bounds-checked.
pub open spec fn place_blocks(
    g: Seq<Seq<CellType>>,
    blocks: Seq<Point2D>,
    pos: Point2D,
    color: PieceColor,
    n: int,
) -> Seq<Seq<CellType>>
    decreases n,
{
    if n <= 0 {
        g
    } else {
        place_cell(
            place_blocks(g, blocks, pos, color, n - 1),
            pos.y + blocks[n - 1].y,
            pos.x + blocks[n - 1].x,
            CellType::Filled(color),
        )
    }
}

/// The fixed-size grid of cells a game session plays on. Created once per
/// session, fully empty; mutated cell-by-cell on piece lock and rebuilt on
/// line-clear compaction; never resized.
pub struct Board {
    pub rows: usize,
    pub cols: usize,
    pub cells: Vec<Vec<CellType>>,
}

impl Board {
    /// The mathematical contents of the board.
    pub open spec fn grid(self) -> Seq<Seq<CellType>> {
        grid_of(self.cells@)
    }

    /// Structural invariant: the dimension fields match the constants and
    /// the grid has exactly ROWS rows of COLS cells.
    pub open spec fn wf(self) -> bool {
        &&& self.rows == ROWS
        &&& self.cols == COLS
        &&& wf_grid(self.grid())
    }

    /// Creates a fully empty board.
    pub fn new() -> (b: Self)
        ensures
            b.wf(),
            b.grid() == empty_grid_spec(),
    {
        let mut cells: Vec<Vec<CellType>> = Vec::new();
        let mut r: usize = 0;
        while r < ROWS
            invariant
                r <= ROWS,
                cells@.len() == r,
                forall|i: int| 0 <= i < r ==> #[trigger] grid_of(cells@)[i] == empty_row_spec(),
            decreases ROWS - r,
        {
            let ghost prev = cells@;
            cells.push(empty_row());
            proof {
                assert forall|i: int| 0 <= i < r + 1 implies #[trigger] grid_of(cells@)[i]
                    == empty_row_spec() by {
                    if i < r {
                        assert(grid_of(prev)[i] == empty_row_spec());
                        assert(cells@[i] == prev[i]);
                    } else {
                        assert(cells@[i]@ == empty_row_spec());
                    }
                }
            }
            r = r + 1;
        }
        proof {
            assert(grid_of(cells@) =~= empty_grid_spec());
        }
        Self { rows: ROWS, cols: COLS, cells }
    }

    /// Writes one cell. Out-of-range coordinates are silently ignored: no
    /// cell changes, nothing panics.
    pub fn set_cell(&mut self, row: usize, col: usize, cell_type: CellType)
        requires
            old(self).wf(),
        ensures
            final(self).wf(),
            final(self).grid() == place_cell(old(self).grid(), row as int, col as int, cell_type),
    {
        if Piece::is_in_bounds(row, col) {
            proof {
                assert(self.grid()[row as int] == self.cells@[row as int]@);
            }
            self.cells[row][col] = cell_type;
            proof {
                assert(self.grid() =~= old(self).grid().update(
                    row as int,
                    old(self).grid()[row as int].update(col as int, cell_type),
                ));
            }
        }
    }

    /// Returns every filled cell with its color, as a row-major sorted list
    /// of ((row, col), cell) entries; used only by presentation.
    pub fn get_filled_cells(&self) -> (res: Vec<((usize, usize), CellType)>)
        requires
            self.wf(),
        ensures
            forall|k: int|
                0 <= k < res@.len() ==> {
                    let ((r, c), cell) = #[trigger] res@[k];
                    &&& r < ROWS
                    &&& c < COLS
                    &&& cell == self.grid()[r as int][c as int]
                    &&& cell.is_filled()
                },
            forall|r: int, c: int|
                0 <= r < ROWS && 0 <= c < COLS && (#[trigger] self.grid()[r][c]).is_filled()
                    ==> has_entry(res@, r, c, self.grid()[r][c]),
            forall|k1: int, k2: int|
                0 <= k1 < k2 < res@.len() ==> res@[k1].0.0 < res@[k2].0.0 || (res@[k1].0.0
                    == res@[k2].0.0 && res@[k1].0.1 < res@[k2].0.1),
    {
        let mut res: Vec<((usize, usize), CellType)> = Vec::new();
        let mut r: usize = 0;
        while r < ROWS
            invariant
                self.wf(),
                r <= ROWS,
                forall|k: int|
                    0 <= k < res@.len() ==> {
                        let ((rr, cc), cell) = #[trigger] res@[k];
                        &&& (rr as int) < r
                        &&& cc < COLS
                        &&& cell == self.grid()[rr as int][cc as int]
                        &&& cell.is_filled()
                    },
                forall|rr: int, cc: int|
                    0 <= rr < r && 0 <= cc < COLS && (#[trigger] self.grid()[rr][cc]).is_filled()
                        ==> has_entry(res@, rr, cc, self.grid()[rr][cc]),
                forall|k1: int, k2: int|
                    0 <= k1 < k2 < res@.len() ==> res@[k1].0.0 < res@[k2].0.0 || (res@[k1].0.0
                        == res@[k2].0.0 && res@[k1].0.1 < res@[k2].0.1),
            decreases ROWS - r,
        {
            let mut c: usize = 0;
            while c < COLS
                invariant
                    self.wf(),
                    r < ROWS,
                    c <= COLS,
                    forall|k: int|
                        0 <= k < res@.len() ==> {
                            let ((rr, cc), cell) = #[trigger] res@[k];
                            &&& (rr as int) < r || (rr as int == r && (cc as int) < c)
                            &&& cc < COLS
                            &&& cell == self.grid()[rr as int][cc as int]
                            &&& cell.is_filled()
                        },
                    forall|rr: int, cc: int|
                        0 <= rr < ROWS && 0 <= cc < COLS && (rr < r || (rr == r && cc < c)) && (
                        #[trigger] self.grid()[rr][cc]).is_filled() ==> has_entry(
                            res@,
                            rr,
                            cc,
                            self.grid()[rr][cc],
                        ),
                    forall|k1: int, k2: int|
                        0 <= k1 < k2 < res@.len() ==> res@[k1].0.0 < res@[k2].0.0 || (res@[k1].0.0
                            == res@[k2].0.0 && res@[k1].0.1 < res@[k2].0.1),
                decreases COLS - c,
            {
                proof {
                    assert(self.grid()[r as int] == self.cells@[r as int]@);
                }
                let cell = self.cells[r][c];
                if !matches!(cell, CellType::Empty) {
                    let ghost prev = res@;
                    res.push(((r, c), cell));
                    proof {
                        assert forall|rr: int, cc: int|
                            0 <= rr < ROWS && 0 <= cc < COLS && (rr < r || (rr == r && cc < c + 1))
                                && (#[trigger] self.grid()[rr][cc]).is_filled() implies has_entry(
                            res@,
                            rr,
                            cc,
                            self.grid()[rr][cc],
                        ) by {
                            if rr == r && cc == c {
                                assert(res@[prev.len() as int] == (
                                    (r, c),
                                    self.grid()[rr][cc],
                                ));
                            } else {
                                let k = choose|k: int|
                                    0 <= k < prev.len() && prev[k] == (
                                        (rr as usize, cc as usize),
                                        self.grid()[rr][cc],
                                    );
                                assert(res@[k] == prev[k]);
                            }
                        }
                    }
                }
                c = c + 1;
            }
            r = r + 1;
        }
        res
    }

    /// Returns the canonical ROWS x COLS matrix snapshot: 1 for a filled
    /// cell, 0 for an empty one.
    pub fn get_board_representation(&self) -> (rep: Vec<Vec<usize>>)
        requires
            self.wf(),
        ensures
            rep@.len() == ROWS,
            forall|r: int| 0 <= r < ROWS ==> (#[trigger] rep@[r])@.len() == COLS,
            forall|r: int, c: int|
                0 <= r < ROWS && 0 <= c < COLS ==> (#[trigger] rep@[r]@[c]) == (
                if self.grid()[r][c].is_filled() {
                    1usize
                } else {
                    0usize
                }),
    {
        let mut rep: Vec<Vec<usize>> = Vec::new();
        let mut r: usize = 0;
        while r < ROWS
            invariant
                self.wf(),
                r <= ROWS,
                rep@.len() == r,
                forall|i: int| 0 <= i < r ==> (#[trigger] rep@[i])@.len() == COLS,
                forall|i: int, c: int|
                    0 <= i < r && 0 <= c < COLS ==> (#[trigger] rep@[i]@[c]) == (
                    if self.grid()[i][c].is_filled() {
                        1usize
                    } else {
                        0usize
                    }),
            decreases ROWS - r,
        {
            let mut row_rep: Vec<usize> = Vec::new();
            let mut c: usize = 0;
            while c < COLS
                invariant
                    self.wf(),
                    r < ROWS,
                    c <= COLS,
                    row_rep@.len() == c,
                    forall|j: int|
                        0 <= j < c ==> (#[trigger] row_rep@[j]) == (
                        if self.grid()[r as int][j].is_filled() {
                            1usize
                        } else {
                            0usize
                        }),
                decreases COLS - c,
            {
                proof {
                    assert(self.grid()[r as int] == self.cells@[r as int]@);
                }
                let v: usize = match self.cells[r][c] {
                    CellType::Filled(_) => 1,
                    CellType::Empty => 0,
                };
                row_rep.push(v);
                c = c + 1;
            }
            rep.push(row_rep);
            r = r + 1;
        }
        rep
    }

    /// Locks a piece into the grid: writes every block as a filled cell of
    /// the piece's color at its absolute position, each write bounds-checked.
    pub fn place_piece(&mut self, piece: &Piece)
        requires
            old(self).wf(),
        ensures
            final(self).wf(),
            final(self).grid() == place_blocks(
                old(self).grid(),
                piece.blocks@,
                piece.position,
                piece.color,
                piece.blocks@.len() as int,
            ),
    {
        let mut i: usize = 0;
        while i < piece.blocks.len()
            invariant
                self.wf(),
                i <= piece.blocks.len(),
                self.grid() == place_blocks(
                    old(self).grid(),
                    piece.blocks@,
                    piece.position,
                    piece.color,
                    i as int,
                ),
            decreases piece.blocks.len() - i,
        {
            let b = piece.blocks[i];
            let row: i128 = piece.position.y as i128 + b.y as i128;
            let col: i128 = piece.position.x as i128 + b.x as i128;
            if 0 <= row && row < ROWS as i128 && 0 <= col && col < COLS as i128 {
                self.set_cell(row as usize, col as usize, CellType::Filled(piece.color));
            }
            i = i + 1;
        }
    }
}

/// Whether `s` holds an entry for coordinate (`r`, `c`) carrying `cell`.
pub open spec fn has_entry(
    s: Seq<((usize, usize), CellType)>,
    r: int,
    c: int,
    cell: CellType,
) -> bool {
    exists|k: int| 0 <= k < s.len() && s[k] == ((r as usize, c as usize), cell)
}

/// Builds one row of COLS empty cells.
pub(crate) fn empty_row() -> (row: Vec<CellType>)
    ensures
        row@ == empty_row_spec(),
{
    let mut row: Vec<CellType> = Vec::new();
    let mut c: usize = 0;
    while c < COLS
        invariant
            c <= COLS,
            row@.len() == c,
            forall|j: int| 0 <= j < c ==> #[trigger] row@[j] == CellType::Empty,
        decreases COLS - c,
    {
        row.push(CellType::Empty);
        c = c + 1;
    }
    proof {
        assert(row@ =~= empty_row_spec());
    }
    row
}

} // verus!
