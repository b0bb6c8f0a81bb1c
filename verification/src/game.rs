//! The game state machine: one board, the falling piece and its queued
//! successor, collision detection, locking, and line-clear compaction.

use vstd::prelude::*;

use crate::board::{
    empty_grid_spec, empty_row, empty_row_spec, grid_of, place_blocks, Board,
};
use crate::cell_type::CellType;
use crate::constants::{COLS, ROWS};
use crate::direction::Direction;
use crate::piece::{spec_rotate, Piece};
use crate::point_2d::Point2D;
use crate::rotation_direction::RotationDirection;

verus! {

/// Whether one of the first `n` blocks of the piece occupies the given
/// absolute coordinate.
pub open spec fn piece_covers_prefix(p: Piece, n: int, row: int, col: int) -> bool {
    exists|i: int| 0 <= i < n && #[trigger] p.block_row(i) == row && p.block_col(i) == col
}

/// Whether some block of the piece occupies the given absolute coordinate.
pub open spec fn piece_covers(p: Piece, row: int, col: int) -> bool {
    piece_covers_prefix(p, p.blocks@.len() as int, row, col)
}

/// Whether a coordinate lies on the board.
pub open spec fn in_bounds_coord(row: int, col: int) -> bool {
    &&& 0 <= row < ROWS
    &&& 0 <= col < COLS
}

/// Whether every block of the piece occupies a board cell.
pub open spec fn piece_in_board(p: Piece) -> bool {
    forall|i: int|
        0 <= i < p.blocks@.len() ==> in_bounds_coord(#[trigger] p.block_row(i), p.block_col(i))
}

/// Whether the piece is about to land on the given grid: some block either
/// touches the floor (its row is ROWS - 1) or sits directly above a filled
/// cell.
pub open spec fn collides(g: Seq<Seq<CellType>>, p: Piece) -> bool {
    exists|i: int|
        0 <= i < p.blocks@.len() && (#[trigger] p.block_row(i) == ROWS - 1 || g[p.block_row(i)
            + 1][p.block_col(i)].is_filled())
}

/// The piece as it stands after `k` unconditional downward moves.
pub open spec fn piece_dropped(p: Piece, k: int) -> Piece {
    Piece { position: Point2D { y: (p.position.y + k) as isize, x: p.position.x }, ..p }
}

/// A row with no empty cell.
pub open spec fn is_full_row(row: Seq<CellType>) -> bool {
    forall|c: int| 0 <= c < row.len() ==> (#[trigger] row[c]).is_filled()
}

/// The first `n` rows of the grid that are not full, in order.
pub open spec fn kept_rows(g: Seq<Seq<CellType>>, n: int) -> Seq<Seq<CellType>>
    decreases n,
{
    if n <= 0 {
        Seq::empty()
    } else if is_full_row(g[n - 1]) {
        kept_rows(g, n - 1)
    } else {
        kept_rows(g, n - 1).push(g[n - 1])
    }
}

/// Line-clear compaction: every full row disappears, the surviving rows keep
/// their relative order and contents and sink to the bottom, and as many
/// fresh empty rows enter at the top as rows were cleared.
pub open spec fn clear_rows_spec(g: Seq<Seq<CellType>>) -> Seq<Seq<CellType>> {
    let kept = kept_rows(g, g.len() as int);
    Seq::new((g.len() - kept.len()) as nat, |r: int| empty_row_spec()) + kept
}

/// At most `n` of the first `n` rows survive a clear.
pub proof fn lemma_kept_rows_len(g: Seq<Seq<CellType>>, n: int)
    ensures
        kept_rows(g, n).len() <= (if n <= 0 { 0int } else { n }),
    decreases n,
{
    if n > 0 {
        lemma_kept_rows_len(g, n - 1);
    }
}

/// Law: line-clear compaction leaves a board without any full row
/// byte-for-byte unchanged.
pub proof fn lemma_clear_rows_no_full_row_identity(g: Seq<Seq<CellType>>)
    requires
        forall|r: int| 0 <= r < g.len() ==> !is_full_row(#[trigger] g[r]),
    ensures
        clear_rows_spec(g) == g,
{
    lemma_kept_rows_prefix(g, g.len() as int);
    assert(clear_rows_spec(g) =~= g);
}

/// When no row among the first `n` is full, they all survive in place.
proof fn lemma_kept_rows_prefix(g: Seq<Seq<CellType>>, n: int)
    requires
        n <= g.len(),
        forall|r: int| 0 <= r < g.len() ==> !is_full_row(#[trigger] g[r]),
    ensures
        kept_rows(g, n) == g.subrange(0, if n <= 0 { 0int } else { n }),
    decreases n,
{
    if n <= 0 {
        assert(kept_rows(g, n) =~= g.subrange(0, 0));
    } else {
        lemma_kept_rows_prefix(g, n - 1);
        assert(kept_rows(g, n) =~= g.subrange(0, n));
    }
}

/// Law: a piece with a block on the bottom row always reports a collision.
pub proof fn lemma_collision_at_floor(g: Seq<Seq<CellType>>, p: Piece, i: int)
    requires
        0 <= i < p.blocks@.len(),
        p.block_row(i) == ROWS - 1,
    ensures
        collides(g, p),
{
}

/// Law: a freshly spawned piece lies entirely on the board, and still does
/// after its first downward step.
pub proof fn lemma_spawned_piece_in_board(p: Piece)
    requires
        p.spawned(),
    ensures
        piece_in_board(p),
        piece_in_board(piece_dropped(p, 1)),
{
}

/// Law: a piece whose blocks all stand above the bottom row, each with an
/// empty cell directly beneath, reports no collision.
pub proof fn lemma_no_collision_when_clear(g: Seq<Seq<CellType>>, p: Piece)
    requires
        forall|i: int|
            0 <= i < p.blocks@.len() ==> #[trigger] p.block_row(i) != ROWS - 1 && !g[p.block_row(i)
                + 1][p.block_col(i)].is_filled(),
    ensures
        !collides(g, p),
{
}

/// The game: one board, at most one falling piece, one queued successor, and
/// the mutable fall rate (milliseconds per row) toggled by soft drop.
pub struct Game {
    pub board: Board,
    pub current_piece: Option<Piece>,
    pub next_piece: Option<Piece>,
    pub fall_speed_ms_per_line: u64,
    pub default_fall_speed: u64,
    pub fall_speed_soft_drop: u64,
}

impl Game {
    /// Everything but the board and the pieces is unchanged.
    pub open spec fn same_speeds(self, other: Game) -> bool {
        &&& self.fall_speed_ms_per_line == other.fall_speed_ms_per_line
        &&& self.default_fall_speed == other.default_fall_speed
        &&& self.fall_speed_soft_drop == other.fall_speed_soft_drop
    }

    /// Creates a session with an empty board, no pieces, and the default
    /// fall rate of one second per line (soft drop is twenty times faster).
    pub fn new() -> (g: Game)
        ensures
            g.board.wf(),
            g.board.grid() == empty_grid_spec(),
            g.current_piece is None,
            g.next_piece is None,
            g.fall_speed_ms_per_line == 1000,
            g.default_fall_speed == 1000,
            g.fall_speed_soft_drop == 50,
    {
        Game {
            board: Board::new(),
            current_piece: None,
            next_piece: None,
            fall_speed_ms_per_line: 1000,  // 1 second per line
            default_fall_speed: 1000,
            fall_speed_soft_drop: 50,
        }
    }

    /// Starts the session: spawns the falling piece and the queued one.
    pub fn start(&mut self)
        ensures
            final(self).current_piece matches Some(p) && p.spawned() && p.wf(),
            final(self).next_piece matches Some(q) && q.spawned() && q.wf(),
            final(self).board == old(self).board,
            final(self).same_speeds(*old(self)),
    {
        self.current_piece = Some(Piece::generate_random_piece());
        self.next_piece = Some(Piece::generate_random_piece());
    }

    /// Moves the falling piece one column right unless a block would leave
    /// the board; without a falling piece this is a no-op.
    pub fn move_piece_right(&mut self)
        requires
            old(self).current_piece matches Some(p) ==> p.position.x < isize::MAX,
        ensures
            old(self).current_piece is None ==> *final(self) == *old(self),
            old(self).current_piece matches Some(p) ==> {
                &&& final(self).current_piece matches Some(q)
                &&& q.position.y == p.position.y
                &&& q.blocks == p.blocks
                &&& q.piece_type == p.piece_type
                &&& q.color == p.color
                &&& (p.can_move_spec(Direction::Right) ==> q.position.x == p.position.x + 1)
                &&& (!p.can_move_spec(Direction::Right) ==> q.position.x == p.position.x)
            },
            final(self).board == old(self).board,
            final(self).next_piece == old(self).next_piece,
            final(self).same_speeds(*old(self)),
    {
        if let Some(piece) = &mut self.current_piece {
            piece.move_right();
        }
    }

    /// Moves the falling piece one column left unless a block would leave
    /// the board; without a falling piece this is a no-op.
    pub fn move_piece_left(&mut self)
        requires
            old(self).current_piece matches Some(p) ==> p.position.x > isize::MIN,
        ensures
            old(self).current_piece is None ==> *final(self) == *old(self),
            old(self).current_piece matches Some(p) ==> {
                &&& final(self).current_piece matches Some(q)
                &&& q.position.y == p.position.y
                &&& q.blocks == p.blocks
                &&& q.piece_type == p.piece_type
                &&& q.color == p.color
                &&& (p.can_move_spec(Direction::Left) ==> q.position.x == p.position.x - 1)
                &&& (!p.can_move_spec(Direction::Left) ==> q.position.x == p.position.x)
            },
            final(self).board == old(self).board,
            final(self).next_piece == old(self).next_piece,
            final(self).same_speeds(*old(self)),
    {
        if let Some(piece) = &mut self.current_piece {
            piece.move_left();
        }
    }

    /// Moves the falling piece one row down, unconditionally; without a
    /// falling piece this is a no-op.
    pub fn move_piece_down(&mut self)
        requires
            old(self).current_piece matches Some(p) ==> p.position.y < isize::MAX,
        ensures
            old(self).current_piece is None ==> *final(self) == *old(self),
            old(self).current_piece matches Some(p) ==> final(self).current_piece == Some(
                piece_dropped(p, 1),
            ),
            final(self).board == old(self).board,
            final(self).next_piece == old(self).next_piece,
            final(self).same_speeds(*old(self)),
    {
        if let Some(piece) = &mut self.current_piece {
            piece.move_down();
        }
    }

    /// Rotates the falling piece in the given direction; without a falling
    /// piece this is a no-op.
    pub fn rotate_piece(&mut self, direction: RotationDirection)
        requires
            old(self).current_piece matches Some(p) ==> p.wf(),
        ensures
            old(self).current_piece is None ==> *final(self) == *old(self),
            old(self).current_piece matches Some(p) ==> {
                &&& final(self).current_piece matches Some(q)
                &&& q.blocks@ == spec_rotate(p.piece_type, direction, p.blocks@)
                &&& q.position == p.position
                &&& q.piece_type == p.piece_type
                &&& q.color == p.color
                &&& q.wf()
            },
            final(self).board == old(self).board,
            final(self).next_piece == old(self).next_piece,
            final(self).same_speeds(*old(self)),
    {
        if let Some(piece) = &mut self.current_piece {
            piece.rotate(direction);
        }
    }

    /// Switches to the accelerated soft-drop fall rate.
    pub fn start_soft_drop(&mut self)
        ensures
            final(self).fall_speed_ms_per_line == old(self).fall_speed_soft_drop,
            final(self).default_fall_speed == old(self).default_fall_speed,
            final(self).fall_speed_soft_drop == old(self).fall_speed_soft_drop,
            final(self).board == old(self).board,
            final(self).current_piece == old(self).current_piece,
            final(self).next_piece == old(self).next_piece,
    {
        self.fall_speed_ms_per_line = self.fall_speed_soft_drop;
    }

    /// Restores the default fall rate.
    pub fn stop_soft_drop(&mut self)
        ensures
            final(self).fall_speed_ms_per_line == old(self).default_fall_speed,
            final(self).default_fall_speed == old(self).default_fall_speed,
            final(self).fall_speed_soft_drop == old(self).fall_speed_soft_drop,
            final(self).board == old(self).board,
            final(self).current_piece == old(self).current_piece,
            final(self).next_piece == old(self).next_piece,
    {
        self.fall_speed_ms_per_line = self.default_fall_speed;
    }

    /// Whether the falling piece is about to land: some block touches the
    /// floor or sits directly above a filled cell. Without a falling piece
    /// there is no collision.
    pub fn detect_collision(&self) -> (r: bool)
        requires
            self.board.wf(),
            self.current_piece matches Some(p) ==> piece_in_board(p),
        ensures
            r == match self.current_piece {
                Some(p) => collides(self.board.grid(), p),
                None => false,
            },
    {
        if let Some(piece) = self.current_piece.as_ref() {
            let mut i: usize = 0;
            while i < piece.blocks.len()
                invariant
                    self.board.wf(),
                    self.current_piece == Some(*piece),
                    piece_in_board(*piece),
                    i <= piece.blocks.len(),
                    forall|j: int|
                        0 <= j < i ==> !(#[trigger] piece.block_row(j) == ROWS - 1
                            || self.board.grid()[piece.block_row(j) + 1][piece.block_col(
                            j,
                        )].is_filled()),
                decreases piece.blocks.len() - i,
            {
                let b = piece.blocks[i];
                let row: i128 = piece.position.y as i128 + b.y as i128;
                let col: i128 = piece.position.x as i128 + b.x as i128;
                proof {
                    assert(in_bounds_coord(piece.block_row(i as int), piece.block_col(i as int)));
                }
                if row == (ROWS - 1) as i128 {
                    proof {
                        assert(piece.block_row(i as int) == ROWS - 1);
                        assert(collides(self.board.grid(), *piece));
                    }
                    return true;  // Collision with the floor
                }
                proof {
                    assert(self.board.grid()[row + 1] == self.board.cells@[row + 1]@);
                }
                // Check whether the cell below the current block is filled
                let below = self.board.cells[(row + 1) as usize][col as usize];
                if !matches!(below, CellType::Empty) {
                    proof {
                        assert(self.board.grid()[piece.block_row(i as int) + 1][piece.block_col(
                            i as int,
                        )].is_filled());
                        assert(collides(self.board.grid(), *piece));
                    }
                    return true;  // Collision with the stack
                }
                i = i + 1;
            }
            false  // No collision
        } else {
            false  // No falling piece, no collision
        }
    }

    /// Clears every full row and compacts the board: surviving rows keep
    /// their relative order and contents and sink to the bottom, and as many
    /// fresh empty rows enter at the top as rows were cleared.
    pub fn detect_filled_rows(&mut self)
        requires
            old(self).board.wf(),
        ensures
            final(self).board.wf(),
            final(self).board.grid() == clear_rows_spec(old(self).board.grid()),
            final(self).board.rows == old(self).board.rows,
            final(self).board.cols == old(self).board.cols,
            final(self).current_piece == old(self).current_piece,
            final(self).next_piece == old(self).next_piece,
            final(self).same_speeds(*old(self)),
    {
        let ghost g0 = self.board.grid();
        let mut kept: Vec<Vec<CellType>> = Vec::new();
        let mut r: usize = 0;
        while r < ROWS
            invariant
                *self == *old(self),
                self.board.wf(),
                g0 == self.board.grid(),
                r <= ROWS,
                grid_of(kept@) == kept_rows(g0, r as int),
                kept@.len() <= r,
                forall|i: int| 0 <= i < kept@.len() ==> (#[trigger] kept@[i])@.len() == COLS,
            decreases ROWS - r,
        {
            proof {
                assert(self.board.grid()[r as int] == self.board.cells@[r as int]@);
            }
            let full = row_is_full(&self.board.cells[r]);
            if !full {
                let row_copy = clone_row(&self.board.cells[r]);
                let ghost prevk = kept@;
                kept.push(row_copy);
                proof {
                    assert(grid_of(kept@) =~= kept_rows(g0, r as int + 1));
                }
            }
            r = r + 1;
        }
        proof {
            lemma_kept_rows_len(g0, ROWS as int);
        }
        let n_cleared: usize = ROWS - kept.len();
        let mut cells: Vec<Vec<CellType>> = Vec::new();
        let mut k: usize = 0;
        while k < n_cleared
            invariant
                k <= n_cleared,
                cells@.len() == k,
                forall|i: int| 0 <= i < k ==> #[trigger] grid_of(cells@)[i] == empty_row_spec(),
            decreases n_cleared - k,
        {
            let ghost prev = cells@;
            cells.push(empty_row());
            proof {
                assert forall|i: int| 0 <= i < k + 1 implies #[trigger] grid_of(cells@)[i]
                    == empty_row_spec() by {
                    if i < k {
                        assert(grid_of(prev)[i] == empty_row_spec());
                        assert(cells@[i] == prev[i]);
                    } else {
                        assert(cells@[i]@ == empty_row_spec());
                    }
                }
            }
            k = k + 1;
        }
        let ghost empties = cells@;
        let ghost kept_view = kept@;
        cells.append(&mut kept);
        proof {
            assert(cells@ == empties + kept_view);
            assert forall|i: int| 0 <= i < cells@.len() implies #[trigger] grid_of(cells@)[i]
                == clear_rows_spec(g0)[i] by {
                if i < empties.len() {
                    assert(cells@[i] == empties[i]);
                    assert(grid_of(empties)[i] == empty_row_spec());
                } else {
                    assert(cells@[i] == kept_view[i - empties.len()]);
                    assert(grid_of(kept_view)[i - empties.len()] == kept_rows(g0, ROWS as int)[i
                        - empties.len()]);
                }
            }
            assert(grid_of(cells@) =~= clear_rows_spec(g0));
        }
        self.board.cells = cells;
    }

    /// One tick of the fall clock: the piece moves one row down; if it then
    /// reports a collision it is locked, full rows are cleared, and the
    /// queued piece takes its place. Without a falling piece this is a
    /// no-op.
    pub fn do_on_each_loop(&mut self)
        requires
            old(self).board.wf(),
            old(self).current_piece matches Some(p) ==> {
                &&& p.position.y < isize::MAX
                &&& piece_in_board(piece_dropped(p, 1))
            },
        ensures
            final(self).board.wf(),
            old(self).current_piece is None ==> *final(self) == *old(self),
            old(self).current_piece matches Some(p) ==> {
                let moved = piece_dropped(p, 1);
                if !collides(old(self).board.grid(), moved) {
                    &&& final(self).current_piece == Some(moved)
                    &&& final(self).board == old(self).board
                    &&& final(self).next_piece == old(self).next_piece
                } else {
                    &&& final(self).board.grid() == clear_rows_spec(
                        place_blocks(
                            old(self).board.grid(),
                            p.blocks@,
                            moved.position,
                            p.color,
                            p.blocks@.len() as int,
                        ),
                    )
                    &&& final(self).current_piece == old(self).next_piece
                    &&& (final(self).next_piece matches Some(np) && np.spawned() && np.wf())
                }
            },
            final(self).same_speeds(*old(self)),
    {
        self.move_piece_down();
        if self.detect_collision() {
            self.do_after_collision();
        }
    }

    /// Drops the falling piece until it reports a collision, then locks it:
    /// its blocks are committed to the board, full rows are cleared, and the
    /// queued piece takes its place. Without a falling piece this is a
    /// no-op.
    pub fn hard_drop(&mut self)
        requires
            old(self).board.wf(),
            old(self).current_piece matches Some(p) ==> p.wf() && piece_in_board(p),
        ensures
            final(self).board.wf(),
            old(self).current_piece is None ==> *final(self) == *old(self),
            old(self).current_piece matches Some(p) ==> {
                &&& exists|k: int|
                    {
                        &&& 0 <= k
                        &&& forall|j: int|
                            0 <= j < k ==> !collides(
                                old(self).board.grid(),
                                #[trigger] piece_dropped(p, j),
                            )
                        &&& collides(old(self).board.grid(), #[trigger] piece_dropped(p, k))
                        &&& final(self).board.grid() == clear_rows_spec(
                            place_blocks(
                                old(self).board.grid(),
                                p.blocks@,
                                piece_dropped(p, k).position,
                                p.color,
                                p.blocks@.len() as int,
                            ),
                        )
                    }
                &&& final(self).current_piece == old(self).next_piece
                &&& (final(self).next_piece matches Some(np) && np.spawned() && np.wf())
            },
            final(self).same_speeds(*old(self)),
    {
        if self.current_piece.is_none() {
            return ;
        }
        let ghost p0 = self.current_piece->Some_0;
        loop
            invariant_except_break
                self.board == old(self).board,
                self.next_piece == old(self).next_piece,
                self.current_piece matches Some(cur) && cur.wf() && piece_in_board(cur) && cur
                    == piece_dropped(p0, cur.position.y - p0.position.y) && cur.position.y
                    >= p0.position.y,
                forall|j: int|
                    0 <= j < (self.current_piece->Some_0.position.y - p0.position.y) ==> !collides(
                        old(self).board.grid(),
                        #[trigger] piece_dropped(p0, j),
                    ),
            invariant
                self.board.wf(),
                self.same_speeds(*old(self)),
                old(self).current_piece matches Some(q) && q == p0,
            ensures
                exists|k: int|
                    {
                        &&& 0 <= k
                        &&& forall|j: int|
                            0 <= j < k ==> !collides(
                                old(self).board.grid(),
                                #[trigger] piece_dropped(p0, j),
                            )
                        &&& collides(old(self).board.grid(), #[trigger] piece_dropped(p0, k))
                        &&& self.board.grid() == clear_rows_spec(
                            place_blocks(
                                old(self).board.grid(),
                                p0.blocks@,
                                piece_dropped(p0, k).position,
                                p0.color,
                                p0.blocks@.len() as int,
                            ),
                        )
                    },
                self.current_piece == old(self).next_piece,
                self.next_piece matches Some(np) && np.spawned() && np.wf(),
            decreases 19 - self.current_piece->Some_0.block_row(0),
        {
            let collision = self.detect_collision();
            if collision {
                let ghost d = self.current_piece->Some_0.position.y - p0.position.y;
                proof {
                    assert(collides(old(self).board.grid(), piece_dropped(p0, d)));
                    assert(self.current_piece->Some_0.blocks == p0.blocks);
                    assert(self.current_piece->Some_0.position == piece_dropped(p0, d).position);
                    assert(self.current_piece->Some_0.color == p0.color);
                }
                self.do_after_collision();
                proof {
                    assert(self.board.grid() == clear_rows_spec(
                        place_blocks(
                            old(self).board.grid(),
                            p0.blocks@,
                            piece_dropped(p0, d).position,
                            p0.color,
                            p0.blocks@.len() as int,
                        ),
                    ));
                }
                break ;
            }
            let ghost before = self.current_piece->Some_0;
            if let Some(piece) = &mut self.current_piece {
                piece.move_down();
            }
            proof {
                let d = before.position.y - p0.position.y;
                assert(!collides(old(self).board.grid(), piece_dropped(p0, d)));
                assert forall|i: int|
                    0 <= i < self.current_piece->Some_0.blocks@.len() implies in_bounds_coord(
                    #[trigger] self.current_piece->Some_0.block_row(i),
                    self.current_piece->Some_0.block_col(i),
                ) by {
                    assert(before.block_row(i) != ROWS - 1);
                    assert(in_bounds_coord(before.block_row(i), before.block_col(i)));
                }
            }
        }
    }

    /// Whether the snapshot with the falling piece drawn in shows a mark at
    /// the coordinate: the board cell is filled, or a block of the falling
    /// piece covers it.
    pub open spec fn shown(self, row: int, col: int) -> bool {
        self.board.grid()[row][col].is_filled() || match self.current_piece {
            Some(p) => piece_covers(p, row, col),
            None => false,
        }
    }

    /// Returns the canonical ROWS x COLS matrix snapshot with the falling
    /// piece drawn in: 1 where a board cell is filled or a block of the
    /// falling piece stands, 0 everywhere else.
    pub fn get_board_representation_with_current_piece(&self) -> (rep: Vec<Vec<usize>>)
        requires
            self.board.wf(),
            self.current_piece matches Some(p) ==> piece_in_board(p),
        ensures
            rep@.len() == ROWS,
            forall|r: int| 0 <= r < ROWS ==> (#[trigger] rep@[r])@.len() == COLS,
            forall|r: int, c: int|
                0 <= r < ROWS && 0 <= c < COLS ==> (#[trigger] rep@[r]@[c]) == (
                if self.shown(r, c) {
                    1usize
                } else {
                    0usize
                }),
    {
        let mut rep = self.board.get_board_representation();
        if let Some(piece) = self.current_piece.as_ref() {
            let mut i: usize = 0;
            while i < piece.blocks.len()
                invariant
                    self.board.wf(),
                    self.current_piece == Some(*piece),
                    piece_in_board(*piece),
                    i <= piece.blocks.len(),
                    rep@.len() == ROWS,
                    forall|r: int| 0 <= r < ROWS ==> (#[trigger] rep@[r])@.len() == COLS,
                    forall|r: int, c: int|
                        0 <= r < ROWS && 0 <= c < COLS ==> (#[trigger] rep@[r]@[c]) == (
                        if self.board.grid()[r][c].is_filled() || piece_covers_prefix(
                            *piece,
                            i as int,
                            r,
                            c,
                        ) {
                            1usize
                        } else {
                            0usize
                        }),
                decreases piece.blocks.len() - i,
            {
                let b = piece.blocks[i];
                proof {
                    assert(in_bounds_coord(piece.block_row(i as int), piece.block_col(i as int)));
                }
                let row: usize = (piece.position.y as i128 + b.y as i128) as usize;
                let col: usize = (piece.position.x as i128 + b.x as i128) as usize;
                let ghost prev = rep@;
                proof {
                    assert(rep@[row as int]@.len() == COLS);
                }
                rep[row][col] = 1;
                proof {
                    assert forall|r: int, c: int|
                        0 <= r < ROWS && 0 <= c < COLS implies (#[trigger] rep@[r]@[c]) == (
                    if self.board.grid()[r][c].is_filled() || piece_covers_prefix(
                        *piece,
                        i + 1,
                        r,
                        c,
                    ) {
                        1usize
                    } else {
                        0usize
                    }) by {
                        if r == row && c == col {
                            assert(piece.block_row(i as int) == r && piece.block_col(i as int)
                                == c);
                            assert(piece_covers_prefix(*piece, i + 1, r, c));
                        } else {
                            assert(rep@[r]@[c] == prev[r]@[c]);
                            if piece_covers_prefix(*piece, i + 1, r, c) {
                                let j = choose|j: int|
                                    0 <= j < i + 1 && #[trigger] piece.block_row(j) == r
                                        && piece.block_col(j) == c;
                                assert(j != i);
                                assert(piece_covers_prefix(*piece, i as int, r, c));
                            }
                        }
                    }
                }
                i = i + 1;
            }
        }
        rep
    }

    /// Locks the falling piece into the board, clears full rows, promotes
    /// the queued piece, and queues a fresh random one.
    fn do_after_collision(&mut self)
        requires
            old(self).board.wf(),
            old(self).current_piece is Some,
        ensures
            final(self).board.wf(),
            final(self).board.grid() == clear_rows_spec(
                place_blocks(
                    old(self).board.grid(),
                    old(self).current_piece->Some_0.blocks@,
                    old(self).current_piece->Some_0.position,
                    old(self).current_piece->Some_0.color,
                    old(self).current_piece->Some_0.blocks@.len() as int,
                ),
            ),
            final(self).current_piece == old(self).next_piece,
            final(self).next_piece matches Some(np) && np.spawned() && np.wf(),
            final(self).same_speeds(*old(self)),
    {
        let piece = self.current_piece.as_ref().unwrap();
        self.board.place_piece(piece);
        self.detect_filled_rows();
        self.current_piece = self.next_piece.take();
        self.next_piece = Some(Piece::generate_random_piece());
    }
}

/// Whether the given row vector has no empty cell.
fn row_is_full(row: &Vec<CellType>) -> (r: bool)
    ensures
        r == is_full_row(row@),
{
    let mut c: usize = 0;
    while c < row.len()
        invariant
            c <= row@.len(),
            forall|j: int| 0 <= j < c ==> (#[trigger] row@[j]).is_filled(),
        decreases row@.len() - c,
    {
        if matches!(row[c], CellType::Empty) {
            proof {
                assert(!row@[c as int].is_filled());
            }
            return false;
        }
        c = c + 1;
    }
    true
}

/// Copies one row of cells.
fn clone_row(row: &Vec<CellType>) -> (r: Vec<CellType>)
    ensures
        r@ == row@,
{
    let mut r: Vec<CellType> = Vec::new();
    let mut c: usize = 0;
    while c < row.len()
        invariant
            c <= row@.len(),
            r@ == row@.subrange(0, c as int),
        decreases row@.len() - c,
    {
        r.push(row[c]);
        proof {
            assert(r@ =~= row@.subrange(0, c + 1 as int));
        }
        c = c + 1;
    }
    proof {
        assert(row@.subrange(0, row@.len() as int) =~= row@);
    }
    r
}

} // verus!
