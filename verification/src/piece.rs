//! Tetromino pieces: shape tables, rotation algebra, movement, and the
//! absolute-position query used by collision detection and rendering.

use vstd::prelude::*;

use crate::cell_type::PieceColor;
use crate::constants::{COLS, ROWS};
use crate::direction::Direction;
use crate::piece_type::PieceType;
use crate::point_2d::Point2D;
use crate::rotation_direction::RotationDirection;

verus! {

/// The fixed relative block offsets a piece of the given type starts with,
/// pivot-relative, row (`y`) first.
pub open spec fn initial_blocks(piece_type: PieceType) -> Seq<Point2D> {
    match piece_type {
        PieceType::I => seq![
            Point2D { y: 0, x: -1isize },
            Point2D { y: 0, x: 0 },
            Point2D { y: 0, x: 1 },
            Point2D { y: 0, x: 2 },
        ],
        PieceType::J => seq![
            Point2D { y: 0, x: -1isize },
            Point2D { y: 0, x: 0 },
            Point2D { y: 0, x: 1 },
            Point2D { y: -1isize, x: -1isize },
        ],
        PieceType::L => seq![
            Point2D { y: 0, x: -1isize },
            Point2D { y: 0, x: 0 },
            Point2D { y: 0, x: 1 },
            Point2D { y: -1isize, x: 1 },
        ],
        PieceType::O => seq![
            Point2D { y: 0, x: 0 },
            Point2D { y: -1isize, x: 0 },
            Point2D { y: -1isize, x: 1 },
            Point2D { y: 0, x: 1 },
        ],
        PieceType::S => seq![
            Point2D { y: 0, x: -1isize },
            Point2D { y: 0, x: 0 },
            Point2D { y: -1isize, x: 0 },
            Point2D { y: -1isize, x: 1 },
        ],
        PieceType::T => seq![
            Point2D { y: -1isize, x: 0 },
            Point2D { y: 0, x: -1isize },
            Point2D { y: 0, x: 0 },
            Point2D { y: 0, x: 1 },
        ],
        PieceType::Z => seq![
            Point2D { y: -1isize, x: -1isize },
            Point2D { y: -1isize, x: 0 },
            Point2D { y: 0, x: 0 },
            Point2D { y: 0, x: 1 },
        ],
    }
}

/// The display tag each piece type carries.
pub open spec fn color_of(piece_type: PieceType) -> PieceColor {
    match piece_type {
        PieceType::I => PieceColor::Cyan,
        PieceType::J => PieceColor::Blue,
        PieceType::L => PieceColor::Orange,
        PieceType::O => PieceColor::Yellow,
        PieceType::S => PieceColor::Green,
        PieceType::T => PieceColor::Purple,
        PieceType::Z => PieceColor::Red,
    }
}

/// The fixed spawn anchor: column 4 (board-center-ish), row 1 for all types
/// except I, whose offset table extends one row higher and therefore spawns
/// at row 0 to keep its topmost block on-screen.
pub open spec fn spawn_position(piece_type: PieceType) -> Point2D {
    Point2D { y: if piece_type == PieceType::I { 0 } else { 1 }, x: 4 }
}

/// A relative block offset never strays more than two cells from the pivot;
/// the initial tables satisfy this and rotation preserves it.
pub open spec fn wf_offset(p: Point2D) -> bool {
    &&& -2 <= p.y <= 2
    &&& -2 <= p.x <= 2
}

/// A well-formed block set: exactly four offsets, all near the pivot.
pub open spec fn wf_blocks(s: Seq<Point2D>) -> bool {
    &&& s.len() == 4
    &&& forall|i: int| 0 <= i < s.len() ==> wf_offset(#[trigger] s[i])
}

/// One clockwise rotation step of a single offset: (y, x) maps to (x, -y).
pub open spec fn rotate_cw_point(p: Point2D) -> Point2D {
    Point2D { y: p.x, x: (-p.y) as isize }
}

/// One counter-clockwise rotation step of a single offset: (y, x) maps to
/// (-x, y).
pub open spec fn rotate_ccw_point(p: Point2D) -> Point2D {
    Point2D { y: (-p.x) as isize, x: p.y }
}

/// What one rotation command does to a block set: the O piece never rotates;
/// every other piece has the direction's linear transform applied to every
/// offset.
pub open spec fn spec_rotate(
    piece_type: PieceType,
    direction: RotationDirection,
    s: Seq<Point2D>,
) -> Seq<Point2D> {
    if piece_type == PieceType::O {
        s
    } else {
        match direction {
            RotationDirection::Clockwise => s.map_values(|p: Point2D| rotate_cw_point(p)),
            RotationDirection::CounterClockwise => s.map_values(|p: Point2D| rotate_ccw_point(p)),
        }
    }
}

/// The direction that undoes the given one.
pub open spec fn opposite(direction: RotationDirection) -> RotationDirection {
    match direction {
        RotationDirection::Clockwise => RotationDirection::CounterClockwise,
        RotationDirection::CounterClockwise => RotationDirection::Clockwise,
    }
}

/// A tetromino: its shape identity, its four pivot-relative block offsets,
/// its absolute anchor position on the board, and its display color.
pub struct Piece {
    /// The type of the piece.
    pub piece_type: PieceType,
    /// Points relative to the piece's position, with the pivot as (0, 0).
    pub blocks: Vec<Point2D>,
    /// The anchor position of the piece in the game area: `y` is the row,
    /// `x` the column, with the board's top-left corner as (0, 0).
    pub position: Point2D,
    /// The color used to render the piece and the cells it locks into.
    pub color: PieceColor,
}

impl Piece {
    /// Structural invariant: four pivot-near block offsets.
    pub open spec fn wf(self) -> bool {
        wf_blocks(self.blocks@)
    }

    /// A freshly spawned piece: the type's initial block table, its spawn
    /// anchor, and its display color.
    pub open spec fn spawned(self) -> bool {
        &&& self.blocks@ == initial_blocks(self.piece_type)
        &&& self.position == spawn_position(self.piece_type)
        &&& self.color == color_of(self.piece_type)
    }

    /// Creates a new [`Piece`] of the given type at the given position.
    pub fn new(piece_type: &PieceType, position: Point2D) -> (p: Self)
        ensures
            p.piece_type == *piece_type,
            p.blocks@ == initial_blocks(*piece_type),
            p.position == position,
            p.color == color_of(*piece_type),
            p.wf(),
    {
        proof {
            lemma_initial_blocks_wf(*piece_type);
        }
        Self {
            piece_type: *piece_type,
            blocks: create_piece(piece_type),
            position,
            color: Self::get_color_by_piece(piece_type),
        }
    }

    /// Picks one of the seven types uniformly at random and places it at the
    /// fixed spawn anchor.
    pub fn generate_random_piece() -> (p: Self)
        ensures
            p.spawned(),
            p.wf(),
    {
        let random_idx = random_piece_index();
        let piece_type = match random_idx {
            0 => PieceType::I,
            1 => PieceType::J,
            2 => PieceType::L,
            3 => PieceType::O,
            4 => PieceType::S,
            5 => PieceType::T,
            6 => PieceType::Z,
            _ => PieceType::I,
        };

        let col: isize = 4;  // Center the piece in the middle column
        let mut row: isize = 1;  // Start at the top row
        if piece_type == PieceType::I {
            row = 0;  // The I piece starts at row 0
        }

        Self::new(&piece_type, Point2D::new(row, col))
    }

    /// The display color derived from the shape identity.
    fn get_color_by_piece(piece_type: &PieceType) -> (c: PieceColor)
        ensures
            c == color_of(*piece_type),
    {
        match piece_type {
            PieceType::I => PieceColor::Cyan,
            PieceType::J => PieceColor::Blue,
            PieceType::L => PieceColor::Orange,
            PieceType::O => PieceColor::Yellow,
            PieceType::S => PieceColor::Green,
            PieceType::T => PieceColor::Purple,
            PieceType::Z => PieceColor::Red,
        }
    }

    /// Rotates the piece in the specified direction, replacing the whole
    /// block set. Rotation is purely geometric, about the piece's local
    /// origin: it checks neither board bounds nor collisions. The O piece
    /// never rotates.
    pub fn rotate(&mut self, direction: RotationDirection)
        requires
            old(self).wf(),
        ensures
            final(self).blocks@ == spec_rotate(old(self).piece_type, direction, old(self).blocks@),
            final(self).piece_type == old(self).piece_type,
            final(self).position == old(self).position,
            final(self).color == old(self).color,
            final(self).wf(),
    {
        if self.piece_type == PieceType::O {
            // O piece does not rotate
            return ;
        }

        match direction {
            RotationDirection::Clockwise => self.rotate_cw(),
            RotationDirection::CounterClockwise => self.rotate_ccw(),
        }
    }

    /// Rotates the piece clockwise, in place: (y, x) becomes (x, -y).
    fn rotate_cw(&mut self)
        requires
            old(self).wf(),
        ensures
            final(self).blocks@ == old(self).blocks@.map_values(|p: Point2D| rotate_cw_point(p)),
            final(self).piece_type == old(self).piece_type,
            final(self).position == old(self).position,
            final(self).color == old(self).color,
            final(self).wf(),
    {
        let mut rotated: Vec<Point2D> = Vec::new();
        let mut i: usize = 0;
        while i < self.blocks.len()
            invariant
                self == old(self),
                old(self).wf(),
                i <= self.blocks.len(),
                rotated@ == self.blocks@.subrange(0, i as int).map_values(
                    |p: Point2D| rotate_cw_point(p),
                ),
            decreases self.blocks.len() - i,
        {
            let p = self.blocks[i];
            rotated.push(Point2D { y: p.x, x: -p.y });
            proof {
                assert(self.blocks@.subrange(0, i + 1 as int).map_values(
                    |q: Point2D| rotate_cw_point(q),
                ) =~= self.blocks@.subrange(0, i as int).map_values(
                    |q: Point2D| rotate_cw_point(q),
                ).push(rotate_cw_point(self.blocks@[i as int])));
            }
            i = i + 1;
        }
        proof {
            assert(self.blocks@.subrange(0, self.blocks@.len() as int) =~= self.blocks@);
        }
        self.blocks = rotated;
    }

    /// Rotates the piece counter-clockwise, in place: (y, x) becomes (-x, y).
    fn rotate_ccw(&mut self)
        requires
            old(self).wf(),
        ensures
            final(self).blocks@ == old(self).blocks@.map_values(|p: Point2D| rotate_ccw_point(p)),
            final(self).piece_type == old(self).piece_type,
            final(self).position == old(self).position,
            final(self).color == old(self).color,
            final(self).wf(),
    {
        let mut rotated: Vec<Point2D> = Vec::new();
        let mut i: usize = 0;
        while i < self.blocks.len()
            invariant
                self == old(self),
                old(self).wf(),
                i <= self.blocks.len(),
                rotated@ == self.blocks@.subrange(0, i as int).map_values(
                    |p: Point2D| rotate_ccw_point(p),
                ),
            decreases self.blocks.len() - i,
        {
            let p = self.blocks[i];
            rotated.push(Point2D { y: -p.x, x: p.y });
            proof {
                assert(self.blocks@.subrange(0, i + 1 as int).map_values(
                    |q: Point2D| rotate_ccw_point(q),
                ) =~= self.blocks@.subrange(0, i as int).map_values(
                    |q: Point2D| rotate_ccw_point(q),
                ).push(rotate_ccw_point(self.blocks@[i as int])));
            }
            i = i + 1;
        }
        proof {
            assert(self.blocks@.subrange(0, self.blocks@.len() as int) =~= self.blocks@);
        }
        self.blocks = rotated;
    }

    /// Moves the piece one column left, unless some block would leave the
    /// board; an illegal command is silently ignored.
    pub fn move_left(&mut self)
        requires
            old(self).position.x > isize::MIN,
        ensures
            final(self).position.y == old(self).position.y,
            final(self).blocks == old(self).blocks,
            final(self).piece_type == old(self).piece_type,
            final(self).color == old(self).color,
            old(self).can_move_spec(Direction::Left) ==> final(self).position.x == old(
                self,
            ).position.x - 1,
            !old(self).can_move_spec(Direction::Left) ==> final(self).position.x == old(
                self,
            ).position.x,
    {
        if self.can_move(&Direction::Left) {
            self.position.x = self.position.x - 1;
        }
    }

    /// Moves the piece one column right, unless some block would leave the
    /// board; an illegal command is silently ignored.
    pub fn move_right(&mut self)
        requires
            old(self).position.x < isize::MAX,
        ensures
            final(self).position.y == old(self).position.y,
            final(self).blocks == old(self).blocks,
            final(self).piece_type == old(self).piece_type,
            final(self).color == old(self).color,
            old(self).can_move_spec(Direction::Right) ==> final(self).position.x == old(
                self,
            ).position.x + 1,
            !old(self).can_move_spec(Direction::Right) ==> final(self).position.x == old(
                self,
            ).position.x,
    {
        if self.can_move(&Direction::Right) {
            self.position.x = self.position.x + 1;
        }
    }

    /// Unconditionally moves the piece one row down. Callers must only
    /// invoke this when descent is legal, or must detect and resolve the
    /// collision immediately afterwards.
    pub fn move_down(&mut self)
        requires
            old(self).position.y < isize::MAX,
        ensures
            final(self).position.y == old(self).position.y + 1,
            final(self).position.x == old(self).position.x,
            final(self).blocks == old(self).blocks,
            final(self).piece_type == old(self).piece_type,
            final(self).color == old(self).color,
    {
        self.position.y = self.position.y + 1;
    }

    /// The column the anchor would move to under the given direction.
    pub open spec fn candidate_col(self, direction: Direction) -> int {
        match direction {
            Direction::Left => self.position.x - 1,
            Direction::Right => self.position.x + 1,
            Direction::Down => self.position.x as int,
        }
    }

    /// Whether every block would still satisfy the board bounds after the
    /// anchor column moved in the given direction. This checks bounds only,
    /// not cell occupancy.
    pub open spec fn can_move_spec(self, direction: Direction) -> bool {
        forall|i: int|
            0 <= i < self.blocks@.len() ==> {
                let b = #[trigger] self.blocks@[i];
                &&& 0 <= self.position.y + b.y < ROWS
                &&& 0 <= self.candidate_col(direction) + b.x < COLS
            }
    }

    /// Whether the piece may move in the given direction: true only if every
    /// block's resulting absolute coordinate stays within the board bounds.
    /// Occupancy of the target cells is not checked.
    pub fn can_move(&self, direction: &Direction) -> (r: bool)
        ensures
            r == self.can_move_spec(*direction),
    {
        let new_col: i128 = match direction {
            Direction::Left => self.position.x as i128 - 1,
            Direction::Right => self.position.x as i128 + 1,
            Direction::Down => self.position.x as i128,
        };
        let mut i: usize = 0;
        while i < self.blocks.len()
            invariant
                i <= self.blocks.len(),
                new_col == self.candidate_col(*direction),
                forall|j: int|
                    0 <= j < i ==> {
                        let b = #[trigger] self.blocks@[j];
                        &&& 0 <= self.position.y + b.y < ROWS
                        &&& 0 <= self.candidate_col(*direction) + b.x < COLS
                    },
            decreases self.blocks.len() - i,
        {
            let b = self.blocks[i];
            let block_row: i128 = self.position.y as i128 + b.y as i128;
            let block_col: i128 = new_col + b.x as i128;
            if !(0 <= block_row && block_row < ROWS as i128 && 0 <= block_col && block_col
                < COLS as i128) {
                return false;
            }
            i = i + 1;
        }
        true
    }

    /// Checks whether the given row and column lie within the bounds of the
    /// game area.
    pub fn is_in_bounds(row: usize, col: usize) -> (r: bool)
        ensures
            r == (row < ROWS && col < COLS),
    {
        row < ROWS && col < COLS
    }

    /// The absolute board coordinate occupied by block `i`.
    pub open spec fn block_row(self, i: int) -> int {
        self.position.y + self.blocks@[i].y
    }

    /// The absolute board column occupied by block `i`.
    pub open spec fn block_col(self, i: int) -> int {
        self.position.x + self.blocks@[i].x
    }

    /// Returns the absolute board coordinates of the four blocks: the
    /// piece's position plus each relative offset.
    pub fn get_blocks_position(&self) -> (r: Vec<Point2D>)
        requires
            forall|i: int|
                0 <= i < self.blocks@.len() ==> isize::MIN <= #[trigger] self.block_row(i)
                    <= isize::MAX && isize::MIN <= self.block_col(i) <= isize::MAX,
        ensures
            r@.len() == self.blocks@.len(),
            forall|i: int|
                0 <= i < r@.len() ==> #[trigger] r@[i] == (Point2D {
                    y: self.block_row(i) as isize,
                    x: self.block_col(i) as isize,
                }),
    {
        let mut r: Vec<Point2D> = Vec::new();
        let mut i: usize = 0;
        while i < self.blocks.len()
            invariant
                i <= self.blocks.len(),
                forall|j: int|
                    0 <= j < self.blocks@.len() ==> isize::MIN <= #[trigger] self.block_row(j)
                        <= isize::MAX && isize::MIN <= self.block_col(j) <= isize::MAX,
                r@.len() == i,
                forall|j: int|
                    0 <= j < i ==> #[trigger] r@[j] == (Point2D {
                        y: self.block_row(j) as isize,
                        x: self.block_col(j) as isize,
                    }),
            decreases self.blocks.len() - i,
        {
            let b = self.blocks[i];
            proof {
                assert(isize::MIN <= self.block_row(i as int) <= isize::MAX);
                assert(isize::MIN <= self.block_col(i as int) <= isize::MAX);
            }
            r.push(Point2D { y: self.position.y + b.y, x: self.position.x + b.x });
            i = i + 1;
        }
        r
    }
}

/// The initial block table of every type is well formed.
pub proof fn lemma_initial_blocks_wf(piece_type: PieceType)
    ensures
        wf_blocks(initial_blocks(piece_type)),
{
}

/// Law: rotation is a cyclic group of order four (order one for O). Applying
/// the same-direction rotation four times returns a well-formed block set to
/// its original value, for every piece type and either direction.
pub proof fn lemma_rotation_cycle(
    piece_type: PieceType,
    direction: RotationDirection,
    s: Seq<Point2D>,
)
    requires
        wf_blocks(s),
    ensures
        spec_rotate(
            piece_type,
            direction,
            spec_rotate(piece_type, direction, spec_rotate(piece_type, direction, spec_rotate(piece_type, direction, s))),
        ) == s,
{
    let r1 = spec_rotate(piece_type, direction, s);
    let r2 = spec_rotate(piece_type, direction, r1);
    let r3 = spec_rotate(piece_type, direction, r2);
    let r4 = spec_rotate(piece_type, direction, r3);
    assert(r4 =~= s);
}

/// Law: rotation is a no-op for the O piece, regardless of direction.
pub proof fn lemma_rotation_o_noop(direction: RotationDirection, s: Seq<Point2D>)
    ensures
        spec_rotate(PieceType::O, direction, s) == s,
{
}

/// Law: clockwise and counter-clockwise rotation are mutual inverses.
/// Rotating a well-formed block set one way and then the other restores it,
/// in either order.
pub proof fn lemma_rotation_inverse(
    piece_type: PieceType,
    direction: RotationDirection,
    s: Seq<Point2D>,
)
    requires
        wf_blocks(s),
    ensures
        spec_rotate(piece_type, opposite(direction), spec_rotate(piece_type, direction, s)) == s,
{
    let r1 = spec_rotate(piece_type, direction, s);
    let r2 = spec_rotate(piece_type, opposite(direction), r1);
    assert(r2 =~= s);
}

impl Clone for Piece {
    /// An exact copy: same type, blocks, position, and color.
    fn clone(&self) -> (r: Self)
        ensures
            r.piece_type == self.piece_type,
            r.blocks@ == self.blocks@,
            r.position == self.position,
            r.color == self.color,
    {
        Piece {
            piece_type: self.piece_type,
            blocks: clone_blocks(&self.blocks),
            position: self.position,
            color: self.color,
        }
    }
}

/// Copies a block-offset vector.
fn clone_blocks(v: &Vec<Point2D>) -> (r: Vec<Point2D>)
    ensures
        r@ == v@,
{
    let mut r: Vec<Point2D> = Vec::new();
    let mut i: usize = 0;
    while i < v.len()
        invariant
            i <= v@.len(),
            r@ == v@.subrange(0, i as int),
        decreases v@.len() - i,
    {
        r.push(v[i]);
        proof {
            assert(r@ =~= v@.subrange(0, i + 1 as int));
        }
        i = i + 1;
    }
    proof {
        assert(v@.subrange(0, v@.len() as int) =~= v@);
    }
    r
}

/// Law: the left board edge is enforced. A piece with a block in column 0
/// cannot move left: `can_move` denies the command and the position stays
/// unchanged.
pub proof fn lemma_move_left_blocked(p: Piece, i: int)
    requires
        0 <= i < p.blocks@.len(),
        p.block_col(i) == 0,
    ensures
        !p.can_move_spec(Direction::Left),
{
    assert(p.candidate_col(Direction::Left) + p.blocks@[i].x == -1);
}

/// Law: the right board edge is enforced. A piece with a block in column
/// COLS - 1 cannot move right: `can_move` denies the command and the
/// position stays unchanged.
pub proof fn lemma_move_right_blocked(p: Piece, i: int)
    requires
        0 <= i < p.blocks@.len(),
        p.block_col(i) == COLS - 1,
    ensures
        !p.can_move_spec(Direction::Right),
{
    assert(p.candidate_col(Direction::Right) + p.blocks@[i].x == COLS as int);
}

/// Builds the fixed initial block-offset table for the given piece type.
pub fn create_piece(piece_type: &PieceType) -> (blocks: Vec<Point2D>)
    ensures
        blocks@ == initial_blocks(*piece_type),
{
    let mut blocks: Vec<Point2D> = Vec::new();
    match piece_type {
        PieceType::I => {
            blocks.push(Point2D::new(0, -1));
            blocks.push(Point2D::new(0, 0));
            blocks.push(Point2D::new(0, 1));
            blocks.push(Point2D::new(0, 2));
        },
        PieceType::J => {
            blocks.push(Point2D::new(0, -1));
            blocks.push(Point2D::new(0, 0));
            blocks.push(Point2D::new(0, 1));
            blocks.push(Point2D::new(-1, -1));
        },
        PieceType::L => {
            blocks.push(Point2D::new(0, -1));
            blocks.push(Point2D::new(0, 0));
            blocks.push(Point2D::new(0, 1));
            blocks.push(Point2D::new(-1, 1));
        },
        PieceType::O => {
            blocks.push(Point2D::new(0, 0));
            blocks.push(Point2D::new(-1, 0));
            blocks.push(Point2D::new(-1, 1));
            blocks.push(Point2D::new(0, 1));
        },
        PieceType::S => {
            blocks.push(Point2D::new(0, -1));
            blocks.push(Point2D::new(0, 0));
            blocks.push(Point2D::new(-1, 0));
            blocks.push(Point2D::new(-1, 1));
        },
        PieceType::T => {
            blocks.push(Point2D::new(-1, 0));
            blocks.push(Point2D::new(0, -1));
            blocks.push(Point2D::new(0, 0));
            blocks.push(Point2D::new(0, 1));
        },
        PieceType::Z => {
            blocks.push(Point2D::new(-1, -1));
            blocks.push(Point2D::new(-1, 0));
            blocks.push(Point2D::new(0, 0));
            blocks.push(Point2D::new(0, 1));
        },
    }
    proof {
        assert(blocks@ =~= initial_blocks(*piece_type));
    }
    blocks
}

/// Relies on rand::random_range: a uniform sample from the given range, here
/// the seven piece-type indices; the result is always below seven. The range
/// is non-empty, so the call does not panic.
#[verifier::external_body]
fn random_piece_index() -> (r: usize)
    ensures
        r < 7,
{
    rand::random_range(0..7)
}

} // verus!
