use tetris::cell_type::PieceColor;
use tetris::constants::COLS;
use tetris::piece::{create_piece, Piece};
use tetris::piece_type::PieceType;
use tetris::point_2d::Point2D;
use tetris::rotation_direction::RotationDirection;

#[test]
fn test_move_left_success() {
    let mut piece = Piece::new(&PieceType::I, Point2D::new(5, 5));
    let original_x = piece.position.x;
    piece.move_left();
    assert_eq!(piece.position.x, original_x - 1);
}

#[test]
fn test_move_right_success() {
    let mut piece = Piece::new(&PieceType::I, Point2D::new(5, 5));
    let original_x = piece.position.x;
    piece.move_right();
    assert_eq!(piece.position.x, original_x + 1);
}

#[test]
fn test_move_left_blocked() {
    // Place piece at left edge (x = 0)
    let mut piece = Piece::new(&PieceType::I, Point2D::new(5, 0));
    let original_x = piece.position.x;
    piece.move_left();
    // Should not move left
    assert_eq!(piece.position.x, original_x);
}

#[test]
fn test_move_right_blocked() {
    // Place piece at right edge (x = COLS - 1)
    let mut piece = Piece::new(&PieceType::I, Point2D::new(5, (COLS - 1) as isize));
    let original_x = piece.position.x;
    piece.move_right();
    // Should not move right
    assert_eq!(piece.position.x, original_x);
}

#[test]
fn test_z_piece_counter_clockwise_rotations() {
    // Initial State of Z Piece for reference: vec![Point2D::new(-1, -1), Point2D::new(-1, 0), Point2D::new(0, 0), Point2D::new(0, 1)]
    let mut piece = Piece::new(&PieceType::Z, Point2D::new(5, 5));

    // Initial positions (relative to origin)
    let expected0 = vec![
        Point2D::new(-1, -1),
        Point2D::new(-1, 0),
        Point2D::new(0, 0),
        Point2D::new(0, 1),
    ];
    assert_eq!(piece.blocks, expected0);

    // After 1st CCW rotation
    piece.rotate(RotationDirection::CounterClockwise);
    let expected1 = vec![
        Point2D::new(1, -1),
        Point2D::new(0, -1),
        Point2D::new(0, 0),
        Point2D::new(-1, 0),
    ];
    assert_eq!(piece.blocks, expected1);

    // After 2nd CCW rotation
    piece.rotate(RotationDirection::CounterClockwise);
    let expected2 = vec![
        Point2D::new(1, 1),
        Point2D::new(1, 0),
        Point2D::new(0, 0),
        Point2D::new(0, -1),
    ];
    assert_eq!(piece.blocks, expected2);

    // After 3rd CCW rotation
    piece.rotate(RotationDirection::CounterClockwise);
    let expected3 = vec![
        Point2D::new(-1, 1),
        Point2D::new(0, 1),
        Point2D::new(0, 0),
        Point2D::new(1, 0),
    ];
    assert_eq!(piece.blocks, expected3);

    // After 4th CCW rotation (should return to original)
    piece.rotate(RotationDirection::CounterClockwise);
    assert_eq!(piece.blocks, expected0);
}

#[test]
fn test_z_piece_clockwise_rotations() {
    // Initial State of Z Piece for reference: vec![Point2D::new(-1, -1), Point2D::new(-1, 0), Point2D::new(0, 0), Point2D::new(0, 1)]
    let mut piece = Piece::new(&PieceType::Z, Point2D::new(5, 5));

    // Initial positions (relative to origin)
    let expected0 = vec![
        Point2D::new(-1, -1),
        Point2D::new(-1, 0),
        Point2D::new(0, 0),
        Point2D::new(0, 1),
    ];
    assert_eq!(piece.blocks, expected0);

    // After 1st CW rotation: (y, x) -> (x, -y)
    piece.rotate(RotationDirection::Clockwise);
    let expected1 = vec![
        Point2D::new(-1, 1),
        Point2D::new(0, 1),
        Point2D::new(0, 0),
        Point2D::new(1, 0),
    ];
    assert_eq!(piece.blocks, expected1);

    // After 2nd CW rotation
    piece.rotate(RotationDirection::Clockwise);
    let expected2 = vec![
        Point2D::new(1, 1),
        Point2D::new(1, 0),
        Point2D::new(0, 0),
        Point2D::new(0, -1),
    ];
    assert_eq!(piece.blocks, expected2);

    // After 3rd CW rotation
    piece.rotate(RotationDirection::Clockwise);
    let expected3 = vec![
        Point2D::new(1, -1),
        Point2D::new(0, -1),
        Point2D::new(0, 0),
        Point2D::new(-1, 0),
    ];
    assert_eq!(piece.blocks, expected3);

    // After 4th CW rotation (should return to original)
    piece.rotate(RotationDirection::Clockwise);
    assert_eq!(piece.blocks, expected0);
}

fn all_types() -> Vec<PieceType> {
    vec![
        PieceType::I,
        PieceType::J,
        PieceType::L,
        PieceType::O,
        PieceType::S,
        PieceType::T,
        PieceType::Z,
    ]
}

#[test]
fn four_same_direction_rotations_restore_every_type() {
    for t in all_types() {
        for dir in [RotationDirection::Clockwise, RotationDirection::CounterClockwise] {
            let mut piece = Piece::new(&t, Point2D::new(5, 5));
            let original = piece.blocks.clone();
            for _ in 0..4 {
                piece.rotate(dir);
            }
            assert_eq!(piece.blocks, original);
        }
    }
}

#[test]
fn one_rotation_is_a_noop_only_for_o() {
    for t in all_types() {
        let mut piece = Piece::new(&t, Point2D::new(5, 5));
        let original = piece.blocks.clone();
        piece.rotate(RotationDirection::Clockwise);
        if t == PieceType::O {
            assert_eq!(piece.blocks, original);
        } else {
            assert_ne!(piece.blocks, original);
        }
    }
}

#[test]
fn clockwise_and_counter_clockwise_are_mutual_inverses() {
    for t in all_types() {
        let mut piece = Piece::new(&t, Point2D::new(5, 5));
        let original = piece.blocks.clone();
        piece.rotate(RotationDirection::Clockwise);
        piece.rotate(RotationDirection::CounterClockwise);
        assert_eq!(piece.blocks, original);
        piece.rotate(RotationDirection::CounterClockwise);
        piece.rotate(RotationDirection::Clockwise);
        assert_eq!(piece.blocks, original);
    }
}

#[test]
fn create_piece_builds_the_offset_table() {
    let blocks = create_piece(&PieceType::I);
    assert_eq!(
        blocks,
        vec![
            Point2D::new(0, -1),
            Point2D::new(0, 0),
            Point2D::new(0, 1),
            Point2D::new(0, 2),
        ]
    );
    let blocks = create_piece(&PieceType::T);
    assert_eq!(
        blocks,
        vec![
            Point2D::new(-1, 0),
            Point2D::new(0, -1),
            Point2D::new(0, 0),
            Point2D::new(0, 1),
        ]
    );
}

#[test]
fn new_piece_derives_its_color_from_the_type() {
    let colors = vec![
        (PieceType::I, PieceColor::Cyan),
        (PieceType::J, PieceColor::Blue),
        (PieceType::L, PieceColor::Orange),
        (PieceType::O, PieceColor::Yellow),
        (PieceType::S, PieceColor::Green),
        (PieceType::T, PieceColor::Purple),
        (PieceType::Z, PieceColor::Red),
    ];
    for (t, color) in colors {
        let piece = Piece::new(&t, Point2D::new(0, 0));
        assert_eq!(piece.color, color);
        assert_eq!(piece.piece_type, t);
    }
}

#[test]
fn generate_random_piece_spawns_at_the_fixed_anchor() {
    for _ in 0..50 {
        let piece = Piece::generate_random_piece();
        assert_eq!(piece.blocks.len(), 4);
        assert_eq!(piece.position.x, 4);
        if piece.piece_type == PieceType::I {
            assert_eq!(piece.position.y, 0);
        } else {
            assert_eq!(piece.position.y, 1);
        }
        assert_eq!(piece.blocks, create_piece(&piece.piece_type));
    }
}

#[test]
fn get_blocks_position_adds_the_anchor() {
    let piece = Piece::new(&PieceType::I, Point2D::new(18, 7));
    let positions = piece.get_blocks_position();
    assert_eq!(
        positions,
        vec![
            Point2D::new(18, 6),
            Point2D::new(18, 7),
            Point2D::new(18, 8),
            Point2D::new(18, 9),
        ]
    );
}

#[test]
fn is_in_bounds_checks_both_axes() {
    assert!(Piece::is_in_bounds(0, 0));
    assert!(Piece::is_in_bounds(19, 9));
    assert!(!Piece::is_in_bounds(20, 0));
    assert!(!Piece::is_in_bounds(0, 10));
}
