use tetris::board::Board;
use tetris::cell_type::{CellType, PieceColor};
use tetris::constants::{COLS, ROWS};

#[test]
fn test_board_initialization() {
    let board = Board::new();
    assert_eq!(board.rows, ROWS);
    assert_eq!(board.cols, COLS);
    assert_eq!(board.cells.len(), ROWS);
    for row in &board.cells {
        assert_eq!(row.len(), COLS);
        assert_eq!(row.iter().all(|&cell| cell == CellType::Empty), true);
    }
}

#[test]
fn set_cell_writes_inside_the_board() {
    let mut board = Board::new();
    board.set_cell(0, 0, CellType::Filled(PieceColor::Blue));
    assert_eq!(board.cells[0][0], CellType::Filled(PieceColor::Blue));
    board.set_cell(19, 9, CellType::Filled(PieceColor::Red));
    assert_eq!(board.cells[19][9], CellType::Filled(PieceColor::Red));
}

#[test]
fn set_cell_out_of_bounds_is_ignored() {
    let mut board = Board::new();
    board.set_cell(ROWS, 0, CellType::Filled(PieceColor::Blue));
    board.set_cell(0, COLS, CellType::Filled(PieceColor::Blue));
    board.set_cell(usize::MAX, usize::MAX, CellType::Filled(PieceColor::Blue));
    for row in &board.cells {
        assert!(row.iter().all(|&cell| cell == CellType::Empty));
    }
}

#[test]
fn get_board_representation_marks_filled_cells() {
    let mut board = Board::new();
    board.set_cell(3, 4, CellType::Filled(PieceColor::Green));
    board.set_cell(19, 0, CellType::Filled(PieceColor::Cyan));
    let rep = board.get_board_representation();
    assert_eq!(rep.len(), ROWS);
    for (r, row) in rep.iter().enumerate() {
        assert_eq!(row.len(), COLS);
        for (c, &v) in row.iter().enumerate() {
            if (r, c) == (3, 4) || (r, c) == (19, 0) {
                assert_eq!(v, 1);
            } else {
                assert_eq!(v, 0);
            }
        }
    }
}

#[test]
fn get_filled_cells_lists_exactly_the_filled_cells_in_order() {
    let mut board = Board::new();
    board.set_cell(19, 4, CellType::Filled(PieceColor::Yellow));
    board.set_cell(18, 0, CellType::Filled(PieceColor::Blue));
    board.set_cell(18, 7, CellType::Filled(PieceColor::Red));
    let filled = board.get_filled_cells();
    assert_eq!(
        filled,
        vec![
            ((18, 0), CellType::Filled(PieceColor::Blue)),
            ((18, 7), CellType::Filled(PieceColor::Red)),
            ((19, 4), CellType::Filled(PieceColor::Yellow)),
        ]
    );
}
