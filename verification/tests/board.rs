use tetris_core::board::Board;

#[test]
fn test_clear_lines_single_full_line() {
    let mut board = Board::<10, 20>::new();
    board.rows[19] = Board::<10, 20>::full_mask();
    let result = board.clear_lines();
    assert_eq!(result.count, 1);
    assert_eq!(result.mask, 1u64 << 19);
    assert_eq!(board.rows[19], 0);
}

#[test]
fn test_clear_lines_multiple_with_gaps() {
    let mut board = Board::<10, 20>::new();
    board.rows[19] = Board::<10, 20>::full_mask();
    board.rows[18] = 0x155;
    board.rows[17] = Board::<10, 20>::full_mask();
    let result = board.clear_lines();
    assert_eq!(result.count, 2);
    assert_eq!(board.rows[19], 0x155);
    assert_eq!(board.rows[18], 0);
    assert_eq!(board.rows[17], 0);
}

#[test]
fn test_clear_lines_no_full_lines() {
    let mut board = Board::<10, 20>::new();
    board.rows[19] = 0x001;
    board.rows[18] = 0x002;
    let result = board.clear_lines();
    assert_eq!(result.count, 0);
    assert_eq!(board.rows[19], 0x001);
    assert_eq!(board.rows[18], 0x002);
}

#[test]
fn test_clear_lines_full_board() {
    let mut board = Board::<10, 20>::new();
    for i in 0..20 {
        board.rows[i] = Board::<10, 20>::full_mask();
    }
    let result = board.clear_lines();
    assert_eq!(result.count, 20);
    for i in 0..20 {
        assert_eq!(board.rows[i], 0);
    }
}

#[test]
fn test_clear_lines_empty_board() {
    let mut board = Board::<10, 20>::new();
    let result = board.clear_lines();
    assert_eq!(result.count, 0);
}

#[test]
fn test_insert_garbage_3_lines_hole_4() {
    let mut board = Board::<10, 20>::new();
    board.insert_garbage(3, 4);
    let garbage_row = Board::<10, 20>::full_mask() & !(1u64 << 4);
    for i in 0..17 {
        assert_eq!(board.rows[i], 0);
    }
    assert_eq!(board.rows[19], garbage_row);
    assert_eq!(board.rows[18], garbage_row);
    assert_eq!(board.rows[17], garbage_row);
}

#[test]
fn column_heights_empty_board_returns_zeroes() {
    let board = Board::<10, 20>::new();
    assert_eq!(board.column_heights(), [0; 10]);
}

#[test]
fn aggregate_height_full_bottom_row_returns_width() {
    let mut board = Board::<10, 20>::new();
    board.rows[19] = Board::<10, 20>::full_mask();
    assert_eq!(board.aggregate_height(), 10);
}

#[test]
fn holes_counts_empty_cells_below_first_block() {
    let mut board = Board::<10, 20>::new();
    board.rows[17] = 1;
    board.rows[19] = 1;
    assert_eq!(board.holes(), 1);
}

#[test]
fn bumpiness_sums_adjacent_height_deltas() {
    let mut board = Board::<10, 20>::new();
    board.rows[18] = 1;
    board.rows[19] = 0b11;
    assert_eq!(board.bumpiness(), 2);
}

#[test]
fn wells_counts_depression_depth() {
    let mut board = Board::<10, 20>::new();
    board.rows[17] = 0b101;
    board.rows[18] = 0b101;
    board.rows[19] = 0b101;
    assert_eq!(board.wells(), 3);
}

#[test]
fn row_transitions_empty_board_returns_zero() {
    let board = Board::<10, 20>::new();
    assert_eq!(board.row_transitions(), 0);
}

#[test]
fn row_transitions_counts_single_mid_row_cell_with_walls() {
    let mut board = Board::<10, 20>::new();
    board.rows[19] = 1u64 << 4;
    assert_eq!(board.row_transitions(), 4);
}

#[test]
fn covered_holes_empty_board_returns_zero() {
    let board = Board::<10, 20>::new();
    assert_eq!(board.covered_holes(), 0);
}

#[test]
fn covered_holes_counts_blocks_above_hole() {
    let mut board = Board::<10, 20>::new();
    board.rows[16] = 1;
    board.rows[17] = 1;
    board.rows[18] = 1;
    assert_eq!(board.covered_holes(), 3);
}
