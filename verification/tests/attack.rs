use tetris_core::attack::calculate_attack;
use tetris_core::board::Board;
use tetris_core::state::State;
use tetris_core::types::{Piece, Rot};

fn base_state() -> State<10, 20> {
    State {
        board: Board::new(),
        piece: Piece::T,
        rot: Rot::R0,
        x: 3,
        y: 0,
        hold: Piece::I,
        hold_used: false,
        next: [Piece::I; 5],
        rng: 0,
        combo: 0,
        b2b: false,
        pending_garbage: 0,
        last_move_was_rotation: false,
        last_clear_mask: 0,
        last_clear_count: 0,
        last_harddrop_cols: 0,
        last_harddrop_start_y: 0,
        last_harddrop_end_y: 0,
        last_harddrop_piece: Piece::I,
        last_harddrop_valid: false,
    }
}

#[test]
fn test_normal_damage_0() {
    let mut st = base_state();
    st.board.rows[0] = 1;
    let res = calculate_attack(&mut st, 0);
    assert_eq!(res.damage, 0);
    assert_eq!(st.combo, 0);
}

#[test]
fn test_normal_damage_1() {
    let mut st = base_state();
    st.board.rows[0] = 1;
    let res = calculate_attack(&mut st, 1);
    assert_eq!(res.damage, 0);
}

#[test]
fn test_normal_damage_2() {
    let mut st = base_state();
    st.board.rows[0] = 1;
    let res = calculate_attack(&mut st, 2);
    assert_eq!(res.damage, 1);
}

#[test]
fn test_normal_damage_3() {
    let mut st = base_state();
    st.board.rows[0] = 1;
    let res = calculate_attack(&mut st, 3);
    assert_eq!(res.damage, 2);
}

#[test]
fn test_normal_damage_4_tetris() {
    let mut st = base_state();
    st.board.rows[0] = 1;
    let res = calculate_attack(&mut st, 4);
    assert_eq!(res.damage, 4);
    assert!(!res.is_b2b);
    assert!(st.b2b);
}

fn make_tspin_state() -> State<10, 20> {
    let mut st = State {
        board: Board::new(),
        piece: Piece::T,
        rot: Rot::R0,
        x: 3,
        y: 5,
        hold: Piece::I,
        hold_used: false,
        next: [Piece::I; 5],
        rng: 0,
        combo: 0,
        b2b: false,
        pending_garbage: 0,
        last_move_was_rotation: true,
        last_clear_mask: 0,
        last_clear_count: 0,
        last_harddrop_cols: 0,
        last_harddrop_start_y: 0,
        last_harddrop_end_y: 0,
        last_harddrop_piece: Piece::I,
        last_harddrop_valid: false,
    };
    let cx = st.x as i32 + 1;
    let cy = st.y as i32 + 1;
    st.board.rows[(cy - 1) as usize] |= 1u64 << (cx - 1); // top-left
    st.board.rows[(cy - 1) as usize] |= 1u64 << (cx + 1); // top-right
    st.board.rows[(cy + 1) as usize] |= 1u64 << (cx + 1); // bottom-right
    st
}

#[test]
fn test_tspin_single() {
    let mut st = make_tspin_state();
    let res = calculate_attack(&mut st, 1);
    assert!(res.is_tspin);
    assert_eq!(res.damage, 2);
}

#[test]
fn test_tspin_double() {
    let mut st = make_tspin_state();
    let res = calculate_attack(&mut st, 2);
    assert!(res.is_tspin);
    assert_eq!(res.damage, 4);
}

#[test]
fn test_tspin_triple() {
    let mut st = make_tspin_state();
    let res = calculate_attack(&mut st, 3);
    assert!(res.is_tspin);
    assert_eq!(res.damage, 6);
}

#[test]
fn test_not_tspin_without_rotation() {
    let mut st = make_tspin_state();
    st.last_move_was_rotation = false;
    let res = calculate_attack(&mut st, 2);
    assert!(!res.is_tspin);
}

#[test]
fn test_b2b_first_tetris() {
    let mut st = base_state();
    st.board.rows[0] = 1;
    let res = calculate_attack(&mut st, 4);
    assert!(!res.is_b2b);
    assert!(st.b2b);
    assert_eq!(res.damage, 4);
}

#[test]
fn test_b2b_consecutive() {
    let mut st = base_state();
    st.board.rows[0] = 1;
    st.b2b = true;
    let res = calculate_attack(&mut st, 4);
    assert!(res.is_b2b);
    assert!(st.b2b);
    assert_eq!(res.damage, 5);
}

#[test]
fn test_b2b_break() {
    let mut st = base_state();
    st.board.rows[0] = 1;
    st.b2b = true;
    let res = calculate_attack(&mut st, 2);
    assert!(!res.is_b2b);
    assert!(!st.b2b);
    assert_eq!(res.damage, 1);
}

#[test]
fn test_b2b_tspin() {
    let mut st = make_tspin_state();
    let res = calculate_attack(&mut st, 2);
    assert!(res.is_tspin);
    assert!(st.b2b);
}

#[test]
fn test_combo_0() {
    let mut st = base_state();
    st.board.rows[0] = 1;
    st.combo = 0;
    let res = calculate_attack(&mut st, 1);
    assert_eq!(res.damage, 0);
    assert_eq!(st.combo, 1);
}

#[test]
fn test_combo_1() {
    let mut st = base_state();
    st.board.rows[0] = 1;
    st.combo = 1;
    let res = calculate_attack(&mut st, 1);
    assert_eq!(res.damage, 0);
    assert_eq!(st.combo, 2);
}

#[test]
fn test_combo_2() {
    let mut st = base_state();
    st.board.rows[0] = 1;
    st.combo = 2;
    let res = calculate_attack(&mut st, 1);
    assert_eq!(res.damage, 1);
    assert_eq!(st.combo, 3);
}

#[test]
fn test_combo_3() {
    let mut st = base_state();
    st.board.rows[0] = 1;
    st.combo = 3;
    let res = calculate_attack(&mut st, 1);
    assert_eq!(res.damage, 1);
    assert_eq!(st.combo, 4);
}

#[test]
fn test_perfect_clear() {
    let mut st = State::<10, 20> {
        board: Board::new(),
        piece: Piece::T,
        rot: Rot::R0,
        x: 3,
        y: 0,
        hold: Piece::I,
        hold_used: false,
        next: [Piece::I; 5],
        rng: 0,
        combo: 0,
        b2b: false,
        pending_garbage: 0,
        last_move_was_rotation: false,
        last_clear_mask: 0,
        last_clear_count: 0,
        last_harddrop_cols: 0,
        last_harddrop_start_y: 0,
        last_harddrop_end_y: 0,
        last_harddrop_piece: Piece::I,
        last_harddrop_valid: false,
    };
    let res = calculate_attack(&mut st, 4);
    assert!(res.perfect_clear);
    assert_eq!(res.damage, 14);
}

#[test]
fn test_not_perfect_clear() {
    let mut st = base_state();
    st.board.rows[19] = 0x001;
    let res = calculate_attack(&mut st, 1);
    assert!(!res.perfect_clear);
    assert_eq!(res.damage, 0);
}
