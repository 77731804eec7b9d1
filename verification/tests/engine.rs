use tetris_core::board::Board;
use tetris_core::engine::{Action, Engine, InputEvent};

#[test]
fn test_reset_determinism_same_seed() {
    let mut a = Engine::<10, 20>::new();
    let mut b = Engine::<10, 20>::new();
    a.reset(42);
    b.reset(42);
    assert_eq!(a.state.piece, b.state.piece);
    assert_eq!(a.state.rng, b.state.rng);
    for i in 0..5 {
        assert_eq!(a.state.next[i], b.state.next[i]);
    }
}

#[test]
fn test_reset_different_seed() {
    let mut a = Engine::<10, 20>::new();
    let mut b = Engine::<10, 20>::new();
    a.reset(42);
    b.reset(99);
    let diff = a.state.piece != b.state.piece || a.state.rng != b.state.rng;
    assert!(diff);
}

#[test]
fn test_tick_not_game_over() {
    let mut engine = Engine::<10, 20>::new();
    engine.reset(12345);
    for _ in 0..100 {
        if engine.game_over {
            break;
        }
        engine.tick(16);
    }
    assert!(!engine.game_over);
}

#[test]
fn test_get_lock_timer() {
    let mut engine = Engine::<10, 20>::new();
    engine.reset(12345);
    let t = engine.get_lock_timer();
    assert!(t >= 0);
}

#[test]
fn test_hard_drop_spawns_next() {
    let mut engine = Engine::<10, 20>::new();
    engine.reset(42);
    let first = engine.state.piece;
    engine.handle_action(Action::HardDrop);
    assert_ne!(engine.state.piece, first);
    assert_eq!(engine.get_lock_timer(), 0);
}

#[test]
fn test_multiple_hard_drops() {
    let mut engine = Engine::<10, 20>::new();
    engine.reset(12345);
    for _ in 0..5 {
        if engine.game_over {
            break;
        }
        engine.handle_action(Action::HardDrop);
    }
    assert!(!engine.game_over);
}

#[test]
fn test_first_hold_saves_piece() {
    let mut engine = Engine::<10, 20>::new();
    engine.reset(12345);
    let first = engine.state.piece;
    assert!(!engine.has_hold);
    engine.handle_action(Action::Hold);
    assert!(engine.has_hold);
    assert_eq!(engine.state.hold, first);
    assert!(engine.state.hold_used);
    assert_ne!(engine.state.piece, first);
}

#[test]
fn test_hold_swap_back() {
    let mut engine = Engine::<10, 20>::new();
    engine.reset(12345);
    let first = engine.state.piece;
    engine.handle_action(Action::Hold);
    engine.handle_action(Action::HardDrop);
    engine.handle_action(Action::Hold);
    assert_eq!(engine.state.piece, first);
}

#[test]
fn test_game_over_full_board_spawn() {
    let mut engine = Engine::<10, 20>::new();
    engine.reset(42);
    for i in 0..20 {
        engine.state.board.rows[i] = Board::<10, 20>::full_mask();
    }
    engine.spawn();
    assert!(engine.game_over);
}

#[test]
fn test_normal_reset_not_game_over() {
    let mut engine = Engine::<10, 20>::new();
    engine.reset(12345);
    assert!(!engine.game_over);
}

#[test]
fn test_scripted_deterministic() {
    let mut a = Engine::<10, 20>::new();
    let mut b = Engine::<10, 20>::new();
    a.reset(100);
    b.reset(100);

    let seq = [
        Action::MoveLeft,
        Action::MoveRight,
        Action::RotateCW,
        Action::HardDrop,
        Action::Hold,
        Action::SoftDrop,
    ];

    for act in seq {
        a.handle_action(act);
        b.handle_action(act);
    }

    assert_eq!(a.state.piece, b.state.piece);
    assert_eq!(a.state.rng, b.state.rng);
    assert_eq!(a.game_over, b.game_over);
}

#[test]
fn test_state_hash_same_engine_equal() {
    let mut a = Engine::<10, 20>::new();
    let mut b = Engine::<10, 20>::new();
    a.reset(42);
    b.reset(42);
    assert_eq!(a.state_hash(), b.state_hash());
}

#[test]
fn test_state_hash_different_engine_unequal() {
    let mut a = Engine::<10, 20>::new();
    let mut b = Engine::<10, 20>::new();
    a.reset(42);
    b.reset(99);
    assert_ne!(a.state_hash(), b.state_hash());
}

#[test]
fn test_state_hash_changes_after_action() {
    let mut a = Engine::<10, 20>::new();
    a.reset(42);
    let h0 = a.state_hash();
    a.handle_action(Action::MoveLeft);
    let h1 = a.state_hash();
    assert_ne!(h0, h1);
}

#[test]
fn test_fixed_tick_advances_gravity() {
    let mut engine = Engine::<10, 20>::new();
    engine.reset(12345);
    let start_y = engine.state.y;
    for _ in 0..50 {
        engine.fixed_tick(&[]);
    }
    assert!(engine.state.y > start_y || engine.game_over);
}

#[test]
fn test_fixed_tick_with_input() {
    let mut engine = Engine::<10, 20>::new();
    engine.reset(42);
    let piece_before = engine.state.piece;
    let result = engine.fixed_tick(&[InputEvent {
        key: Action::HardDrop as u8,
        pressed: true,
    }]);
    assert!(result.cleared);
    assert_ne!(engine.state.piece, piece_before);
}

#[test]
fn test_state_hash_matches_after_same_actions() {
    let mut a = Engine::<10, 20>::new();
    let mut b = Engine::<10, 20>::new();
    a.reset(42);
    b.reset(42);

    for _ in 0..5 {
        a.handle_action(Action::HardDrop);
        b.handle_action(Action::HardDrop);
    }

    assert_eq!(a.state_hash(), b.state_hash());
}
