use tetris_core::cli::{action_for_key_action, board_grid, render_cell_for_state, sanitize_config, CellType, CliConfig, ConnectionStatus};
use tetris_core::engine::Engine;
use tetris_core::piece::piece_def;
use tetris_core::rules::get_ghost_y;
use tetris_core::engine::{gravity_interval_ms, Action};
use tetris_core::newtypes::KeyAction;

#[test]
fn test_gravity_level_1() {
    let ms = gravity_interval_ms(1);
    assert_eq!(ms, 800, "level 1: {ms}ms");
}

#[test]
fn test_gravity_level_15() {
    let ms = gravity_interval_ms(15);
    assert!(ms <= 8, "level 15: {ms}ms");
}

#[test]
fn test_gravity_monotonic_decreasing() {
    for lvl in 1..15 {
        assert!(
            gravity_interval_ms(lvl) > gravity_interval_ms(lvl + 1),
            "level {lvl} not > level {}",
            lvl + 1
        );
    }
}

#[test]
fn test_gravity_min_floor() {
    assert!(gravity_interval_ms(100) >= 1);
}

#[test]
fn test_default_config() {
    let cfg = CliConfig::default();
    assert_eq!(cfg.das_ms, 133);
    assert_eq!(cfg.arr_ms, 10);
    assert_eq!(cfg.theme, "cyberpunk");
}

#[test]
fn sanitize_clamps_and_replaces_unknown_theme() {
    let cfg = sanitize_config(CliConfig { das_ms: 10, arr_ms: 1000, theme: "neon".to_string() });
    assert_eq!(cfg.das_ms, 50);
    assert_eq!(cfg.arr_ms, 100);
    assert_eq!(cfg.theme, "cyberpunk");
    let cfg = sanitize_config(CliConfig { das_ms: 900, arr_ms: 5, theme: "retro".to_string() });
    assert_eq!(cfg.das_ms, 500);
    assert_eq!(cfg.arr_ms, 5);
    assert_eq!(cfg.theme, "retro");
}

#[test]
fn connection_status_labels() {
    assert_eq!(ConnectionStatus::Online.label(), "ONLINE");
    assert_eq!(ConnectionStatus::Slow.label(), "SLOW");
    assert_eq!(ConnectionStatus::Reconnecting.label(), "RECONNECTING");
    assert_eq!(ConnectionStatus::Disconnected.label(), "DISCONNECTED");
    assert_eq!(ConnectionStatus::Resyncing.label(), "RESYNCING");
}

#[test]
fn key_actions_map_to_engine_actions() {
    assert_eq!(action_for_key_action(KeyAction::KeyLeft), Action::MoveLeft);
    assert_eq!(action_for_key_action(KeyAction::KeyHardDrop), Action::HardDrop);
    assert_eq!(action_for_key_action(KeyAction::KeyHold), Action::Hold);
    for v in 0u8..7 {
        assert_eq!(action_for_key_action(KeyAction::from_u8(v)), Action::from_u8(v));
    }
}

#[test]
fn opponent_cells_show_locked_ghost_and_active() {
    let mut engine = Engine::<10, 20>::new();
    engine.reset(42);
    let mut st = engine.state;
    st.board.rows[19] = 0b1;
    let shape = piece_def(st.piece).rot[0];
    let ghost_y = get_ghost_y(&st);
    assert_eq!(render_cell_for_state(&st, &shape, ghost_y, 0, 19), CellType::Locked);
    assert_eq!(render_cell_for_state(&st, &shape, ghost_y, 9, 0), CellType::Empty);
    let mut active = 0;
    let mut ghost = 0;
    for y in 0..20 {
        for x in 0..10 {
            match render_cell_for_state(&st, &shape, ghost_y, x, y) {
                CellType::Active(p) => {
                    assert_eq!(p, st.piece);
                    active += 1;
                },
                CellType::GhostPiece => ghost += 1,
                _ => {},
            }
        }
    }
    assert_eq!(active, 4);
    assert_eq!(ghost, 4);
    // Without a ghost row only the piece shows.
    assert_eq!(render_cell_for_state(&st, &shape, -1, 0, 19), CellType::Locked);
}

#[test]
fn main_grid_layers_piece_over_board() {
    let mut engine = Engine::<10, 20>::new();
    engine.reset(42);
    let mut st = engine.state;
    st.board.rows[19] = 0x3ff;
    let shape = piece_def(st.piece).rot[0];
    let ghost_y = get_ghost_y(&st);
    let grid = board_grid(&st, &shape, ghost_y, false);
    assert_eq!(grid.len(), 20);
    assert!(grid[19].iter().all(|c| *c == CellType::Locked));
    let count = |g: &Vec<Vec<CellType>>, want: fn(&CellType) -> bool| g.iter().flatten().filter(|c| want(c)).count();
    assert_eq!(count(&grid, |c| matches!(c, CellType::Active(_))), 4);
    assert_eq!(count(&grid, |c| *c == CellType::GhostPiece), 4);
    let over = board_grid(&st, &shape, ghost_y, true);
    assert_eq!(count(&over, |c| matches!(c, CellType::Active(_))), 0);
    assert_eq!(count(&over, |c| *c == CellType::GhostPiece), 0);
    assert_eq!(count(&over, |c| *c == CellType::Locked), 10);
}
