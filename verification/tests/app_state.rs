use std::time::Instant;
use tetris_core::app_state::{step, update, AppState, Key, Message};
use tetris_core::cli::CellType;
use tetris_core::engine::{Action, Engine};

#[test]
fn test_menu_navigate_down() {
    let (next, quit) = step(AppState::Menu { selected: 0 }, Message::Key(Key::Down));
    assert!(!quit);
    match next {
        AppState::Menu { selected } => assert_eq!(selected, 1),
        _ => panic!("expected Menu"),
    }
}

#[test]
fn test_menu_navigate_up_clamp() {
    let (next, _) = step(AppState::Menu { selected: 0 }, Message::Key(Key::Up));
    match next {
        AppState::Menu { selected } => assert_eq!(selected, 0),
        _ => panic!("expected Menu"),
    }
}

#[test]
fn test_menu_enter_starts_game() {
    let (next, quit) = step(AppState::Menu { selected: 0 }, Message::Key(Key::Enter));
    assert!(!quit);
    assert!(matches!(next, AppState::Playing { .. }));
}

#[test]
fn test_menu_quit_index_5() {
    let (_, quit) = step(AppState::Menu { selected: 5 }, Message::Key(Key::Enter));
    assert!(quit);
}

#[test]
fn test_playing_to_pause() {
    let mut engine = Engine::<10, 20>::new();
    engine.reset(42);
    let state = AppState::Playing {
        engine,
        start_time: Instant::now(),
        clear_flash_timer: 0,
        score_flash_timer: 0,
        prev_grid: [[CellType::Empty; 10]; 20],
        prev_flash_mask: 0,
        prev_half: false,
    };
    let (next, quit) = step(state, Message::Key(Key::Char('p')));
    assert!(!quit);
    assert!(matches!(next, AppState::Pause { .. }));
}

#[test]
fn test_pause_to_playing() {
    let mut engine = Engine::<10, 20>::new();
    engine.reset(42);
    let state = AppState::Pause {
        engine,
        start_time: Instant::now(),
    };
    let (next, quit) = step(state, Message::Key(Key::Char('p')));
    assert!(!quit);
    assert!(matches!(next, AppState::Playing { .. }));
}

#[test]
fn test_gameover_enter_returns_menu() {
    let state = AppState::GameOver {
        score: 1000,
        lines: 10,
        level: 2,
        max_combo: 3,
        tspin_count: 1,
    };
    let (next, quit) = step(state, Message::Key(Key::Enter));
    assert!(!quit);
    assert!(matches!(next, AppState::Menu { .. }));
}

#[test]
fn test_update_quit_signal() {
    let mut state = AppState::Menu { selected: 0 };
    let quit = update(&mut state, Message::Quit);
    assert!(quit);
}

#[test]
fn menu_lobby_entries_open_lobbies() {
    let (next, _) = step(AppState::Menu { selected: 1 }, Message::Key(Key::Enter));
    match next {
        AppState::LobbyHost { room_code, players } => {
            assert!(room_code.is_empty());
            assert_eq!(players, vec!["Host".to_string()]);
        }
        _ => panic!("expected LobbyHost"),
    }
    let (next, _) = step(AppState::Menu { selected: 3 }, Message::Key(Key::Enter));
    match next {
        AppState::LobbyClient { players, .. } => assert_eq!(players, vec!["Joining relay...".to_string()]),
        _ => panic!("expected LobbyClient"),
    }
}

#[test]
fn playing_hard_drop_moves_to_next_piece_and_pause_quit_shows_game_over() {
    let mut engine = Engine::<10, 20>::new();
    engine.reset(42);
    let mut reference = engine;
    reference.handle_action(Action::HardDrop);
    let state = AppState::Playing {
        engine,
        start_time: Instant::now(),
        clear_flash_timer: 0,
        score_flash_timer: 0,
        prev_grid: [[CellType::Empty; 10]; 20],
        prev_flash_mask: 0,
        prev_half: false,
    };
    let (next, quit) = step(state, Message::Key(Key::Char(' ')));
    assert!(!quit);
    match next {
        AppState::Playing { engine, score_flash_timer, .. } => {
            assert_eq!(engine.state.piece, reference.state.piece);
            assert_eq!(engine.scorer.score, reference.scorer.score);
            assert_eq!(score_flash_timer, if reference.scorer.score > 0 { 10 } else { 0 });
            let (paused, _) = step(AppState::Pause { engine, start_time: Instant::now() }, Message::Key(Key::Char('q')));
            match paused {
                AppState::GameOver { score, .. } => assert_eq!(score as u64, reference.scorer.score),
                _ => panic!("expected GameOver"),
            }
        }
        _ => panic!("expected Playing"),
    }
}

#[test]
fn clock_seeds_and_fresh_games() {
    assert_eq!(tetris_core::app_state::game_seed(None), 0);
    assert_eq!(tetris_core::app_state::game_seed(Some(1_700_000_000_123)), 1_700_000_000_123u128 as u32);
    let a = tetris_core::app_state::new_game(7);
    let b = tetris_core::app_state::new_game(7);
    match (a, b) {
        (tetris_core::app_state::AppState::Playing { engine: ea, .. }, tetris_core::app_state::AppState::Playing { engine: eb, .. }) => {
            assert_eq!(ea.state_hash(), eb.state_hash());
            assert!(!ea.game_over);
        },
        _ => panic!("a new game is a playing screen"),
    }
}
