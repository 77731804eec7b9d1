use tetris_core::app_state::{Key, Message};
use tetris_core::cli::CliConfig;
use tetris_core::input::{is_repeatable, InputHandler, LoopClock};

const MS: u64 = 1_000_000;

fn handler() -> InputHandler {
    InputHandler::new(&CliConfig { das_ms: 133, arr_ms: 10, theme: "cyberpunk".to_string() })
}

#[test]
fn only_arrows_repeat() {
    assert!(is_repeatable(&Key::Left));
    assert!(is_repeatable(&Key::Right));
    assert!(is_repeatable(&Key::Down));
    assert!(!is_repeatable(&Key::Up));
    assert!(!is_repeatable(&Key::Char(' ')));
}

#[test]
fn held_arrow_repeats_after_delay_then_at_rate() {
    let mut h = handler();
    assert_eq!(h.key_pressed(Key::Left, 0), Message::Key(Key::Left));
    assert!(h.process_repeats(132 * MS).is_empty(), "before the delay nothing repeats");
    assert_eq!(h.process_repeats(133 * MS), vec![Message::Key(Key::Left)]);
    assert!(h.process_repeats(142 * MS).is_empty(), "the rate has not passed yet");
    assert_eq!(h.process_repeats(143 * MS), vec![Message::Key(Key::Left)]);
    h.key_released(Key::Left);
    assert!(h.process_repeats(500 * MS).is_empty());
}

#[test]
fn pressing_again_restarts_the_delay_and_other_keys_do_not_hold() {
    let mut h = handler();
    h.key_pressed(Key::Right, 0);
    h.key_pressed(Key::Right, 100 * MS);
    assert_eq!(h.held_keys.len(), 1);
    assert!(h.process_repeats(200 * MS).is_empty());
    assert_eq!(h.key_pressed(Key::Char(' '), 200 * MS), Message::Key(Key::Char(' ')));
    assert_eq!(h.held_keys.len(), 1);
    assert_eq!(h.process_repeats(233 * MS), vec![Message::Key(Key::Right)]);
}

#[test]
fn zero_rate_repeats_on_every_check() {
    let mut h = InputHandler::new(&CliConfig { das_ms: 50, arr_ms: 0, theme: "retro".to_string() });
    h.key_pressed(Key::Down, 0);
    h.key_pressed(Key::Left, 0);
    assert_eq!(h.process_repeats(50 * MS).len(), 2);
    assert_eq!(h.process_repeats(50 * MS).len(), 2);
}

#[test]
fn loop_clock_counts_whole_ticks_and_frames() {
    let mut c = LoopClock::new(0);
    assert_eq!(c.due_ticks(19 * MS), 0);
    assert_eq!(c.due_ticks(45 * MS), 2);
    assert_eq!(c.last_tick, 40 * MS);
    assert_eq!(c.due_ticks(59 * MS), 0);
    assert_eq!(c.due_ticks(60 * MS), 1);
    assert!(!c.frame_due(15 * MS));
    assert!(c.frame_due(16 * MS));
    assert_eq!(c.last_frame, 16 * MS);
    assert!(!c.frame_due(20 * MS));
    assert!(!c.frame_due(10 * MS));
}
