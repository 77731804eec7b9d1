use tetris_core::lockdelay::{LockDelay, LockDelayTicks, LOCK_DELAY_MS};

#[test]
fn test_not_active_by_default() {
    let ld = LockDelay::new();
    assert!(!ld.active);
    assert_eq!(ld.move_reset_count, 0);
    let mut ld = ld;
    assert!(!ld.update());
    assert_eq!(ld.remaining_ms(), 0);
}

#[test]
fn test_start_activates_timer() {
    let mut ld = LockDelay::new();
    ld.start();
    assert!(ld.active);
    let rem = ld.remaining_ms();
    assert!(rem > 0);
    assert!(rem <= LOCK_DELAY_MS as i32);
    assert!(!ld.update());
}

#[test]
fn test_start_is_idempotent() {
    let mut ld = LockDelay::new();
    ld.start();
    ld.start();
    assert!(ld.active);
}

#[test]
fn test_reset_increments_counter() {
    let mut ld = LockDelay::new();
    ld.start();
    ld.reset();
    assert_eq!(ld.move_reset_count, 1);
    assert!(ld.active);
}

#[test]
fn test_15_resets_still_running() {
    let mut ld = LockDelay::new();
    ld.start();
    for _ in 0..15 {
        ld.reset();
    }
    assert_eq!(ld.move_reset_count, 15);
    assert!(!ld.update());
    assert!(ld.active);
}

#[test]
fn test_cancel_clears_state() {
    let mut ld = LockDelay::new();
    ld.start();
    ld.cancel();
    assert!(!ld.active);
    assert_eq!(ld.move_reset_count, 0);
    assert!(!ld.update());
    assert_eq!(ld.remaining_ms(), 0);
}

#[test]
fn test_reset_activates_inactive() {
    let mut ld = LockDelay::new();
    assert!(!ld.active);
    ld.reset();
    assert!(ld.active);
    assert_eq!(ld.move_reset_count, 1);
    assert!(ld.remaining_ms() > 0);
}

// ── LockDelayTicks tests ──

#[test]
fn test_ticks_not_active_by_default() {
    let mut ld = LockDelayTicks::new();
    assert!(!ld.active);
    assert_eq!(ld.move_reset_count, 0);
    assert!(!ld.update());
    assert_eq!(ld.remaining_ticks(), 0);
}

#[test]
fn test_ticks_start_is_idempotent() {
    let mut ld = LockDelayTicks::new();
    ld.start();
    ld.start();
    assert!(ld.active);
}

#[test]
fn test_ticks_reset_increments_counter() {
    let mut ld = LockDelayTicks::new();
    ld.start();
    ld.reset();
    assert_eq!(ld.move_reset_count, 1);
    assert!(ld.active);
}

#[test]
fn test_ticks_lock_after_30_updates() {
    let mut ld = LockDelayTicks::new();
    ld.start();
    for _ in 0..29 {
        assert!(!ld.update(), "should not lock before 30 ticks");
    }
    assert!(ld.update(), "should lock on 30th tick");
    assert!(!ld.active);
}

#[test]
fn test_ticks_29_updates_not_locked() {
    let mut ld = LockDelayTicks::new();
    ld.start();
    for _ in 0..29 {
        ld.update();
    }
    assert!(ld.active);
}

#[test]
fn test_ticks_15_resets_still_running() {
    let mut ld = LockDelayTicks::new();
    ld.start();
    for _ in 0..15 {
        ld.reset();
    }
    assert_eq!(ld.move_reset_count, 15);
    assert!(ld.active);
}

#[test]
fn test_ticks_16th_reset_capped() {
    let mut ld = LockDelayTicks::new();
    ld.start();
    for _ in 0..16 {
        ld.reset();
    }
    assert_eq!(ld.move_reset_count, 16);
}

#[test]
fn test_ticks_locks_after_16_resets_and_30_ticks() {
    let mut ld = LockDelayTicks::new();
    ld.start();
    for _ in 0..16 {
        ld.reset();
    }
    for _ in 0..29 {
        assert!(!ld.update());
    }
    assert!(ld.update());
}

#[test]
fn test_ticks_cancel_clears_state() {
    let mut ld = LockDelayTicks::new();
    ld.start();
    ld.cancel();
    assert!(!ld.active);
    assert_eq!(ld.move_reset_count, 0);
    assert!(!ld.update());
    assert_eq!(ld.remaining_ticks(), 0);
}

#[test]
fn test_ticks_reset_activates_inactive() {
    let mut ld = LockDelayTicks::new();
    assert!(!ld.active);
    ld.reset();
    assert!(ld.active);
    assert_eq!(ld.move_reset_count, 1);
    assert!(ld.remaining_ticks() > 0);
}

#[test]
fn expiry_follows_the_clock_answer() {
    let mut ld = LockDelay::new();
    assert!(!ld.expire(true));
    ld.start();
    ld.reset();
    assert!(!ld.expire(false));
    assert!(ld.active);
    assert_eq!(ld.move_reset_count, 1);
    assert!(ld.expire(true));
    assert!(!ld.active);
    assert_eq!(ld.move_reset_count, 0);
}

#[test]
fn shown_milliseconds_are_cut_like_a_cast() {
    let mut ld = LockDelay::new();
    assert_eq!(ld.shown_ms(250), 0);
    ld.start();
    assert_eq!(ld.shown_ms(250), 250);
    assert_eq!(ld.shown_ms(0x1_0000_0005), 5);
    assert_eq!(ld.shown_ms(0x8000_0000), i32::MIN);
}
