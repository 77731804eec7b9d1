use std::sync::mpsc::channel;
use tetris_core::newtypes::{KeyAction, PlayerSlot, TickNumber};
use tetris_core::protocol::InputEvent;
use tetris_core::rooms::{Online, PlayerConnection};

fn connect(slot: u8, name: &str) -> PlayerConnection<Online, std::sync::mpsc::Sender<InputEvent>> {
    let (tx, _rx) = channel::<InputEvent>();
    PlayerConnection::<Online, _>::new(PlayerSlot(slot), tx, name.into())
}

#[test]
fn test_online_has_send_input() {
    let (tx, rx) = channel::<InputEvent>();
    let conn = PlayerConnection::<Online, _>::new(PlayerSlot(0), tx, "Alice".into());
    let ev = InputEvent { key: KeyAction::KeyLeft, pressed: true, tick: TickNumber(0), subframe_bits: 0 };
    assert!(conn.input_channel().unwrap().send(ev).is_ok());
    assert_eq!(rx.recv().unwrap(), ev);
}

#[test]
fn test_online_can_transition_to_reconnecting() {
    let conn = connect(0, "Alice");
    let reconn = conn.mark_reconnecting();
    assert_eq!(reconn.player_slot, PlayerSlot(0));
    assert!(reconn.disconnected_at.is_some());
}

#[test]
fn test_reconnecting_restore_to_online() {
    let conn = connect(0, "Alice");
    let reconn = conn.mark_reconnecting();
    let (new_tx, _new_rx) = channel::<InputEvent>();
    let online = reconn.restore(new_tx);
    assert!(online.disconnected_at.is_none());
    assert!(online.input_channel().is_ok());
}

#[test]
fn test_reconnecting_to_dead() {
    let conn = connect(0, "Alice");
    let reconn = conn.mark_reconnecting();
    let dead = reconn.mark_dead();
    let (slot, name) = dead.into_inner();
    assert_eq!(slot, PlayerSlot(0));
    assert_eq!(name, "Alice");
}

#[test]
fn test_reconnecting_not_timed_out_immediately() {
    let conn = connect(0, "Alice");
    let reconn = conn.mark_reconnecting();
    assert!(!reconn.timed_out());
    assert!(reconn.elapsed().is_some());
}

#[test]
fn test_dead_into_inner() {
    let conn = connect(3, "Bob");
    let dead = conn.mark_reconnecting().mark_dead();
    let (slot, name) = dead.into_inner();
    assert_eq!(slot, PlayerSlot(3));
    assert_eq!(name, "Bob");
}

#[test]
fn missing_input_channel_is_an_error() {
    let mut conn = connect(1, "Cy");
    conn.input_tx = None;
    assert!(conn.input_channel().is_err());
}

#[test]
fn reconnect_window_is_three_seconds() {
    assert!(!tetris_core::rooms::reconnect_expired(0));
    assert!(!tetris_core::rooms::reconnect_expired(2_999));
    assert!(tetris_core::rooms::reconnect_expired(3_000));
    assert!(tetris_core::rooms::reconnect_expired(60_000));
}
