use tetris_core::newtypes::{KeyAction, MessageSeq, PlayerSlot, TickNumber};

#[test]
fn test_tick_number_newtype() {
    assert_eq!(TickNumber(42).0, 42);
    assert_eq!(TickNumber(0), TickNumber(0));
    assert!(TickNumber(10) < TickNumber(20));
}

#[test]
fn test_player_slot_newtype() {
    assert_eq!(PlayerSlot(3).0, 3);
    assert_ne!(PlayerSlot(0), PlayerSlot(1));
}

#[test]
fn test_message_seq_ord() {
    assert!(MessageSeq(100) < MessageSeq(200));
    assert_eq!(MessageSeq(0), MessageSeq(0));
}

#[test]
fn test_key_action_from_u8() {
    assert_eq!(KeyAction::from_u8(0), KeyAction::KeyLeft);
    assert_eq!(KeyAction::from_u8(6), KeyAction::KeyHold);
    assert_eq!(KeyAction::from_u8(99), KeyAction::KeyLeft);
}

#[test]
fn test_key_action_as_u8() {
    assert_eq!(KeyAction::KeyHardDrop as u8, 3);
    assert_eq!(KeyAction::KeyRotateCW as u8, 4);
}

#[test]
fn key_action_code_round_trip() {
    for v in 0u8..7 {
        assert_eq!(KeyAction::from_u8(v) as u8, v);
    }
}
