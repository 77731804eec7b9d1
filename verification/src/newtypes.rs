use vstd::prelude::*;

verus! {

/// Server tick counter.
#[derive(Debug, Clone, Copy, PartialEq, Eq, Structural, PartialOrd, Ord)]
pub struct TickNumber(pub u64);

/// Client render frame counter.
#[derive(Debug, Clone, Copy, PartialEq, Eq, Structural)]
pub struct FrameNumber(pub u64);

/// A player's index in a room.
#[derive(Debug, Clone, Copy, PartialEq, Eq, Structural, Hash)]
pub struct PlayerSlot(pub u8);

/// Random seed a game engine starts from.
#[derive(Debug, Clone, Copy, PartialEq, Eq, Structural)]
pub struct Seed(pub i32);

/// Sequence number of a replay message; increases monotonically.
#[derive(Debug, Clone, Copy, PartialEq, Eq, Structural, PartialOrd, Ord)]
pub struct MessageSeq(pub u32);

/// A raw key event for deterministic replay, in the order of its numeric
/// code 0..=6.
#[derive(Debug, Clone, Copy, PartialEq, Eq, Structural)]
pub enum KeyAction {
    KeyLeft,
    KeyRight,
    KeySoftDrop,
    KeyHardDrop,
    KeyRotateCW,
    KeyRotateCCW,
    KeyHold,
}

/// Numeric code of a key action (0..=6).
pub open spec fn key_code(k: KeyAction) -> nat {
    match k {
        KeyAction::KeyLeft => 0,
        KeyAction::KeyRight => 1,
        KeyAction::KeySoftDrop => 2,
        KeyAction::KeyHardDrop => 3,
        KeyAction::KeyRotateCW => 4,
        KeyAction::KeyRotateCCW => 5,
        KeyAction::KeyHold => 6,
    }
}

/// The key action with numeric code `v`; unknown codes mean `KeyLeft`.
pub open spec fn key_of_code(v: int) -> KeyAction {
    if v == 1 {
        KeyAction::KeyRight
    } else if v == 2 {
        KeyAction::KeySoftDrop
    } else if v == 3 {
        KeyAction::KeyHardDrop
    } else if v == 4 {
        KeyAction::KeyRotateCW
    } else if v == 5 {
        KeyAction::KeyRotateCCW
    } else if v == 6 {
        KeyAction::KeyHold
    } else {
        KeyAction::KeyLeft
    }
}

impl KeyAction {
    /// The key action with numeric code `v`; unknown codes mean `KeyLeft`.
    pub fn from_u8(v: u8) -> (r: Self)
        ensures
            r == key_of_code(v as int),
    {
        match v {
            0 => KeyAction::KeyLeft,
            1 => KeyAction::KeyRight,
            2 => KeyAction::KeySoftDrop,
            3 => KeyAction::KeyHardDrop,
            4 => KeyAction::KeyRotateCW,
            5 => KeyAction::KeyRotateCCW,
            6 => KeyAction::KeyHold,
            _ => KeyAction::KeyLeft,
        }
    }
}

/// Decoding a key action's own code gives it back, and codes 0..=6 are
/// exactly the codes of key actions.
pub proof fn lemma_key_code_round_trip(k: KeyAction, v: int)
    ensures
        key_of_code(key_code(k) as int) == k,
        0 <= v < 7 ==> key_code(key_of_code(v)) == v,
{
}

} // verus!
