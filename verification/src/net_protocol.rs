use vstd::prelude::*;
use crate::engine::Action;
use crate::types::{Piece, Rot};

verus! {

/// Wire protocol version of direct host-client sessions.
pub const PROTOCOL_VERSION: u8 = 0x10;

/// Kinds of host-client packets, with wire codes 1 to 11 in order.
#[derive(Debug, Clone, Copy, PartialEq, Eq, Structural)]
pub enum PacketType {
    ClientJoin,
    ServerAccept,
    HostStart,
    GameStart,
    PlayerAction,
    PlayerAttack,
    StateSync,
    GameOver,
    VersionError,
    DeltaSync,
    ResyncRequest,
}

/// Wire code of a packet type.
pub open spec fn packet_code(t: PacketType) -> u8 {
    match t {
        PacketType::ClientJoin => 1,
        PacketType::ServerAccept => 2,
        PacketType::HostStart => 3,
        PacketType::GameStart => 4,
        PacketType::PlayerAction => 5,
        PacketType::PlayerAttack => 6,
        PacketType::StateSync => 7,
        PacketType::GameOver => 8,
        PacketType::VersionError => 9,
        PacketType::DeltaSync => 10,
        PacketType::ResyncRequest => 11,
    }
}

impl PacketType {
    /// The packet type's wire code.
    pub fn to_u8(self) -> (r: u8)
        ensures
            r == packet_code(self),
    {
        match self {
            PacketType::ClientJoin => 1,
            PacketType::ServerAccept => 2,
            PacketType::HostStart => 3,
            PacketType::GameStart => 4,
            PacketType::PlayerAction => 5,
            PacketType::PlayerAttack => 6,
            PacketType::StateSync => 7,
            PacketType::GameOver => 8,
            PacketType::VersionError => 9,
            PacketType::DeltaSync => 10,
            PacketType::ResyncRequest => 11,
        }
    }
}

/// Distinct packet types have distinct wire codes.
pub proof fn lemma_packet_codes_distinct(a: PacketType, b: PacketType)
    requires
        a != b,
    ensures
        packet_code(a) != packet_code(b),
{
}

#[derive(Debug, Clone, Copy, PartialEq, Eq, Structural)]
pub struct PacketHeader {
    pub version: u8,
    pub packet_type: PacketType,
    pub player_id: u8,
}

#[derive(Debug, Clone, PartialEq)]
pub struct PktClientJoin {
    pub header: PacketHeader,
}

#[derive(Debug, Clone, PartialEq)]
pub struct PktServerAccept {
    pub header: PacketHeader,
    pub assigned_player_id: u8,
    pub max_players: u8,
}

#[derive(Debug, Clone, PartialEq)]
pub struct PktVersionError {
    pub header: PacketHeader,
    pub server_version: u8,
}

#[derive(Debug, Clone, PartialEq)]
pub struct PktGameStart {
    pub header: PacketHeader,
    pub random_seed: u32,
}

#[derive(Debug, Clone, PartialEq)]
pub struct PktPlayerAction {
    pub header: PacketHeader,
    pub action: Action,
}

#[derive(Debug, Clone, PartialEq)]
pub struct PktPlayerAttack {
    pub header: PacketHeader,
    pub lines: u8,
    pub hole_x: u8,
}

#[derive(Debug, Clone, PartialEq)]
pub struct PktGameOver {
    pub header: PacketHeader,
}

/// Full state of a player's game.
#[derive(Debug, Clone, PartialEq)]
pub struct PktStateSync {
    pub header: PacketHeader,
    pub board_rows: Vec<u64>,
    pub piece: Piece,
    pub rot: Rot,
    pub x: i8,
    pub y: i8,
    pub hold: Piece,
    pub hold_used: bool,
    pub next: [Piece; 3],
    pub pending_garbage: u8,
    pub rng_state: u32,
}

#[derive(Debug, Clone, PartialEq)]
pub struct PktBatch {
    pub packets: Vec<Vec<u8>>,
}

/// The rows that changed since the last sync, and the active piece.
#[derive(Debug, Clone, PartialEq)]
pub struct PktDeltaSync {
    pub header: PacketHeader,
    pub seq: u32,
    pub changed_rows: Vec<(u8, u64)>,
    pub piece: Piece,
    pub rot: Rot,
    pub x: i8,
    pub y: i8,
    pub hold: Piece,
    pub hold_used: bool,
    pub next: [Piece; 3],
}

#[derive(Debug, Clone, PartialEq)]
pub struct PktResyncRequest {
    pub header: PacketHeader,
    pub last_good_seq: u32,
}

} // verus!
