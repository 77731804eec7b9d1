use vstd::prelude::*;
use crate::newtypes::{KeyAction, PlayerSlot, Seed, TickNumber};
use crate::types::{Piece, Rot};

verus! {

/// Wire protocol version of room-based sessions.
pub const PROTOCOL_VERSION: u8 = 0x11;

/// Kinds of room-session packets; `to_u8` gives each its wire code.
#[derive(Debug, Clone, Copy, PartialEq, Eq, Structural)]
pub enum PacketType {
    ClientJoin,
    ServerAccept,
    GameStart,
    GameOver,
    CreateRoom,
    JoinRoom,
    PlayerReady,
    PlayerLeave,
    RoomSettings,
    ChatMessage,
    StartCountdown,
    HostMigrate,
    PlayerAway,
    SpectateSwitch,
    RoomSnapshot,
    Replay,
    ServerReplay,
    StateHash,
    StateSnapshot,
    Reconnect,
    ReconnectAck,
    Resume,
    IncomingGarbage,
    PlayerStatus,
    Batch,
    AddBot,
    CountdownCancel,
    KickPlayer,
    RemoveBot,
    Standings,
}

/// Wire code of a packet type.
pub open spec fn packet_code(t: PacketType) -> u8 {
    match t {
        PacketType::ClientJoin => 1,
        PacketType::ServerAccept => 2,
        PacketType::GameStart => 4,
        PacketType::GameOver => 8,
        PacketType::CreateRoom => 12,
        PacketType::JoinRoom => 13,
        PacketType::PlayerReady => 14,
        PacketType::PlayerLeave => 15,
        PacketType::RoomSettings => 16,
        PacketType::ChatMessage => 17,
        PacketType::StartCountdown => 18,
        PacketType::HostMigrate => 19,
        PacketType::PlayerAway => 20,
        PacketType::SpectateSwitch => 21,
        PacketType::RoomSnapshot => 22,
        PacketType::Replay => 23,
        PacketType::ServerReplay => 24,
        PacketType::StateHash => 25,
        PacketType::StateSnapshot => 26,
        PacketType::Reconnect => 27,
        PacketType::ReconnectAck => 28,
        PacketType::Resume => 29,
        PacketType::IncomingGarbage => 31,
        PacketType::PlayerStatus => 32,
        PacketType::Batch => 33,
        PacketType::AddBot => 34,
        PacketType::CountdownCancel => 35,
        PacketType::KickPlayer => 36,
        PacketType::RemoveBot => 37,
        PacketType::Standings => 38,
    }
}

impl PacketType {
    /// The packet type's wire code.
    pub fn to_u8(self) -> (r: u8)
        ensures
            r == packet_code(self),
    {
        match self {
            PacketType::ClientJoin => 1,
            PacketType::ServerAccept => 2,
            PacketType::GameStart => 4,
            PacketType::GameOver => 8,
            PacketType::CreateRoom => 12,
            PacketType::JoinRoom => 13,
            PacketType::PlayerReady => 14,
            PacketType::PlayerLeave => 15,
            PacketType::RoomSettings => 16,
            PacketType::ChatMessage => 17,
            PacketType::StartCountdown => 18,
            PacketType::HostMigrate => 19,
            PacketType::PlayerAway => 20,
            PacketType::SpectateSwitch => 21,
            PacketType::RoomSnapshot => 22,
            PacketType::Replay => 23,
            PacketType::ServerReplay => 24,
            PacketType::StateHash => 25,
            PacketType::StateSnapshot => 26,
            PacketType::Reconnect => 27,
            PacketType::ReconnectAck => 28,
            PacketType::Resume => 29,
            PacketType::IncomingGarbage => 31,
            PacketType::PlayerStatus => 32,
            PacketType::Batch => 33,
            PacketType::AddBot => 34,
            PacketType::CountdownCancel => 35,
            PacketType::KickPlayer => 36,
            PacketType::RemoveBot => 37,
            PacketType::Standings => 38,
        }
    }
}

/// Distinct packet types have distinct wire codes.
pub proof fn lemma_packet_codes_distinct(a: PacketType, b: PacketType)
    requires
        a != b,
    ensures
        packet_code(a) != packet_code(b),
{
}

/// The header every room-session packet starts with.
#[derive(Debug, Clone, Copy, PartialEq, Eq, Structural)]
pub struct PacketHeader {
    pub version: u8,
    pub packet_type: PacketType,
    pub player_id: u8,
}

impl PacketHeader {
    /// A header of the current protocol version.
    pub fn new(packet_type: PacketType, player_id: u8) -> (h: Self)
        ensures
            h == (PacketHeader { version: PROTOCOL_VERSION, packet_type, player_id }),
    {
        PacketHeader { version: PROTOCOL_VERSION, packet_type, player_id }
    }
}

#[derive(Debug, Clone, PartialEq)]
pub struct PktClientJoin {
    pub header: PacketHeader,
}

/// The server's answer to a join: the player's id, the room size, and an
/// unpredictable token that authenticates later reconnects.
#[derive(Debug, Clone, PartialEq)]
pub struct PktServerAccept {
    pub header: PacketHeader,
    pub assigned_player_id: u8,
    pub max_players: u8,
    pub resume_token: String,
}

#[derive(Debug, Clone, PartialEq)]
pub struct PktGameStart {
    pub header: PacketHeader,
    pub random_seed: u32,
}

#[derive(Debug, Clone, PartialEq)]
pub struct PktIncomingGarbage {
    pub header: PacketHeader,
    pub incoming_lines: u8,
}

#[derive(Debug, Clone, PartialEq)]
pub struct PktGameOver {
    pub header: PacketHeader,
    pub winner_player_id: u8,
}

#[derive(Debug, Clone, PartialEq)]
pub struct PktPlayerStatus {
    pub header: PacketHeader,
    pub target_player_id: u8,
    pub alive: bool,
    pub spectating: bool,
    pub spectating_target: Option<u8>,
}

#[derive(Debug, Clone, PartialEq)]
pub struct PktBatch {
    pub header: PacketHeader,
    pub packets: Vec<Vec<u8>>,
}

/// A host's request for a new room. The attack multiplier, a float, is
/// carried as its IEEE-754 bit pattern.
#[derive(Debug, Clone, PartialEq)]
pub struct PktCreateRoom {
    pub header: PacketHeader,
    pub max_players: u8,
    pub start_level: u8,
    pub attack_mult_bits: u32,
    pub garbage_delay_secs: u8,
    pub allow_hold: bool,
    pub host_name: String,
}

#[derive(Debug, Clone, PartialEq)]
pub struct PktJoinRoom {
    pub header: PacketHeader,
    pub room_code: String,
    pub player_name: String,
}

/// A host's room rules. The attack multiplier, a float, is carried as its
/// IEEE-754 bit pattern.
#[derive(Debug, Clone, PartialEq)]
pub struct PktRoomSettings {
    pub header: PacketHeader,
    pub max_players: u8,
    pub start_level: u8,
    pub attack_mult_bits: u32,
    pub garbage_delay_secs: u8,
    pub allow_hold: bool,
    pub initial_garbage_lines: u8,
}

#[derive(Debug, Clone, PartialEq)]
pub struct PktPlayerReady {
    pub header: PacketHeader,
    pub ready: bool,
}

#[derive(Debug, Clone, PartialEq)]
pub struct PktPlayerLeave {
    pub header: PacketHeader,
}

#[derive(Debug, Clone, PartialEq)]
pub struct PktChatMessage {
    pub header: PacketHeader,
    pub message: String,
    pub timestamp: String,
}

#[derive(Debug, Clone, PartialEq)]
pub struct PktStartCountdown {
    pub header: PacketHeader,
    pub remaining_secs: u8,
}

#[derive(Debug, Clone, PartialEq)]
pub struct PktCountdownCancel {
    pub header: PacketHeader,
}

#[derive(Debug, Clone, PartialEq)]
pub struct PktHostMigrate {
    pub header: PacketHeader,
    pub new_host_player_id: u8,
}

#[derive(Debug, Clone, PartialEq)]
pub struct PktPlayerAway {
    pub header: PacketHeader,
    pub away: bool,
}

#[derive(Debug, Clone, PartialEq)]
pub struct PktSpectateSwitch {
    pub header: PacketHeader,
    pub target_player_id: u8,
}

/// One player's entry in a room snapshot.
#[derive(Debug, Clone, PartialEq)]
pub struct RoomPlayerSnapshot {
    pub player_id: u8,
    pub name: String,
    pub ready: bool,
    pub alive: bool,
    pub away: bool,
    pub is_host: bool,
    pub is_bot: bool,
}

#[derive(Debug, Clone, PartialEq)]
pub struct PktRoomSnapshot {
    pub header: PacketHeader,
    pub room_code: String,
    pub players: Vec<RoomPlayerSnapshot>,
}

/// A request to seat a bot; its sampling temperature, a float, is carried as
/// its IEEE-754 bit pattern.
#[derive(Debug, Clone, PartialEq)]
pub struct PktAddBot {
    pub header: PacketHeader,
    pub temperature_bits: u32,
}

/// Host-only: kick another player from the room.
#[derive(Debug, Clone, PartialEq)]
pub struct PktKickPlayer {
    pub header: PacketHeader,
    pub target_player_id: u8,
}

/// Host-only: remove a bot from the room.
#[derive(Debug, Clone, PartialEq)]
pub struct PktRemoveBot {
    pub header: PacketHeader,
    pub target_player_id: u8,
}

/// Final result of one player in a match; placement 1 is the winner.
#[derive(Debug, Clone, PartialEq)]
pub struct StandingEntry {
    pub player_id: u8,
    pub name: String,
    pub placement: u8,
    pub score: u32,
    pub lines: u32,
    pub survival_ticks: u32,
}

/// The standings table broadcast when a match ends.
#[derive(Debug, Clone, PartialEq)]
pub struct PktStandings {
    pub header: PacketHeader,
    pub entries: Vec<StandingEntry>,
}

/// State hash a server broadcasts to detect divergence.
#[derive(Debug, Clone, PartialEq)]
pub struct PktStateHash {
    pub header: PacketHeader,
    pub tick: TickNumber,
    pub hash: u32,
}

/// Full state snapshot for catch-up or deep resync.
#[derive(Debug, Clone, PartialEq)]
pub struct PktStateSnapshot {
    pub header: PacketHeader,
    pub tick: TickNumber,
    pub board_rows: Vec<u64>,
    pub piece: Piece,
    pub rot: Rot,
    pub x: i8,
    pub y: i8,
    pub hold: Piece,
    pub hold_used: bool,
    pub next: [Piece; 5],
    pub rng_state: u32,
    pub combo: i32,
    pub b2b: bool,
    pub pending_garbage: u8,
    pub seed: Seed,
}

/// One raw key event of a client, stamped with its tick; the position within
/// the tick, a float, is carried as its IEEE-754 bit pattern.
#[derive(Debug, Clone, Copy, PartialEq, Eq, Structural)]
pub struct InputEvent {
    pub key: KeyAction,
    pub pressed: bool,
    pub tick: TickNumber,
    pub subframe_bits: u32,
}

/// A client's batch of input events from `start_tick` on.
#[derive(Debug, Clone, PartialEq)]
pub struct PktReplay {
    pub header: PacketHeader,
    pub events: Vec<InputEvent>,
    pub start_tick: TickNumber,
}

/// An opponent's input events relayed by the server, with garbage that
/// arrives in the same step.
#[derive(Debug, Clone, PartialEq)]
pub struct PktServerReplay {
    pub header: PacketHeader,
    pub source_player: PlayerSlot,
    pub events: Vec<InputEvent>,
    pub ige_garbage_lines: u8,
    pub ige_hole_x: u8,
}

/// Reconnect request with the client's hash ladder.
#[derive(Debug, Clone, PartialEq)]
pub struct PktReconnect {
    pub header: PacketHeader,
    pub last_good_tick: TickNumber,
    pub client_hashes: Vec<(TickNumber, u32)>,
}

/// The answer to a reconnect: where the histories diverged, and what the
/// client needs to catch up.
#[derive(Debug, Clone, PartialEq)]
pub struct PktReconnectAck {
    pub header: PacketHeader,
    pub divergence_tick: TickNumber,
    pub replay_events: Vec<PktServerReplay>,
    pub snapshot: Option<PktStateSnapshot>,
}

/// Resume a connection with stored session state.
#[derive(Debug, Clone, PartialEq)]
pub struct PktResume {
    pub header: PacketHeader,
    pub socket_id: String,
    pub resume_token: String,
}

} // verus!
