use vstd::prelude::*;

verus! {

/// Errors of the game rules.
#[derive(Debug, Clone, Copy, PartialEq, Eq, Structural)]
pub enum CoreError {
    InvalidPiece,
    BoardFull,
}

/// Errors of the terminal client.
#[derive(Debug, Clone, PartialEq)]
pub enum CliError {
    Config(String),
    Render(String),
    Input(String),
}

/// Errors of the networking layer.
#[derive(Debug, Clone, PartialEq)]
pub enum NetError {
    Encode(String),
    Decode(String),
    Protocol(String),
    Connection(String),
    MdnsError(String),
}

/// Errors of loading and running a policy network.
#[derive(Debug, Clone, PartialEq)]
pub enum InferError {
    DimMismatch,
    NonFinite,
    TooLarge,
    Decode(String),
}

/// Errors of the relay server.
#[derive(Debug, Clone, PartialEq)]
pub enum RelayError {
    RoomNotFound(String),
    RoomFull(String),
    WsError(String),
    PeerNotFound,
    Decode(String),
}

} // verus!
