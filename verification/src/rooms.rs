use vstd::prelude::*;
use std::marker::PhantomData;
use instant::Instant;
use crate::errors::RelayError;
use crate::lockdelay::{duration_as_millis, duration_until, instant_now};
use crate::newtypes::PlayerSlot;

verus! {

/// Phase of a hosted room.
#[derive(Debug, Clone, Copy, PartialEq, Eq, Structural)]
pub enum RoomMode {
    Lobby,
    Countdown(u8),
    Playing,
    GameOver,
}

impl Default for RoomMode {
    fn default() -> (r: Self)
        ensures
            r == RoomMode::Lobby,
    {
        RoomMode::Lobby
    }
}

/// A player in a hosted room.
#[derive(Debug, Clone, PartialEq)]
pub struct PlayerInfo {
    pub player_id: u8,
    pub name: String,
    pub uuid: String,
    pub ready: bool,
    pub alive: bool,
    pub away: bool,
    pub spectating_target: Option<u8>,
}

/// Which side of a direct session this process plays.
#[derive(Debug, Clone, Copy, PartialEq, Eq, Structural)]
pub enum Role {
    Unassigned,
    Host,
    Client,
}

/// Phase of a relayed room.
#[derive(Debug, Clone, Copy, PartialEq, Eq, Structural)]
pub enum RelayRoomMode {
    Lobby,
    Countdown,
    Playing,
    GameOver,
}

impl Default for RelayRoomMode {
    fn default() -> (r: Self)
        ensures
            r == RelayRoomMode::Lobby,
    {
        RelayRoomMode::Lobby
    }
}

/// Connection state marker: the player is connected and can send input.
#[derive(Debug, Clone, Copy)]
pub struct Online;

/// Connection state marker: the connection was lost within the timeout.
#[derive(Debug, Clone, Copy)]
pub struct Reconnecting;

/// Connection state marker: the connection is gone for good.
#[derive(Debug, Clone, Copy)]
pub struct Dead;

/// Seconds a lost connection may take to come back before it is given up.
pub const RECONNECT_TIMEOUT_SECS: u64 = 3;

/// A player's connection, in state `S` (`Online`, `Reconnecting` or
/// `Dead`): its slot, the channel `Tx` that carries its input while it has
/// one, its name, and when it was lost.
pub struct PlayerConnection<S, Tx> {
    pub player_slot: PlayerSlot,
    pub input_tx: Option<Tx>,
    pub peer_name: String,
    pub disconnected_at: Option<Instant>,
    pub state: PhantomData<S>,
}

impl<Tx> PlayerConnection<Online, Tx> {
    /// A connected player in slot `slot` named `name`, with input channel
    /// `input_tx`.
    pub fn new(slot: PlayerSlot, input_tx: Tx, name: String) -> (c: Self)
        ensures
            c.player_slot == slot,
            c.input_tx == Some(input_tx),
            c.peer_name@ == name@,
            c.disconnected_at is None,
    {
        PlayerConnection { player_slot: slot, input_tx: Some(input_tx), peer_name: name, disconnected_at: None, state: PhantomData }
    }

    /// The channel to hand this player's input to; a connection without
    /// one is an error.
    pub fn input_channel(&self) -> (r: Result<&Tx, RelayError>)
        ensures
            match self.input_tx {
                Some(tx) => r == Ok::<&Tx, RelayError>(&tx),
                None => r matches Err(RelayError::WsError(m)) && m@ == "input_tx missing"@,
            },
    {
        match &self.input_tx {
            Some(tx) => Ok(tx),
            None => Err(RelayError::WsError("input_tx missing".to_owned())),
        }
    }

    /// The connection was lost just now.
    pub fn mark_reconnecting(self) -> (c: PlayerConnection<Reconnecting, Tx>)
        ensures
            c.player_slot == self.player_slot,
            c.input_tx == self.input_tx,
            c.peer_name@ == self.peer_name@,
            c.disconnected_at is Some,
    {
        PlayerConnection {
            player_slot: self.player_slot,
            input_tx: self.input_tx,
            peer_name: self.peer_name,
            disconnected_at: Some(instant_now()),
            state: PhantomData,
        }
    }
}

impl<Tx> PlayerConnection<Reconnecting, Tx> {
    /// The player is back with input channel `new_tx`.
    pub fn restore(self, new_tx: Tx) -> (c: PlayerConnection<Online, Tx>)
        ensures
            c.player_slot == self.player_slot,
            c.input_tx == Some(new_tx),
            c.peer_name@ == self.peer_name@,
            c.disconnected_at is None,
    {
        PlayerConnection {
            player_slot: self.player_slot,
            input_tx: Some(new_tx),
            peer_name: self.peer_name,
            disconnected_at: None,
            state: PhantomData,
        }
    }

    /// The player is gone for good, as of now.
    pub fn mark_dead(self) -> (c: PlayerConnection<Dead, Tx>)
        ensures
            c.player_slot == self.player_slot,
            c.input_tx == self.input_tx,
            c.peer_name@ == self.peer_name@,
            c.disconnected_at is Some,
    {
        PlayerConnection {
            player_slot: self.player_slot,
            input_tx: self.input_tx,
            peer_name: self.peer_name,
            disconnected_at: Some(instant_now()),
            state: PhantomData,
        }
    }

    /// How long ago the connection was lost, if that is known; the clock
    /// decides the value.
    pub fn elapsed(&self) -> (r: Option<std::time::Duration>)
        ensures
            r is Some <==> self.disconnected_at is Some,
    {
        match self.disconnected_at {
            Some(since) => Some(duration_until(instant_now(), since)),
            None => None,
        }
    }

    /// Whether the connection was lost at least `RECONNECT_TIMEOUT_SECS`
    /// ago, by the clock (see `reconnect_expired`); never for one whose loss
    /// time is unknown, which does not ask the clock.
    pub fn timed_out(&self) -> (r: bool)
        ensures
            self.disconnected_at is None ==> !r,
    {
        match self.elapsed() {
            Some(d) => reconnect_expired(duration_as_millis(d)),
            None => false,
        }
    }
}

/// Whether a connection lost `elapsed_ms` milliseconds ago may no longer
/// reconnect: at least `RECONNECT_TIMEOUT_SECS` seconds have passed.
pub fn reconnect_expired(elapsed_ms: u128) -> (r: bool)
    ensures
        r == (elapsed_ms >= RECONNECT_TIMEOUT_SECS * 1000),
{
    elapsed_ms >= (RECONNECT_TIMEOUT_SECS as u128) * 1000
}

impl<Tx> PlayerConnection<Dead, Tx> {
    /// The slot and name the player had.
    pub fn into_inner(self) -> (r: (PlayerSlot, String))
        ensures
            r.0 == self.player_slot,
            r.1@ == self.peer_name@,
    {
        (self.player_slot, self.peer_name)
    }
}

} // verus!
