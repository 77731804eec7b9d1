use vstd::prelude::*;
use std::collections::HashMap;
use crate::rooms::Role;

verus! {

broadcast use vstd::std_specs::hash::group_hash_axioms;

/// Most clients a host keeps connected.
pub const MAX_CONNECTED_CLIENTS: usize = 8;

/// The bookkeeping of a direct session: which side this process plays,
/// whether a server or a client link is open, the local player's id, the
/// room size, the connected clients and the player id each got, and the
/// counter the next id comes from. The links themselves live with the
/// transport.
pub struct NetworkManager {
    pub role: Role,
    pub has_server: bool,
    pub has_client: bool,
    pub local_player_id: u8,
    pub max_players: u8,
    pub connected_clients: HashMap<u64, u8>,
    pub next_client_id: u64,
}

impl NetworkManager {
    /// Nothing open yet: no role, player 0, room for two, no clients.
    pub fn new() -> (n: Self)
        ensures
            n.role == Role::Unassigned,
            !n.has_server && !n.has_client,
            n.local_player_id == 0,
            n.max_players == 2,
            n.connected_clients@ == Map::<u64, u8>::empty(),
            n.next_client_id == 1,
    {
        NetworkManager {
            role: Role::Unassigned,
            has_server: false,
            has_client: false,
            local_player_id: 0,
            max_players: 2,
            connected_clients: HashMap::new(),
            next_client_id: 1,
        }
    }

    /// Hosting for `max_players` players, as player 0.
    pub fn start_server(&mut self, max_players: u8)
        ensures
            final(self).role == Role::Host,
            final(self).has_server,
            final(self).has_client == old(self).has_client,
            final(self).local_player_id == 0,
            final(self).max_players == max_players,
            final(self).connected_clients@ == old(self).connected_clients@,
            final(self).next_client_id == old(self).next_client_id,
    {
        self.has_server = true;
        self.role = Role::Host;
        self.local_player_id = 0;
        self.max_players = max_players;
    }

    /// Joining a host as a client.
    pub fn connect_to_server(&mut self)
        ensures
            final(self).role == Role::Client,
            final(self).has_client,
            final(self).has_server == old(self).has_server,
            final(self).local_player_id == old(self).local_player_id,
            final(self).max_players == old(self).max_players,
            final(self).connected_clients@ == old(self).connected_clients@,
            final(self).next_client_id == old(self).next_client_id,
    {
        self.has_client = true;
        self.role = Role::Client;
    }

    /// Both links closed, no role, no clients.
    pub fn disconnect(&mut self)
        ensures
            final(self).role == Role::Unassigned,
            !final(self).has_server && !final(self).has_client,
            final(self).connected_clients@ == Map::<u64, u8>::empty(),
            final(self).local_player_id == old(self).local_player_id,
            final(self).max_players == old(self).max_players,
            final(self).next_client_id == old(self).next_client_id,
    {
        self.has_server = false;
        self.has_client = false;
        self.role = Role::Unassigned;
        self.connected_clients.clear();
    }

    /// Client `client_id` connected to the host: below
    /// `MAX_CONNECTED_CLIENTS` clients it gets the next player id (the
    /// counter modulo 256) and the counter moves on; otherwise it is not
    /// recorded.
    pub fn on_client_connected(&mut self, client_id: u64)
        ensures
            old(self).connected_clients@.len() >= MAX_CONNECTED_CLIENTS ==> final(self).connected_clients@
                == old(self).connected_clients@ && final(self).next_client_id == old(self).next_client_id,
            old(self).connected_clients@.len() < MAX_CONNECTED_CLIENTS ==> final(self).connected_clients@
                == old(self).connected_clients@.insert(client_id, (old(self).next_client_id % 256) as u8)
                && final(self).next_client_id == old(self).next_client_id.wrapping_add(1),
            final(self).role == old(self).role,
            final(self).has_server == old(self).has_server,
            final(self).has_client == old(self).has_client,
            final(self).local_player_id == old(self).local_player_id,
            final(self).max_players == old(self).max_players,
    {
        if self.connected_clients.len() >= MAX_CONNECTED_CLIENTS {
            return;
        }
        let player_id = (self.next_client_id % 256) as u8;
        self.connected_clients.insert(client_id, player_id);
        self.next_client_id = self.next_client_id.wrapping_add(1);
    }

    /// Client `client_id` left.
    pub fn on_client_disconnected(&mut self, client_id: u64)
        ensures
            final(self).connected_clients@ == old(self).connected_clients@.remove(client_id),
            final(self).next_client_id == old(self).next_client_id,
            final(self).role == old(self).role,
            final(self).has_server == old(self).has_server,
            final(self).has_client == old(self).has_client,
            final(self).local_player_id == old(self).local_player_id,
            final(self).max_players == old(self).max_players,
    {
        self.connected_clients.remove(&client_id);
    }

    /// Which side this process plays.
    pub fn role(&self) -> (r: Role)
        ensures
            r == self.role,
    {
        self.role
    }

    /// Whether a server or a client link is open.
    pub fn is_connected(&self) -> (r: bool)
        ensures
            r == (self.has_server || self.has_client),
    {
        self.has_server || self.has_client
    }

    /// The local player's id.
    pub fn local_player_id(&self) -> (r: u8)
        ensures
            r == self.local_player_id,
    {
        self.local_player_id
    }

    /// The room size.
    pub fn max_players(&self) -> (r: u8)
        ensures
            r == self.max_players,
    {
        self.max_players
    }

    /// How many clients are connected.
    pub fn connected_count(&self) -> (r: usize)
        ensures
            r == self.connected_clients@.len(),
    {
        self.connected_clients.len()
    }
}

} // verus!
