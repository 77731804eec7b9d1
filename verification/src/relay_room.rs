use vstd::prelude::*;
use crate::errors::RelayError;
use crate::protocol::{PacketHeader, PacketType, PktRoomSnapshot, RoomPlayerSnapshot};
use crate::text::{cut_bytes, cuttable, truncate_bytes};
use vstd::utf8::encode_utf8;

verus! {

/// Most players a relayed room holds.
pub const MAX_PLAYERS_PER_ROOM: usize = 4;

/// Longest display name kept, in bytes.
pub const MAX_NAME_LEN: usize = 32;

/// A player's session in a relayed room, kept across a dropped connection
/// so that a reconnect can reclaim the same slot. The bot temperature, a
/// float, is kept as its IEEE-754 bit pattern: nothing here reads it.
#[derive(Debug, Clone)]
pub struct Session {
    pub player_id: u8,
    pub name: String,
    pub is_bot: bool,
    pub temperature_bits: u32,
    pub resume_token: String,
    pub away: bool,
}

/// Whether `token` may reclaim session `s`: the session is away, is not a
/// bot, and the token is non-empty and equal to the session's own.
pub open spec fn reclaimable(s: Session, token: Seq<char>) -> bool {
    s.away && !s.is_bot && token.len() > 0 && s.resume_token@ == token
}

impl Session {
    /// A connected session.
    pub fn new(player_id: u8, name: String, is_bot: bool, temperature_bits: u32, resume_token: String) -> (s: Self)
        ensures
            s.player_id == player_id,
            s.name@ == name@,
            s.is_bot == is_bot,
            s.temperature_bits == temperature_bits,
            s.resume_token@ == resume_token@,
            !s.away,
    {
        Session { player_id, name, is_bot, temperature_bits, resume_token, away: false }
    }

    /// Marks the session away (its connection dropped).
    pub fn mark_away(&mut self)
        ensures
            *final(self) == (Session { away: true, ..*old(self) }),
    {
        self.away = true;
    }

    /// Marks the session connected again.
    pub fn unmark_away(&mut self)
        ensures
            *final(self) == (Session { away: false, ..*old(self) }),
    {
        self.away = false;
    }

    /// Whether `token` may reclaim this session; see `reclaimable`.
    pub fn reclaimable_by(&self, token: &str) -> (r: bool)
        ensures
            r == reclaimable(*self, token@),
    {
        self.away && !self.is_bot && !token.is_empty() && self.resume_token == token.to_owned()
    }
}

/// A live connection bound to a session.
#[derive(Debug, Clone)]
pub struct PeerInfo {
    pub id: u64,
    pub ready: bool,
    pub session: Session,
}

/// Whether some peer holds slot `slot`.
pub open spec fn slot_used(peers: Seq<PeerInfo>, slot: int) -> bool {
    exists|k: int| 0 <= k < peers.len() && peers[k].session.player_id == slot
}

/// The lowest of the room's slots that no peer holds; the last slot when
/// all are taken.
pub open spec fn lowest_free_slot(peers: Seq<PeerInfo>) -> u8 {
    if !slot_used(peers, 0) {
        0
    } else if !slot_used(peers, 1) {
        1
    } else if !slot_used(peers, 2) {
        2
    } else {
        3
    }
}

/// The slot a newcomer gets; see `lowest_free_slot`.
pub fn alloc_player_slot(peers: &[PeerInfo]) -> (r: u8)
    ensures
        r == lowest_free_slot(peers@),
{
    let mut used: [bool; 4] = [false; 4];
    let mut i: usize = 0;
    while i < peers.len()
        invariant
            i <= peers@.len(),
            forall|s: int| 0 <= s < 4 ==> #[trigger] used[s] == exists|k: int|
                0 <= k < i && peers@[k].session.player_id == s,
        decreases peers@.len() - i,
    {
        let id = peers[i].session.player_id as usize;
        if id < MAX_PLAYERS_PER_ROOM {
            used[id] = true;
        }
        proof {
            assert forall|s: int| 0 <= s < 4 implies #[trigger] used[s] == exists|k: int|
                0 <= k < i + 1 && peers@[k].session.player_id == s by {
                if used[s] && !(s == id) {
                    let k = choose|k: int| 0 <= k < i && peers@[k].session.player_id == s;
                    assert(0 <= k < i + 1);
                }
                if exists|k: int| 0 <= k < i + 1 && peers@[k].session.player_id == s {
                    let k = choose|k: int| 0 <= k < i + 1 && peers@[k].session.player_id == s;
                    if k < i {
                    } else {
                        assert(s == id);
                    }
                }
            }
        }
        i = i + 1;
    }
    if !used[0] {
        0
    } else if !used[1] {
        1
    } else if !used[2] {
        2
    } else {
        3
    }
}

/// A newcomer's slot is free whenever the room has room: with fewer peers
/// than the room holds, the slot handed out is held by no peer.
pub proof fn lemma_free_slot_is_free(peers: Seq<PeerInfo>)
    requires
        peers.len() < MAX_PLAYERS_PER_ROOM,
    ensures
        !slot_used(peers, lowest_free_slot(peers) as int),
{
    if slot_used(peers, 0) && slot_used(peers, 1) && slot_used(peers, 2) && slot_used(peers, 3) {
        let k0 = choose|k: int| 0 <= k < peers.len() && peers[k].session.player_id == 0;
        let k1 = choose|k: int| 0 <= k < peers.len() && peers[k].session.player_id == 1;
        let k2 = choose|k: int| 0 <= k < peers.len() && peers[k].session.player_id == 2;
        let k3 = choose|k: int| 0 <= k < peers.len() && peers[k].session.player_id == 3;
        assert(k0 != k1 && k0 != k2 && k0 != k3 && k1 != k2 && k1 != k3 && k2 != k3);
        assert(false);
    }
}


/// Seating a newcomer in the lowest free slot of a room with room keeps the
/// slots distinct.
pub proof fn lemma_new_slot_keeps_distinct(before: Seq<PeerInfo>, after: Seq<PeerInfo>)
    requires
        before.len() < MAX_PLAYERS_PER_ROOM,
        after.len() == before.len() + 1,
        after.drop_last() == before,
        after.last().session.player_id == lowest_free_slot(before),
    ensures
        slots_distinct(before) ==> slots_distinct(after),
{
    lemma_free_slot_is_free(before);
    if slots_distinct(before) {
        assert forall|i: int, j: int| 0 <= i < j < after.len() implies
            #[trigger] after[i].session.player_id != #[trigger] after[j].session.player_id by {
            assert(after[i] == before[i]);
            if j < before.len() {
                assert(after[j] == before[j]);
            }
        }
    }
}

/// The display name of a human in slot `slot`: `Player 1` to `Player 4`.
pub open spec fn player_name(slot: u8) -> Seq<char> {
    if slot == 0 {
        "Player 1"@
    } else if slot == 1 {
        "Player 2"@
    } else if slot == 2 {
        "Player 3"@
    } else {
        "Player 4"@
    }
}

/// The display name of the `n`-th bot: `AI 1` to `AI 4`.
pub open spec fn bot_name(n: int) -> Seq<char> {
    if n <= 1 {
        "AI 1"@
    } else if n == 2 {
        "AI 2"@
    } else if n == 3 {
        "AI 3"@
    } else {
        "AI 4"@
    }
}

fn player_name_of(slot: u8) -> (r: String)
    ensures
        r@ == player_name(slot),
{
    if slot == 0 {
        "Player 1".to_owned()
    } else if slot == 1 {
        "Player 2".to_owned()
    } else if slot == 2 {
        "Player 3".to_owned()
    } else {
        "Player 4".to_owned()
    }
}

fn bot_name_of(n: usize) -> (r: String)
    ensures
        r@ == bot_name(n as int),
{
    if n <= 1 {
        "AI 1".to_owned()
    } else if n == 2 {
        "AI 2".to_owned()
    } else if n == 3 {
        "AI 3".to_owned()
    } else {
        "AI 4".to_owned()
    }
}

/// The index of the first peer at or after `i` with connection `id`.
pub open spec fn peer_index_from(peers: Seq<PeerInfo>, id: u64, i: int) -> Option<int>
    decreases peers.len() - i,
{
    if i < 0 || i >= peers.len() {
        None
    } else if peers[i].id == id {
        Some(i)
    } else {
        peer_index_from(peers, id, i + 1)
    }
}

/// The index of the first peer at or after `i` that holds slot `slot`.
pub open spec fn slot_index_from(peers: Seq<PeerInfo>, slot: u8, i: int) -> Option<int>
    decreases peers.len() - i,
{
    if i < 0 || i >= peers.len() {
        None
    } else if peers[i].session.player_id == slot {
        Some(i)
    } else {
        slot_index_from(peers, slot, i + 1)
    }
}

/// The index of the first away human peer at or after `i` that `token`
/// may reclaim.
pub open spec fn reclaim_index_from(peers: Seq<PeerInfo>, token: Seq<char>, i: int) -> Option<int>
    decreases peers.len() - i,
{
    if i < 0 || i >= peers.len() {
        None
    } else if reclaimable(peers[i].session, token) {
        Some(i)
    } else {
        reclaim_index_from(peers, token, i + 1)
    }
}

/// The peers other than connection `id`, in order.
pub open spec fn peers_without(s: Seq<PeerInfo>, id: u64) -> Seq<PeerInfo>
    decreases s.len(),
{
    if s.len() == 0 {
        s
    } else {
        let r = peers_without(s.drop_last(), id);
        if s.last().id != id {
            r.push(s.last())
        } else {
            r
        }
    }
}

/// How many peers are bots.
pub open spec fn bot_count(s: Seq<PeerInfo>) -> int
    decreases s.len(),
{
    if s.len() == 0 {
        0
    } else {
        bot_count(s.drop_last()) + if s.last().session.is_bot {
            1int
        } else {
            0int
        }
    }
}

/// No two peers hold the same slot.
pub open spec fn slots_distinct(peers: Seq<PeerInfo>) -> bool {
    forall|i: int, j: int|
        0 <= i < j < peers.len() ==> #[trigger] peers[i].session.player_id != #[trigger] peers[j].session.player_id
}

/// Every peer left after removing a connection was in the room before.
pub proof fn lemma_peers_without_from(s: Seq<PeerInfo>, id: u64)
    ensures
        peers_without(s, id).len() <= s.len(),
        forall|k: int| 0 <= k < peers_without(s, id).len() ==> exists|j: int|
            0 <= j < s.len() && #[trigger] peers_without(s, id)[k] == s[j] && s[j].id != id,
    decreases s.len(),
{
    if s.len() > 0 {
        let r = peers_without(s.drop_last(), id);
        lemma_peers_without_from(s.drop_last(), id);
        assert forall|k: int| 0 <= k < peers_without(s, id).len() implies exists|j: int|
            0 <= j < s.len() && #[trigger] peers_without(s, id)[k] == s[j] && s[j].id != id by {
            if k < r.len() {
                let j = choose|j: int| 0 <= j < s.drop_last().len() && r[k] == s.drop_last()[j] && s.drop_last()[j].id != id;
                assert(s[j] == s.drop_last()[j]);
            } else {
                assert(peers_without(s, id)[k] == s[s.len() - 1]);
            }
        }
    }
}

/// Removing a connection keeps the slots distinct.
pub proof fn lemma_peers_without_distinct(s: Seq<PeerInfo>, id: u64)
    requires
        slots_distinct(s),
    ensures
        slots_distinct(peers_without(s, id)),
    decreases s.len(),
{
    if s.len() > 0 {
        let r = peers_without(s.drop_last(), id);
        assert(slots_distinct(s.drop_last())) by {
            assert forall|i: int, j: int| 0 <= i < j < s.drop_last().len() implies
                #[trigger] s.drop_last()[i].session.player_id != #[trigger] s.drop_last()[j].session.player_id by {
                assert(s[i].session.player_id != s[j].session.player_id);
            }
        }
        lemma_peers_without_distinct(s.drop_last(), id);
        lemma_peers_without_from(s.drop_last(), id);
        if s.last().id != id {
            let t = r.push(s.last());
            assert forall|i: int, j: int| 0 <= i < j < t.len() implies
                #[trigger] t[i].session.player_id != #[trigger] t[j].session.player_id by {
                if j < r.len() {
                    assert(r[i].session.player_id != r[j].session.player_id);
                } else {
                    let m = choose|m: int| 0 <= m < s.drop_last().len() && #[trigger] r[i] == s.drop_last()[m] && s.drop_last()[m].id != id;
                    assert(s[m] == s.drop_last()[m]);
                    assert(s[m].session.player_id != s[s.len() - 1].session.player_id);
                }
            }
        }
    }
}

/// One relayed room: its code, host connection, peers and the countdown
/// state (whether one runs, and a generation number that every start and
/// cancel advances so that a stale countdown can tell it was cancelled).
pub struct RoomState {
    pub code: String,
    pub host_peer_id: Option<u64>,
    pub peers: Vec<PeerInfo>,
    pub countdown_active: bool,
    pub countdown_generation: u64,
}

/// Whether every peer is ready, with at least two of them.
pub open spec fn peers_all_ready(peers: Seq<PeerInfo>) -> bool {
    peers.len() >= 2 && forall|k: int| 0 <= k < peers.len() ==> #[trigger] peers[k].ready
}

/// `after` is `before` with human connection `id` seated in the lowest free
/// slot, named after it, holding `token`; the first connection is host.
pub open spec fn after_add_peer(before: RoomState, after: RoomState, id: u64, token: Seq<char>) -> bool {
    let slot = lowest_free_slot(before.peers@);
    let p = after.peers@.last();
    &&& after.peers@.len() == before.peers@.len() + 1
    &&& after.peers@.drop_last() == before.peers@
    &&& p.id == id && !p.ready
    &&& p.session.player_id == slot && p.session.name@ == player_name(slot)
    &&& !p.session.is_bot && p.session.temperature_bits == 0 && !p.session.away
    &&& p.session.resume_token@ == token
    &&& after.host_peer_id == (if before.host_peer_id is None {
        Some(id)
    } else {
        before.host_peer_id
    })
    &&& after.countdown_active == before.countdown_active
    &&& after.countdown_generation == before.countdown_generation
    &&& after.code@ == before.code@
}

/// `after` is `before` with a ready bot under connection `id` seated in
/// slot `slot`, the lowest free one, named after the room's bot count.
pub open spec fn after_add_bot(before: RoomState, after: RoomState, id: u64, temperature_bits: u32, slot: u8) -> bool {
    let p = after.peers@.last();
    &&& slot == lowest_free_slot(before.peers@)
    &&& after.peers@.len() == before.peers@.len() + 1
    &&& after.peers@.drop_last() == before.peers@
    &&& p.id == id && p.ready
    &&& p.session.player_id == slot
    &&& p.session.name@ == bot_name(bot_count(before.peers@) + 1)
    &&& p.session.is_bot && p.session.temperature_bits == temperature_bits && !p.session.away
    &&& p.session.resume_token@.len() == 0
    &&& after.host_peer_id == before.host_peer_id
    &&& after.countdown_active == before.countdown_active
    &&& after.countdown_generation == before.countdown_generation
    &&& after.code@ == before.code@
}

/// `after` is `before` with peer `k` named `name` cut to its first
/// `MAX_NAME_LEN` bytes.
pub open spec fn after_rename(before: RoomState, after: RoomState, k: int, name: Seq<char>) -> bool {
    let p = before.peers@[k];
    let q = after.peers@[k];
    &&& after.peers@.len() == before.peers@.len()
    &&& forall|j: int| 0 <= j < before.peers@.len() && j != k ==> #[trigger] after.peers@[j] == before.peers@[j]
    &&& encode_utf8(q.session.name@) == cut_bytes(name, MAX_NAME_LEN as int)
    &&& q == (PeerInfo { session: Session { name: q.session.name, ..p.session }, ..p })
    &&& after.host_peer_id == before.host_peer_id
    &&& after.countdown_active == before.countdown_active
    &&& after.countdown_generation == before.countdown_generation
    &&& after.code@ == before.code@
}

/// `after` is `before` with peer `k`'s ready flag set to `ready`; withdrawn
/// readiness stops the countdown and advances its generation.
pub open spec fn after_ready(before: RoomState, after: RoomState, k: int, ready: bool) -> bool {
    &&& after.peers@ == before.peers@.update(k, PeerInfo { ready: ready, ..before.peers@[k] })
    &&& after.host_peer_id == before.host_peer_id
    &&& after.countdown_active == (ready && before.countdown_active)
    &&& after.countdown_generation == (if ready {
        before.countdown_generation
    } else {
        before.countdown_generation.wrapping_add(1)
    })
    &&& after.code@ == before.code@
}

/// `after` is `before` without connection `id`; a removed host hands over
/// to the first remaining peer, and the countdown stops.
pub open spec fn after_remove(before: RoomState, after: RoomState, id: u64) -> bool {
    &&& after.peers@ == peers_without(before.peers@, id)
    &&& after.host_peer_id == (if before.host_peer_id == Some(id) {
        if after.peers@.len() > 0 {
            Some(after.peers@[0].id)
        } else {
            None
        }
    } else {
        before.host_peer_id
    })
    &&& !after.countdown_active
    &&& after.countdown_generation == before.countdown_generation.wrapping_add(1)
    &&& after.code@ == before.code@
}

/// `after` is `before` with peer `k` marked away.
pub open spec fn after_away(before: RoomState, after: RoomState, k: int) -> bool {
    let p = before.peers@[k];
    &&& after.peers@ == before.peers@.update(k, PeerInfo { session: Session { away: true, ..p.session }, ..p })
    &&& after.host_peer_id == before.host_peer_id
    &&& after.countdown_active == before.countdown_active
    &&& after.countdown_generation == before.countdown_generation
    &&& after.code@ == before.code@
}

/// `after` is `before` with away peer `k` rebound to connection `new_id` and
/// back; a room without host gets it as host.
pub open spec fn after_reclaim(before: RoomState, after: RoomState, new_id: u64, k: int) -> bool {
    let p = before.peers@[k];
    &&& after.peers@ == before.peers@.update(k, PeerInfo { id: new_id, session: Session { away: false, ..p.session }, ..p })
    &&& after.host_peer_id == (if before.host_peer_id is None {
        Some(new_id)
    } else {
        before.host_peer_id
    })
    &&& after.countdown_active == before.countdown_active
    &&& after.countdown_generation == before.countdown_generation
    &&& after.code@ == before.code@
}

impl RoomState {
    /// An empty room with code `code`.
    pub fn new(code: String) -> (r: Self)
        ensures
            r.code@ == code@,
            r.host_peer_id is None,
            r.peers@.len() == 0,
            !r.countdown_active,
            r.countdown_generation == 0,
    {
        RoomState { code, host_peer_id: None, peers: Vec::new(), countdown_active: false, countdown_generation: 0 }
    }

    /// The index of the first peer with connection `id`.
    pub(crate) fn find_peer(&self, id: u64) -> (r: Option<usize>)
        ensures
            r matches Some(k) ==> peer_index_from(self.peers@, id, 0) == Some(k as int) && k < self.peers@.len(),
            r is None ==> peer_index_from(self.peers@, id, 0) is None,
    {
        let mut i: usize = 0;
        while i < self.peers.len()
            invariant
                i <= self.peers@.len(),
                peer_index_from(self.peers@, id, 0) == peer_index_from(self.peers@, id, i as int),
            decreases self.peers@.len() - i,
        {
            if self.peers[i].id == id {
                return Some(i);
            }
            i = i + 1;
        }
        None
    }

    /// Where connection `id` sits among the peers.
    pub fn peer_by_id(&self, id: u64) -> (r: Result<usize, RelayError>)
        ensures
            r matches Ok(k) ==> peer_index_from(self.peers@, id, 0) == Some(k as int) && k < self.peers@.len(),
            r is Err ==> peer_index_from(self.peers@, id, 0) is None && r == Err::<usize, RelayError>(RelayError::PeerNotFound),
    {
        match self.find_peer(id) {
            Some(k) => Ok(k),
            None => Err(RelayError::PeerNotFound),
        }
    }

    /// Where the first peer in slot `player_id` sits among the peers.
    pub fn peer_by_player_id(&self, player_id: u8) -> (r: Result<usize, RelayError>)
        ensures
            r matches Ok(k) ==> slot_index_from(self.peers@, player_id, 0) == Some(k as int) && k < self.peers@.len(),
            r is Err ==> slot_index_from(self.peers@, player_id, 0) is None && r == Err::<usize, RelayError>(RelayError::PeerNotFound),
    {
        let mut i: usize = 0;
        while i < self.peers.len()
            invariant
                i <= self.peers@.len(),
                slot_index_from(self.peers@, player_id, 0) == slot_index_from(self.peers@, player_id, i as int),
            decreases self.peers@.len() - i,
        {
            if self.peers[i].session.player_id == player_id {
                return Ok(i);
            }
            i = i + 1;
        }
        Err(RelayError::PeerNotFound)
    }

    /// Seats a new human connection `id` in the lowest free slot, named
    /// after the slot, with the unpredictable `resume_token`; the first
    /// connection becomes host. A full room refuses.
    pub fn add_peer(&mut self, id: u64, resume_token: String) -> (r: Result<(), RelayError>)
        ensures
            r is Err <==> old(self).peers@.len() >= MAX_PLAYERS_PER_ROOM,
            r is Err ==> *final(self) == *old(self),
            r is Ok ==> after_add_peer(*old(self), *final(self), id, resume_token@),
            r is Ok && slots_distinct(old(self).peers@) ==> slots_distinct(final(self).peers@),
    {
        if self.peers.len() >= MAX_PLAYERS_PER_ROOM {
            return Err(RelayError::RoomFull("too many players".to_owned()));
        }
        let slot = alloc_player_slot(self.peers.as_slice());
        let name = player_name_of(slot);
        self.peers.push(PeerInfo { id, ready: false, session: Session::new(slot, name, false, 0, resume_token) });
        if self.host_peer_id.is_none() {
            self.host_peer_id = Some(id);
        }
        assert(self.peers@.drop_last() =~= old(self).peers@);
        proof {
            lemma_new_slot_keeps_distinct(old(self).peers@, self.peers@);
        }
        Ok(())
    }

    /// Seats a bot (always ready) in the lowest free slot under connection
    /// `id`, named after how many bots the room then has; returns its slot.
    /// A full room refuses.
    pub fn add_bot_peer(&mut self, id: u64, temperature_bits: u32) -> (r: Result<u8, RelayError>)
        ensures
            r is Err <==> old(self).peers@.len() >= MAX_PLAYERS_PER_ROOM,
            r is Err ==> *final(self) == *old(self),
            r matches Ok(slot) ==> after_add_bot(*old(self), *final(self), id, temperature_bits, slot),
            r is Ok && slots_distinct(old(self).peers@) ==> slots_distinct(final(self).peers@),
    {
        if self.peers.len() >= MAX_PLAYERS_PER_ROOM {
            return Err(RelayError::RoomFull("too many players".to_owned()));
        }
        let slot = alloc_player_slot(self.peers.as_slice());
        let mut bots: usize = 0;
        let mut i: usize = 0;
        while i < self.peers.len()
            invariant
                i <= self.peers@.len(),
                self.peers@.len() < MAX_PLAYERS_PER_ROOM,
                bots == bot_count(self.peers@.take(i as int)),
                bots <= i,
            decreases self.peers@.len() - i,
        {
            assert(self.peers@.take(i + 1).drop_last() =~= self.peers@.take(i as int));
            if self.peers[i].session.is_bot {
                bots = bots + 1;
            }
            i = i + 1;
        }
        assert(self.peers@.take(i as int) =~= self.peers@);
        let name = bot_name_of(bots + 1);
        self.peers.push(PeerInfo { id, ready: true, session: Session::new(slot, name, true, temperature_bits, String::new()) });
        assert(self.peers@.drop_last() =~= old(self).peers@);
        proof {
            lemma_new_slot_keeps_distinct(old(self).peers@, self.peers@);
        }
        Ok(slot)
    }

    /// Gives connection `id` the display name `name`, cut to its first
    /// `MAX_NAME_LEN` bytes; a cut inside a character is refused by the
    /// `requires`, as `String::truncate` panics there.
    pub fn rename_peer(&mut self, id: u64, name: String) -> (r: Result<(), RelayError>)
        requires
            cuttable(name@, MAX_NAME_LEN as int),
        ensures
            r is Err <==> peer_index_from(old(self).peers@, id, 0) is None,
            r is Err ==> *final(self) == *old(self),
            r is Ok ==> after_rename(*old(self), *final(self), peer_index_from(old(self).peers@, id, 0)->0, name@),
    {
        let name = truncate_bytes(name, MAX_NAME_LEN);
        match self.find_peer(id) {
            None => Err(RelayError::PeerNotFound),
            Some(k) => {
                let mut tmp = PeerInfo {
                    id: 0,
                    ready: false,
                    session: Session::new(0, String::new(), false, 0, String::new()),
                };
                self.peers.set_and_swap(k, &mut tmp);
                tmp.session.name = name;
                let ghost newp = tmp;
                self.peers.set_and_swap(k, &mut tmp);
                assert(self.peers@ =~= old(self).peers@.update(k as int, newp));
                Ok(())
            },
        }
    }

    /// Sets connection `id`'s ready flag; withdrawing readiness cancels a
    /// running countdown (and advances its generation).
    pub fn set_peer_ready(&mut self, id: u64, ready: bool) -> (r: Result<(), RelayError>)
        ensures
            r is Err <==> peer_index_from(old(self).peers@, id, 0) is None,
            r is Err ==> *final(self) == *old(self),
            r is Ok ==> after_ready(*old(self), *final(self), peer_index_from(old(self).peers@, id, 0)->0, ready),
    {
        match self.find_peer(id) {
            None => Err(RelayError::PeerNotFound),
            Some(k) => {
                let mut tmp = PeerInfo {
                    id: 0,
                    ready: false,
                    session: Session::new(0, String::new(), false, 0, String::new()),
                };
                self.peers.set_and_swap(k, &mut tmp);
                tmp.ready = ready;
                let ghost newp = tmp;
                self.peers.set_and_swap(k, &mut tmp);
                assert(self.peers@ =~= old(self).peers@.update(k as int, newp));
                if !ready {
                    self.countdown_active = false;
                    self.countdown_generation = self.countdown_generation.wrapping_add(1);
                }
                Ok(())
            },
        }
    }

    /// Whether the room may start: at least two peers, all ready.
    pub fn all_peers_ready(&self) -> (r: bool)
        ensures
            r == peers_all_ready(self.peers@),
    {
        if self.peers.len() < 2 {
            return false;
        }
        let mut i: usize = 0;
        while i < self.peers.len()
            invariant
                i <= self.peers@.len(),
                forall|k: int| 0 <= k < i ==> #[trigger] self.peers@[k].ready,
            decreases self.peers@.len() - i,
        {
            if !self.peers[i].ready {
                return false;
            }
            i = i + 1;
        }
        true
    }

    /// Makes every peer not ready.
    pub fn reset_ready_states(&mut self)
        ensures
            final(self).peers@.len() == old(self).peers@.len(),
            forall|k: int| 0 <= k < old(self).peers@.len() ==> #[trigger] final(self).peers@[k] == (PeerInfo { ready: false, ..old(self).peers@[k] }),
            final(self).code@ == old(self).code@,
            final(self).host_peer_id == old(self).host_peer_id,
            final(self).countdown_active == old(self).countdown_active,
            final(self).countdown_generation == old(self).countdown_generation,
    {
        let ghost orig = self.peers@;
        let mut i: usize = 0;
        while i < self.peers.len()
            invariant
                i <= self.peers@.len(),
                self.peers@.len() == orig.len(),
                forall|k: int| 0 <= k < i ==> #[trigger] self.peers@[k] == (PeerInfo { ready: false, ..orig[k] }),
                forall|k: int| i <= k < orig.len() ==> #[trigger] self.peers@[k] == orig[k],
                self.host_peer_id == old(self).host_peer_id,
                self.code@ == old(self).code@,
                self.countdown_active == old(self).countdown_active,
                self.countdown_generation == old(self).countdown_generation,
            decreases self.peers@.len() - i,
        {
            let mut tmp = PeerInfo {
                id: 0,
                ready: false,
                session: Session::new(0, String::new(), false, 0, String::new()),
            };
            self.peers.set_and_swap(i, &mut tmp);
            tmp.ready = false;
            self.peers.set_and_swap(i, &mut tmp);
            i = i + 1;
        }
    }

    /// Removes connection `id`; if it was the host, the first remaining
    /// peer (if any) becomes host. Any countdown is cancelled.
    pub fn remove_peer(&mut self, id: u64)
        ensures
            after_remove(*old(self), *final(self), id),
            slots_distinct(old(self).peers@) ==> slots_distinct(final(self).peers@),
    {
        let mut rest: Vec<PeerInfo> = Vec::new();
        std::mem::swap(&mut rest, &mut self.peers);
        let ghost orig = rest@;
        let n = rest.len();
        let mut kept: Vec<PeerInfo> = Vec::new();
        let mut i: usize = 0;
        while rest.len() > 0
            invariant
                i + rest@.len() == orig.len(),
                orig.len() == n,
                rest@ == orig.skip(i as int),
                kept@ == peers_without(orig.take(i as int), id),
            decreases rest@.len(),
        {
            let p = rest.remove(0);
            assert(orig.take(i + 1).drop_last() =~= orig.take(i as int));
            assert(orig.take(i + 1).last() == p);
            if p.id != id {
                kept.push(p);
            }
            assert(rest@ =~= orig.skip(i + 1));
            i = i + 1;
        }
        assert(orig.take(i as int) =~= orig);
        proof {
            if slots_distinct(orig) {
                lemma_peers_without_distinct(orig, id);
            }
        }
        self.peers = kept;
        if self.host_peer_id == Some(id) {
            self.host_peer_id = if self.peers.len() > 0 {
                Some(self.peers[0].id)
            } else {
                None
            };
        }
        self.countdown_active = false;
        self.countdown_generation = self.countdown_generation.wrapping_add(1);
    }

    /// Marks connection `id` away (it dropped; its slot is kept for a
    /// reconnect); says whether it was found.
    pub fn mark_peer_away(&mut self, id: u64) -> (found: bool)
        ensures
            found <==> peer_index_from(old(self).peers@, id, 0) is Some,
            !found ==> *final(self) == *old(self),
            found ==> after_away(*old(self), *final(self), peer_index_from(old(self).peers@, id, 0)->0),
    {
        match self.find_peer(id) {
            None => false,
            Some(k) => {
                let mut tmp = PeerInfo {
                    id: 0,
                    ready: false,
                    session: Session::new(0, String::new(), false, 0, String::new()),
                };
                self.peers.set_and_swap(k, &mut tmp);
                tmp.session.mark_away();
                let ghost newp = tmp;
                self.peers.set_and_swap(k, &mut tmp);
                assert(self.peers@ =~= old(self).peers@.update(k as int, newp));
                true
            },
        }
    }

    /// Whether connection `id` is here and away.
    pub fn peer_is_away(&self, id: u64) -> (r: bool)
        ensures
            r == exists|k: int| 0 <= k < self.peers@.len() && self.peers@[k].id == id && self.peers@[k].session.away,
    {
        let mut i: usize = 0;
        while i < self.peers.len()
            invariant
                i <= self.peers@.len(),
                forall|k: int| 0 <= k < i ==> !(self.peers@[k].id == id && self.peers@[k].session.away),
            decreases self.peers@.len() - i,
        {
            if self.peers[i].id == id && self.peers[i].session.away {
                return true;
            }
            i = i + 1;
        }
        false
    }

    /// Rebinds the first away human session that `token` may reclaim (see
    /// `reclaimable`) to connection `new_id`, back from away, and returns its
    /// slot; an empty or unknown token reclaims nothing. A room without host
    /// gets the reconnected peer as host.
    pub fn reclaim_away_peer(&mut self, new_id: u64, token: &str) -> (r: Option<u8>)
        ensures
            r is None <==> reclaim_index_from(old(self).peers@, token@, 0) is None,
            r is None ==> *final(self) == *old(self),
            r matches Some(slot) ==> ({
                let k = reclaim_index_from(old(self).peers@, token@, 0)->0;
                &&& slot == old(self).peers@[k].session.player_id
                &&& after_reclaim(*old(self), *final(self), new_id, k)
            }),
    {
        if token.is_empty() {
            proof {
                lemma_reclaim_needs_token(old(self).peers@, token@, 0);
            }
            return None;
        }
        let mut i: usize = 0;
        let mut found: Option<usize> = None;
        while i < self.peers.len()
            invariant_except_break
                found is None,
                reclaim_index_from(self.peers@, token@, 0) == reclaim_index_from(self.peers@, token@, i as int),
            invariant
                i <= self.peers@.len(),
            ensures
                found matches Some(k) ==> reclaim_index_from(self.peers@, token@, 0) == Some(k as int) && k < self.peers@.len(),
                found is None ==> reclaim_index_from(self.peers@, token@, 0) is None,
            decreases self.peers@.len() - i,
        {
            if self.peers[i].session.reclaimable_by(token) {
                found = Some(i);
                break;
            }
            i = i + 1;
        }
        match found {
            None => None,
            Some(k) => {
                let mut tmp = PeerInfo {
                    id: 0,
                    ready: false,
                    session: Session::new(0, String::new(), false, 0, String::new()),
                };
                self.peers.set_and_swap(k, &mut tmp);
                tmp.session.unmark_away();
                tmp.id = new_id;
                let slot = tmp.session.player_id;
                let ghost newp = tmp;
                self.peers.set_and_swap(k, &mut tmp);
                assert(self.peers@ =~= old(self).peers@.update(k as int, newp));
                if self.host_peer_id.is_none() {
                    self.host_peer_id = Some(new_id);
                }
                Some(slot)
            },
        }
    }

    /// Whether connection `id` is the host.
    pub fn is_host(&self, id: u64) -> (r: bool)
        ensures
            r == (self.host_peer_id == Some(id)),
    {
        match self.host_peer_id {
            Some(h) => h == id,
            None => false,
        }
    }

    /// Starts the countdown unless one runs: returns its new generation,
    /// or `None` (and no change) when one is already running.
    pub fn try_start_countdown(&mut self) -> (r: Option<u64>)
        ensures
            old(self).countdown_active ==> r is None && *final(self) == *old(self),
            !old(self).countdown_active ==> r == Some(final(self).countdown_generation)
                && *final(self) == (RoomState {
                    countdown_active: true,
                    countdown_generation: old(self).countdown_generation.wrapping_add(1),
                    ..*old(self)
                }),
    {
        if self.countdown_active {
            return None;
        }
        self.countdown_active = true;
        self.countdown_generation = self.countdown_generation.wrapping_add(1);
        Some(self.countdown_generation)
    }

    /// Stops the countdown and advances its generation.
    pub fn cancel_countdown(&mut self)
        ensures
            *final(self) == (RoomState {
                countdown_active: false,
                countdown_generation: old(self).countdown_generation.wrapping_add(1),
                ..*old(self)
            }),
    {
        self.countdown_active = false;
        self.countdown_generation = self.countdown_generation.wrapping_add(1);
    }

    /// Whether the countdown of generation `generation` is still the one
    /// running.
    pub fn countdown_generation_matches(&self, generation: u64) -> (r: bool)
        ensures
            r == (self.countdown_active && self.countdown_generation == generation),
    {
        self.countdown_active && self.countdown_generation == generation
    }

    /// The room snapshot broadcast to every peer: each peer's slot, name,
    /// readiness, away flag, whether it is the host and whether it is a bot
    /// (everyone counts as alive in the lobby).
    pub fn snapshot(&self) -> (pkt: PktRoomSnapshot)
        ensures
            pkt.header == (PacketHeader { version: crate::protocol::PROTOCOL_VERSION, packet_type: PacketType::RoomSnapshot, player_id: 0 }),
            pkt.room_code@ == self.code@,
            pkt.players@.len() == self.peers@.len(),
            forall|k: int| 0 <= k < self.peers@.len() ==> {
                let s = #[trigger] pkt.players@[k];
                let p = self.peers@[k];
                &&& s.player_id == p.session.player_id
                &&& s.name@ == p.session.name@
                &&& s.ready == p.ready
                &&& s.alive
                &&& s.away == p.session.away
                &&& s.is_host == (self.host_peer_id == Some(p.id))
                &&& s.is_bot == p.session.is_bot
            },
    {
        let mut players: Vec<RoomPlayerSnapshot> = Vec::new();
        let mut i: usize = 0;
        while i < self.peers.len()
            invariant
                i <= self.peers@.len(),
                players@.len() == i,
                forall|k: int| 0 <= k < i ==> {
                    let s = #[trigger] players@[k];
                    let p = self.peers@[k];
                    &&& s.player_id == p.session.player_id
                    &&& s.name@ == p.session.name@
                    &&& s.ready == p.ready
                    &&& s.alive
                    &&& s.away == p.session.away
                    &&& s.is_host == (self.host_peer_id == Some(p.id))
                    &&& s.is_bot == p.session.is_bot
                },
            decreases self.peers@.len() - i,
        {
            let p = &self.peers[i];
            let is_host = match self.host_peer_id {
                Some(h) => h == p.id,
                None => false,
            };
            players.push(
                RoomPlayerSnapshot {
                    player_id: p.session.player_id,
                    name: p.session.name.clone(),
                    ready: p.ready,
                    alive: true,
                    away: p.session.away,
                    is_host,
                    is_bot: p.session.is_bot,
                },
            );
            i = i + 1;
        }
        PktRoomSnapshot {
            header: PacketHeader::new(PacketType::RoomSnapshot, 0),
            room_code: self.code.clone(),
            players,
        }
    }
}

/// The index of the first room at or after `i` with code `code`.
pub open spec fn room_index_from(rooms: Seq<RoomState>, code: Seq<char>, i: int) -> Option<int>
    decreases rooms.len() - i,
{
    if i < 0 || i >= rooms.len() {
        None
    } else if rooms[i].code@ == code {
        Some(i)
    } else {
        room_index_from(rooms, code, i + 1)
    }
}

/// No room is found for `code` at or after `i` exactly when no room
/// there has that code.
pub proof fn lemma_room_index_none(rooms: Seq<RoomState>, code: Seq<char>, i: int)
    requires
        0 <= i,
    ensures
        room_index_from(rooms, code, i) is None <==> forall|j: int| i <= j < rooms.len() ==> #[trigger] rooms[j].code@ != code,
    decreases rooms.len() - i,
{
    if i < rooms.len() {
        lemma_room_index_none(rooms, code, i + 1);
    }
}

/// A room found for `code` at or after `i` has that code and sits there.
proof fn lemma_room_index_some(rooms: Seq<RoomState>, code: Seq<char>, i: int)
    requires
        0 <= i,
    ensures
        room_index_from(rooms, code, i) matches Some(k) ==> i <= k < rooms.len() && rooms[k].code@ == code,
    decreases rooms.len() - i,
{
    if i < rooms.len() {
        lemma_room_index_some(rooms, code, i + 1);
    }
}

/// With distinct codes, the room found for a code is the only room with
/// that code.
pub proof fn lemma_room_code_unique(rooms: Seq<RoomState>, code: Seq<char>, k: int)
    requires
        codes_distinct(rooms),
        room_index_from(rooms, code, 0) == Some(k),
    ensures
        0 <= k < rooms.len(),
        rooms[k].code@ == code,
        forall|j: int| 0 <= j < rooms.len() && j != k ==> #[trigger] rooms[j].code@ != code,
{
    lemma_room_index_some(rooms, code, 0);
    assert forall|j: int| 0 <= j < rooms.len() && j != k implies #[trigger] rooms[j].code@ != code by {
        if j < k {
            assert(rooms[j].code@ != rooms[k].code@);
        } else {
            assert(rooms[k].code@ != rooms[j].code@);
        }
    }
}

/// Whether no two rooms share a code.
pub open spec fn codes_distinct(rooms: Seq<RoomState>) -> bool {
    forall|i: int, j: int| 0 <= i < j < rooms.len() ==> #[trigger] rooms[i].code@ != #[trigger] rooms[j].code@
}

/// The relay's rooms, at most `max_rooms` of them, no two with one code.
pub struct RoomManager {
    pub rooms: Vec<RoomState>,
    pub max_rooms: usize,
}

impl RoomManager {
    /// A relay without rooms that holds at most `max_rooms`.
    pub fn new(max_rooms: usize) -> (m: Self)
        ensures
            m.rooms@.len() == 0,
            m.max_rooms == max_rooms,
            codes_distinct(m.rooms@),
    {
        RoomManager { rooms: Vec::new(), max_rooms }
    }

    /// Where the room with code `code` sits, if the relay has it.
    pub fn room_index(&self, code: &str) -> (r: Option<usize>)
        ensures
            r matches Some(k) ==> room_index_from(self.rooms@, code@, 0) == Some(k as int) && k < self.rooms@.len(),
            r is None ==> room_index_from(self.rooms@, code@, 0) is None,
    {
        let wanted = code.to_owned();
        let mut i: usize = 0;
        while i < self.rooms.len()
            invariant
                i <= self.rooms@.len(),
                wanted@ == code@,
                room_index_from(self.rooms@, code@, 0) == room_index_from(self.rooms@, code@, i as int),
            decreases self.rooms@.len() - i,
        {
            if self.rooms[i].code == wanted {
                return Some(i);
            }
            i = i + 1;
        }
        None
    }

    /// The room `code`, opened empty if the relay lacks it and has room for
    /// another; a full relay refuses a new room.
    pub fn get_or_create_room(&mut self, code: &str) -> (r: Result<String, RelayError>)
        ensures
            room_index_from(old(self).rooms@, code@, 0) is Some ==> ({
                &&& r matches Ok(c) && c@ == code@
                &&& *final(self) == *old(self)
            }),
            room_index_from(old(self).rooms@, code@, 0) is None && old(self).rooms@.len() >= old(self).max_rooms ==> ({
                &&& r matches Err(RelayError::RoomFull(m)) && m@ == "server at max room capacity"@
                &&& *final(self) == *old(self)
            }),
            room_index_from(old(self).rooms@, code@, 0) is None && old(self).rooms@.len() < old(self).max_rooms ==> ({
                let room = final(self).rooms@.last();
                &&& r matches Ok(c) && c@ == code@
                &&& final(self).rooms@.drop_last() == old(self).rooms@
                &&& final(self).rooms@.len() == old(self).rooms@.len() + 1
                &&& room.code@ == code@ && room.peers@.len() == 0 && room.host_peer_id is None
                &&& !room.countdown_active && room.countdown_generation == 0
                &&& final(self).max_rooms == old(self).max_rooms
            }),
            codes_distinct(old(self).rooms@) ==> codes_distinct(final(self).rooms@),
    {
        if self.room_index(code).is_some() {
            return Ok(code.to_owned());
        }
        if self.rooms.len() >= self.max_rooms {
            return Err(RelayError::RoomFull("server at max room capacity".to_owned()));
        }
        self.rooms.push(RoomState::new(code.to_owned()));
        assert(self.rooms@.drop_last() =~= old(self).rooms@);
        proof {
            lemma_room_index_none(old(self).rooms@, code@, 0);
            if codes_distinct(old(self).rooms@) {
                assert forall|i: int, j: int| 0 <= i < j < self.rooms@.len() implies #[trigger] self.rooms@[i].code@
                    != #[trigger] self.rooms@[j].code@ by {
                    if j == old(self).rooms@.len() {
                        assert(old(self).rooms@[i].code@ != code@);
                    } else {
                        assert(old(self).rooms@[i].code@ != old(self).rooms@[j].code@);
                    }
                }
            }
        }
        Ok(code.to_owned())
    }

    /// Whether a connection may join room `code`: the room exists and is not
    /// full.
    pub fn join_room(&self, code: &str) -> (r: Result<(), RelayError>)
        ensures
            match room_index_from(self.rooms@, code@, 0) {
                None => r matches Err(RelayError::RoomNotFound(c)) && c@ == code@,
                Some(k) => if self.rooms@[k].peers@.len() >= MAX_PLAYERS_PER_ROOM {
                    r matches Err(RelayError::RoomFull(c)) && c@ == code@
                } else {
                    r is Ok
                },
            },
    {
        match self.room_index(code) {
            None => Err(RelayError::RoomNotFound(code.to_owned())),
            Some(k) => if self.rooms[k].peers.len() >= MAX_PLAYERS_PER_ROOM {
                Err(RelayError::RoomFull(code.to_owned()))
            } else {
                Ok(())
            },
        }
    }

    /// A connection left room `code`: an emptied room is closed, and the
    /// result says so (its running game is then stopped by the caller).
    pub fn leave_room(&mut self, code: &str) -> (closed: bool)
        ensures
            closed <==> ({
                &&& room_index_from(old(self).rooms@, code@, 0) matches Some(k)
                &&& old(self).rooms@[k].peers@.len() == 0
            }),
            !closed ==> *final(self) == *old(self),
            closed ==> final(self).rooms@ == old(self).rooms@.remove(room_index_from(old(self).rooms@, code@, 0)->0)
                && final(self).max_rooms == old(self).max_rooms,
            codes_distinct(old(self).rooms@) ==> codes_distinct(final(self).rooms@),
    {
        match self.room_index(code) {
            Some(k) => {
                if self.rooms[k].peers.len() == 0 {
                    let ghost before = self.rooms@;
                    self.rooms.remove(k);
                    proof {
                        if codes_distinct(before) {
                            assert forall|i: int, j: int| 0 <= i < j < self.rooms@.len() implies #[trigger] self.rooms@[i].code@
                                != #[trigger] self.rooms@[j].code@ by {
                                let i0 = if i < k { i } else { i + 1 };
                                let j0 = if j < k { j } else { j + 1 };
                                assert(self.rooms@[i] == before[i0]);
                                assert(self.rooms@[j] == before[j0]);
                                assert(before[i0].code@ != before[j0].code@);
                            }
                        }
                    }
                    true
                } else {
                    false
                }
            },
            None => false,
        }
    }

    /// The peers of room `code`.
    pub fn room_peers(&self, code: &str) -> (r: Result<&Vec<PeerInfo>, RelayError>)
        ensures
            match room_index_from(self.rooms@, code@, 0) {
                None => r matches Err(RelayError::RoomNotFound(c)) && c@ == code@,
                Some(k) => r matches Ok(p) && *p == self.rooms@[k].peers,
            },
    {
        match self.room_index(code) {
            None => Err(RelayError::RoomNotFound(code.to_owned())),
            Some(k) => Ok(&self.rooms[k].peers),
        }
    }
}

/// An empty token reclaims nothing.
pub proof fn lemma_reclaim_needs_token(peers: Seq<PeerInfo>, token: Seq<char>, i: int)
    requires
        token.len() == 0,
    ensures
        reclaim_index_from(peers, token, i) is None,
    decreases peers.len() - i,
{
    if 0 <= i < peers.len() {
        lemma_reclaim_needs_token(peers, token, i + 1);
    }
}

/// Only the matching token reclaims: whatever session a token reclaims
/// holds exactly that token, is away and is not a bot.
pub proof fn lemma_reclaim_only_by_own_token(peers: Seq<PeerInfo>, token: Seq<char>, i: int)
    ensures
        reclaim_index_from(peers, token, i) matches Some(k) ==> peers[k].session.resume_token@ == token
            && peers[k].session.away && !peers[k].session.is_bot && token.len() > 0,
    decreases peers.len() - i,
{
    if 0 <= i < peers.len() && !reclaimable(peers[i].session, token) {
        lemma_reclaim_only_by_own_token(peers, token, i + 1);
    }
}

} // verus!
