use vstd::prelude::*;
use crate::newtypes::TickNumber;
use crate::protocol::{
    InputEvent, PacketHeader, PacketType, PktAddBot, PktChatMessage, PktJoinRoom, PktKickPlayer,
    PktPlayerReady, PktReconnect, PktRemoveBot, PktReplay, PktResume, PktRoomSettings,
    PktServerAccept, PROTOCOL_VERSION,
};
use crate::text::{cut_bytes, cuttable, truncate_bytes};
use vstd::utf8::encode_utf8;
use crate::relay_room::{
    MAX_NAME_LEN, MAX_PLAYERS_PER_ROOM, RoomState, after_add_bot, after_add_peer, after_away, after_ready,
    after_reclaim, after_remove, after_rename, peer_index_from, peers_all_ready,
    reclaim_index_from, slot_index_from, lemma_reclaim_only_by_own_token, PeerInfo,
    slots_distinct, lemma_new_slot_keeps_distinct, lemma_peers_without_distinct, lemma_peers_without_from,
};

verus! {

/// Largest packet the relay looks at.
pub const MAX_PACKET_BYTES: usize = 65536;
/// Most events one replay packet may carry.
pub const MAX_REPLAY_EVENTS_PER_PACKET: usize = 120;
/// How many ticks past its start a replay packet may reach.
pub const MAX_REPLAY_TICK_SPAN: u64 = 120;
/// Messages per second a connection may send before non-replay ones drop.
pub const MAX_MSG_PER_SEC: u32 = 60;
/// Longest chat message relayed, in bytes.
pub const MAX_CHAT_LEN: usize = 256;
/// Most garbage lines a room may start with.
pub const MAX_INITIAL_GARBAGE_LINES: u8 = 12;
/// Longest garbage delay a room may set, in ticks.
pub const MAX_GARBAGE_DELAY_TICKS: u16 = 600;
/// Seconds a dropped in-game player may take to reconnect.
pub const RECONNECT_GRACE_SECS: u64 = 10;
/// Length of the window the message limit counts in, in nanoseconds.
pub const MSG_WINDOW_NANOS: u64 = 1_000_000_000;

/// The rules a relayed room's games start with.
#[derive(Debug, Clone, Copy, PartialEq, Eq, Structural)]
pub struct RoomRules {
    pub start_level: u32,
    pub hold_enabled: bool,
    pub initial_garbage_lines: u8,
}

/// A relayed room's settings: its rules and the garbage delay in ticks.
#[derive(Debug, Clone, Copy, PartialEq, Eq, Structural)]
pub struct RelaySettings {
    pub rules: RoomRules,
    pub garbage_delay_ticks: u16,
}

/// The settings a host's request asks for, brought into range: start level
/// 1 to 15, at most `MAX_INITIAL_GARBAGE_LINES` starting garbage lines, and
/// a garbage delay of 60 ticks a second up to `MAX_GARBAGE_DELAY_TICKS`.
pub open spec fn settings_of(pkt: PktRoomSettings) -> RelaySettings {
    RelaySettings {
        rules: RoomRules {
            start_level: if pkt.start_level < 1 {
                1
            } else if pkt.start_level > 15 {
                15
            } else {
                pkt.start_level as u32
            },
            hold_enabled: pkt.allow_hold,
            initial_garbage_lines: if pkt.initial_garbage_lines < MAX_INITIAL_GARBAGE_LINES {
                pkt.initial_garbage_lines
            } else {
                MAX_INITIAL_GARBAGE_LINES
            },
        },
        garbage_delay_ticks: if pkt.garbage_delay_secs * 60 < MAX_GARBAGE_DELAY_TICKS {
            (pkt.garbage_delay_secs * 60) as u16
        } else {
            MAX_GARBAGE_DELAY_TICKS
        },
    }
}

/// The settings a host's request asks for; see `settings_of`.
pub fn settings_from_packet(pkt: &PktRoomSettings) -> (r: RelaySettings)
    ensures
        r == settings_of(*pkt),
{
    let level: u32 = if pkt.start_level < 1 {
        1
    } else if pkt.start_level > 15 {
        15
    } else {
        pkt.start_level as u32
    };
    let garbage: u8 = if pkt.initial_garbage_lines < MAX_INITIAL_GARBAGE_LINES {
        pkt.initial_garbage_lines
    } else {
        MAX_INITIAL_GARBAGE_LINES
    };
    let delay: u16 = (pkt.garbage_delay_secs as u16) * 60;
    let delay: u16 = if delay < MAX_GARBAGE_DELAY_TICKS {
        delay
    } else {
        MAX_GARBAGE_DELAY_TICKS
    };
    RelaySettings {
        rules: RoomRules { start_level: level, hold_enabled: pkt.allow_hold, initial_garbage_lines: garbage },
        garbage_delay_ticks: delay,
    }
}

/// Whether a received packet of `len` bytes whose header decoded to
/// `header` is looked at: it is small enough and speaks this protocol.
pub fn packet_admissible(len: usize, header: &PacketHeader) -> (r: bool)
    ensures
        r == (len <= MAX_PACKET_BYTES && header.version == PROTOCOL_VERSION),
{
    len <= MAX_PACKET_BYTES && header.version == PROTOCOL_VERSION
}

/// Whether a header announces a replay packet of this protocol; such packets
/// pass the message limit.
pub fn header_is_replay(header: &PacketHeader) -> (r: bool)
    ensures
        r == (header.version == PROTOCOL_VERSION && header.packet_type == PacketType::Replay),
{
    header.version == PROTOCOL_VERSION && header.packet_type == PacketType::Replay
}

/// Whether the IEEE-754 single with bits `b` is finite and in `[0, 1)`:
/// the positive values below 1.0 (whose bits are below those of 1.0,
/// `0x3f80_0000`), and negative zero, which compares equal to zero.
pub open spec fn subframe_in_unit(b: u32) -> bool {
    b < 0x3f80_0000 || b == 0x8000_0000
}

/// The last tick a replay starting at `start` may reach.
pub open spec fn replay_max_tick(start: u64) -> u64 {
    if start + MAX_REPLAY_TICK_SPAN > u64::MAX {
        u64::MAX
    } else {
        (start + MAX_REPLAY_TICK_SPAN) as u64
    }
}

/// Whether input event `e` fits a replay starting at tick `start`.
pub open spec fn event_fits(e: InputEvent, start: u64) -> bool {
    start <= e.tick.0 <= replay_max_tick(start) && subframe_in_unit(e.subframe_bits)
}

/// Whether a replay packet is relayed: it has one to
/// `MAX_REPLAY_EVENTS_PER_PACKET` events, each within
/// `MAX_REPLAY_TICK_SPAN` ticks from the start and with its subframe in
/// `[0, 1)`.
pub open spec fn replay_valid(pkt: PktReplay) -> bool {
    &&& 0 < pkt.events@.len() <= MAX_REPLAY_EVENTS_PER_PACKET
    &&& forall|i: int| 0 <= i < pkt.events@.len() ==> #[trigger] event_fits(pkt.events@[i], pkt.start_tick.0)
}

/// Whether a replay packet is relayed; see `replay_valid`.
pub fn replay_packet_is_valid(pkt: &PktReplay) -> (r: bool)
    ensures
        r == replay_valid(*pkt),
{
    if pkt.events.len() == 0 || pkt.events.len() > MAX_REPLAY_EVENTS_PER_PACKET {
        return false;
    }
    let max_tick = pkt.start_tick.0.saturating_add(MAX_REPLAY_TICK_SPAN);
    let mut i: usize = 0;
    while i < pkt.events.len()
        invariant
            i <= pkt.events@.len(),
            max_tick == replay_max_tick(pkt.start_tick.0),
            forall|j: int| 0 <= j < i ==> #[trigger] event_fits(pkt.events@[j], pkt.start_tick.0),
        decreases pkt.events@.len() - i,
    {
        let e = pkt.events[i];
        let b = e.subframe_bits;
        if !(e.tick.0 >= pkt.start_tick.0 && e.tick.0 <= max_tick && (b < 0x3f80_0000 || b == 0x8000_0000)) {
            assert(!event_fits(pkt.events@[i as int], pkt.start_tick.0));
            return false;
        }
        i = i + 1;
    }
    true
}

/// How many messages a connection sent in its current one-second window,
/// and when (in nanoseconds on the caller's clock) that window began.
pub struct MessageWindow {
    pub count: u32,
    pub window_start_nanos: u64,
}

/// Whether a message at `now` opens a new window: more than a second passed
/// since the window began (a clock that went back counts as no time).
pub open spec fn window_expired(start: u64, now: u64) -> bool {
    now > start && now - start > MSG_WINDOW_NANOS
}

impl MessageWindow {
    /// A window beginning at `now_nanos` with nothing counted.
    pub fn new(now_nanos: u64) -> (w: Self)
        ensures
            w.count == 0,
            w.window_start_nanos == now_nanos,
    {
        MessageWindow { count: 0, window_start_nanos: now_nanos }
    }

    /// Counts a message received at `now_nanos` and says whether it is
    /// handled: past `MAX_MSG_PER_SEC` messages in one window only replay
    /// packets are. The count saturates.
    pub fn count_message(&mut self, now_nanos: u64, is_replay: bool) -> (handled: bool)
        ensures
            final(self).window_start_nanos == (if window_expired(old(self).window_start_nanos, now_nanos) {
                now_nanos
            } else {
                old(self).window_start_nanos
            }),
            final(self).count == ({
                let base: u32 = if window_expired(old(self).window_start_nanos, now_nanos) { 0 } else { old(self).count };
                if base == u32::MAX { u32::MAX } else { (base + 1) as u32 }
            }),
            handled == (final(self).count <= MAX_MSG_PER_SEC || is_replay),
    {
        if now_nanos > self.window_start_nanos && now_nanos - self.window_start_nanos > MSG_WINDOW_NANOS {
            self.count = 0;
            self.window_start_nanos = now_nanos;
        }
        self.count = self.count.saturating_add(1);
        !(self.count > MAX_MSG_PER_SEC && !is_replay)
    }
}

/// A packet a connection sent to the relay, decoded.
pub enum ClientPacket {
    JoinRoom(PktJoinRoom),
    PlayerReady(PktPlayerReady),
    ChatMessage(PktChatMessage),
    AddBot(PktAddBot),
    RoomSettings(PktRoomSettings),
    KickPlayer(PktKickPlayer),
    RemoveBot(PktRemoveBot),
    Replay(PktReplay),
    Resume(PktResume),
    Reconnect(PktReconnect),
    /// A handshake packet after the handshake, or a packet the relay does
    /// not act on.
    Other,
}

/// What the relay does after a packet: the room-wide broadcasts, the
/// commands to the running game (sent only where one runs), and the inputs
/// it forwards.
pub enum RelayAction {
    /// Broadcast the room snapshot.
    BroadcastSnapshot,
    /// Broadcast that the countdown was cancelled.
    BroadcastCountdownCancel,
    /// Run the countdown of this generation.
    StartCountdown(u64),
    /// Broadcast this chat message.
    BroadcastChat(PktChatMessage),
    /// Broadcast the received packet unchanged.
    Rebroadcast,
    /// Keep these settings for the room's next game.
    StoreSettings(RelaySettings),
    /// Seat a bot in the running game.
    ActorAddBot { slot: u8, temperature_bits: u32 },
    /// Take a slot out of the running game.
    ActorPlayerLeave { slot: u8 },
    /// Answer a slot's reconnect from its hash ladder.
    ActorReconnect { slot: u8, client_hashes: Vec<(TickNumber, u32)> },
    /// Hand these input events to the sender's game slot.
    ForwardInputs(Vec<InputEvent>),
}

/// The ready-flag step: after `before` became `mid` by the sender's flag,
/// the snapshot goes out, and either the countdown is cancelled (not all
/// ready) or one starts unless it runs.
pub open spec fn ready_outcome(mid: RoomState, after: RoomState, acts: Seq<RelayAction>) -> bool {
    &&& acts.len() >= 1 && acts[0] is BroadcastSnapshot
    &&& if !peers_all_ready(mid.peers@) {
        &&& after == (RoomState { countdown_active: false, countdown_generation: mid.countdown_generation.wrapping_add(1), ..mid })
        &&& acts.len() == 2 && acts[1] is BroadcastCountdownCancel
    } else if mid.countdown_active {
        after == mid && acts.len() == 1
    } else {
        &&& after == (RoomState { countdown_active: true, countdown_generation: mid.countdown_generation.wrapping_add(1), ..mid })
        &&& acts.len() == 2 && acts[1] == RelayAction::StartCountdown(after.countdown_generation)
    }
}

/// Whether the texts that `pkt` carries can be cut to their limits: its
/// name after `MAX_NAME_LEN` bytes, its chat message after `MAX_CHAT_LEN`.
pub open spec fn packet_cuttable(pkt: ClientPacket) -> bool {
    match pkt {
        ClientPacket::JoinRoom(p) => cuttable(p.player_name@, MAX_NAME_LEN as int),
        ClientPacket::ChatMessage(p) => cuttable(p.message@, MAX_CHAT_LEN as int),
        _ => true,
    }
}

/// Whether `before` became `after`, with actions `acts`, on packet `pkt`
/// from connection `peer_id` (a bot added by it gets connection `bot_id`).
pub open spec fn handled(before: RoomState, peer_id: u64, pkt: ClientPacket, bot_id: u64, after: RoomState, acts: Seq<RelayAction>) -> bool {
    let me = peer_index_from(before.peers@, peer_id, 0);
    let is_host = before.host_peer_id == Some(peer_id);
    let unchanged = after == before && acts.len() == 0;
    match pkt {
        ClientPacket::JoinRoom(p) => match me {
            None => unchanged,
            Some(k) => after_rename(before, after, k, p.player_name@) && acts.len() == 1 && acts[0] is BroadcastSnapshot,
        },
        ClientPacket::PlayerReady(p) => match me {
            None => unchanged,
            Some(k) => exists|mid: RoomState| after_ready(before, mid, k, p.ready) && #[trigger] ready_outcome(mid, after, acts),
        },
        ClientPacket::ChatMessage(p) => match me {
            None => unchanged,
            Some(k) => {
                &&& after == before && acts.len() == 1
                &&& acts[0] matches RelayAction::BroadcastChat(c)
                &&& c.header == PacketHeader { version: PROTOCOL_VERSION, packet_type: PacketType::ChatMessage, player_id: before.peers@[k].session.player_id }
                &&& encode_utf8(c.message@) == cut_bytes(p.message@, MAX_CHAT_LEN as int)
                &&& c.timestamp@ == p.timestamp@
            },
        },
        ClientPacket::AddBot(p) => if before.peers@.len() >= MAX_PLAYERS_PER_ROOM {
            unchanged
        } else {
            let slot = after.peers@.last().session.player_id;
            &&& after_add_bot(before, after, bot_id, p.temperature_bits, slot)
            &&& acts.len() == 2 && acts[0] is BroadcastSnapshot
            &&& acts[1] == RelayAction::ActorAddBot { slot, temperature_bits: p.temperature_bits }
        },
        ClientPacket::RoomSettings(p) => if !is_host {
            unchanged
        } else {
            &&& after == before && acts.len() == 2
            &&& acts[0] == RelayAction::StoreSettings(settings_of(p))
            &&& acts[1] is Rebroadcast
        },
        ClientPacket::KickPlayer(p) => match slot_index_from(before.peers@, p.target_player_id, 0) {
            Some(t) if is_host && before.peers@[t].id != peer_id => {
                &&& after_remove(before, after, before.peers@[t].id)
                &&& acts.len() == 3 && acts[0] is Rebroadcast
                &&& acts[1] == RelayAction::ActorPlayerLeave { slot: p.target_player_id }
                &&& acts[2] is BroadcastSnapshot
            },
            _ => unchanged,
        },
        ClientPacket::RemoveBot(p) => match slot_index_from(before.peers@, p.target_player_id, 0) {
            Some(t) if is_host && before.peers@[t].session.is_bot => {
                &&& after_remove(before, after, before.peers@[t].id)
                &&& acts.len() == 2
                &&& acts[0] == RelayAction::ActorPlayerLeave { slot: p.target_player_id }
                &&& acts[1] is BroadcastSnapshot
            },
            _ => unchanged,
        },
        ClientPacket::Replay(p) => if replay_valid(p) {
            &&& after == before && acts.len() == 1
            &&& acts[0] matches RelayAction::ForwardInputs(evs)
            &&& evs@ == p.events@
        } else {
            unchanged
        },
        ClientPacket::Resume(_) => unchanged,
        ClientPacket::Reconnect(p) => match me {
            None => unchanged,
            Some(k) => {
                &&& after == before && acts.len() == 1
                &&& acts[0] matches RelayAction::ActorReconnect { slot, client_hashes }
                &&& slot == before.peers@[k].session.player_id && client_hashes@ == p.client_hashes@
            },
        },
        ClientPacket::Other => unchanged,
    }
}

/// Only the host moderates: a packet asking to change the settings, kick a
/// player or remove a bot from anyone else changes nothing and is not
/// answered.
pub proof fn lemma_only_host_moderates(
    before: RoomState,
    peer_id: u64,
    pkt: ClientPacket,
    bot_id: u64,
    after: RoomState,
    acts: Seq<RelayAction>,
)
    requires
        handled(before, peer_id, pkt, bot_id, after, acts),
        before.host_peer_id != Some(peer_id),
        pkt is RoomSettings || pkt is KickPlayer || pkt is RemoveBot,
    ensures
        after == before,
        acts.len() == 0,
{
}

/// Peer `k` replaced by a peer in the same slot keeps the slots distinct.
proof fn lemma_same_slot_update(peers: Seq<PeerInfo>, k: int, p: PeerInfo)
    requires
        slots_distinct(peers),
        0 <= k < peers.len(),
        p.session.player_id == peers[k].session.player_id,
    ensures
        slots_distinct(peers.update(k, p)),
{
    let t = peers.update(k, p);
    assert forall|i: int, j: int| 0 <= i < j < t.len() implies #[trigger] t[i].session.player_id != #[trigger] t[j].session.player_id by {
        assert(peers[i].session.player_id != peers[j].session.player_id);
    }
}

/// Whatever a client sends, a room keeps its shape: it never holds more than
/// `MAX_PLAYERS_PER_ROOM` peers, and no two peers share a slot.
pub proof fn lemma_handled_keeps_room_shape(
    before: RoomState,
    peer_id: u64,
    pkt: ClientPacket,
    bot_id: u64,
    after: RoomState,
    acts: Seq<RelayAction>,
)
    requires
        handled(before, peer_id, pkt, bot_id, after, acts),
        before.peers@.len() <= MAX_PLAYERS_PER_ROOM,
        slots_distinct(before.peers@),
    ensures
        after.peers@.len() <= MAX_PLAYERS_PER_ROOM,
        slots_distinct(after.peers@),
{
    match pkt {
        ClientPacket::JoinRoom(p) => {
            if let Some(k) = peer_index_from(before.peers@, peer_id, 0) {
                lemma_peer_index_in_range(before.peers@, peer_id, 0);
                lemma_same_slot_update(before.peers@, k, after.peers@[k]);
                assert(after.peers@ == before.peers@.update(k, after.peers@[k]));
            }
        },
        ClientPacket::PlayerReady(p) => {
            if let Some(k) = peer_index_from(before.peers@, peer_id, 0) {
                lemma_peer_index_in_range(before.peers@, peer_id, 0);
                let mid = choose|mid: RoomState| after_ready(before, mid, k, p.ready) && #[trigger] ready_outcome(mid, after, acts);
                lemma_same_slot_update(before.peers@, k, mid.peers@[k]);
                assert(mid.peers@ == before.peers@.update(k, mid.peers@[k]));
                assert(after.peers@ == mid.peers@);
            }
        },
        ClientPacket::AddBot(p) => {
            if before.peers@.len() < MAX_PLAYERS_PER_ROOM {
                lemma_new_slot_keeps_distinct(before.peers@, after.peers@);
            }
        },
        ClientPacket::KickPlayer(p) => {
            if let Some(t) = slot_index_from(before.peers@, p.target_player_id, 0) {
                if before.host_peer_id == Some(peer_id) && before.peers@[t].id != peer_id {
                    lemma_peers_without_from(before.peers@, before.peers@[t].id);
                    lemma_peers_without_distinct(before.peers@, before.peers@[t].id);
                }
            }
        },
        ClientPacket::RemoveBot(p) => {
            if let Some(t) = slot_index_from(before.peers@, p.target_player_id, 0) {
                if before.host_peer_id == Some(peer_id) && before.peers@[t].session.is_bot {
                    lemma_peers_without_from(before.peers@, before.peers@[t].id);
                    lemma_peers_without_distinct(before.peers@, before.peers@[t].id);
                }
            }
        },
        _ => {},
    }
}

/// Withdrawing readiness stops the countdown: after a known peer says it is
/// not ready, no countdown runs and the generation has moved on, so a
/// countdown started before can tell it was cancelled.
pub proof fn lemma_unready_stops_countdown(
    before: RoomState,
    peer_id: u64,
    pkt: ClientPacket,
    bot_id: u64,
    after: RoomState,
    acts: Seq<RelayAction>,
)
    requires
        handled(before, peer_id, pkt, bot_id, after, acts),
        pkt matches ClientPacket::PlayerReady(p) && !p.ready,
        peer_index_from(before.peers@, peer_id, 0) is Some,
    ensures
        !after.countdown_active,
        after.countdown_generation != before.countdown_generation,
{
    let k = peer_index_from(before.peers@, peer_id, 0)->0;
    lemma_peer_index_in_range(before.peers@, peer_id, 0);
    let p = pkt->PlayerReady_0;
    let mid = choose|mid: RoomState| after_ready(before, mid, k, p.ready) && #[trigger] ready_outcome(mid, after, acts);
    assert(!mid.peers@[k].ready);
    assert(!peers_all_ready(mid.peers@));
    let g = before.countdown_generation;
    assert(g.wrapping_add(1).wrapping_add(1) != g) by (bit_vector);
}

/// A kicked player is gone: after the host kicks slot `t`'s connection,
/// no peer of the room has that connection any more.
pub proof fn lemma_kicked_player_is_gone(
    before: RoomState,
    peer_id: u64,
    pkt: ClientPacket,
    bot_id: u64,
    after: RoomState,
    acts: Seq<RelayAction>,
)
    requires
        handled(before, peer_id, pkt, bot_id, after, acts),
        pkt is KickPlayer,
        acts.len() > 0,
    ensures
        ({
            let t = slot_index_from(before.peers@, pkt->KickPlayer_0.target_player_id, 0)->0;
            forall|j: int| 0 <= j < after.peers@.len() ==> #[trigger] after.peers@[j].id != before.peers@[t].id
        }),
{
    let t = slot_index_from(before.peers@, pkt->KickPlayer_0.target_player_id, 0)->0;
    lemma_peers_without_from(before.peers@, before.peers@[t].id);
}

/// A peer found by connection lies within the peers.
proof fn lemma_peer_index_in_range(peers: Seq<PeerInfo>, id: u64, i: int)
    ensures
        peer_index_from(peers, id, i) matches Some(k) ==> i <= k < peers.len(),
    decreases peers.len() - i,
{
    if 0 <= i < peers.len() && peers[i].id != id {
        lemma_peer_index_in_range(peers, id, i + 1);
    }
}

/// The relay's answer to a packet from connection `peer_id` of a room:
/// renames, ready flags (cancelling or starting the countdown), chat,
/// bots, host-only settings, kicks and bot removals, replays within their
/// window, and reconnects; see `handled`. A bot added here gets connection
/// `bot_id`. Names are cut to `MAX_NAME_LEN` bytes and chat to
/// `MAX_CHAT_LEN`; a cut inside a character is refused by the `requires`,
/// as `String::truncate` panics there.
pub fn handle_client_packet(room: &mut RoomState, peer_id: u64, pkt: ClientPacket, bot_id: u64) -> (acts: Vec<RelayAction>)
    requires
        packet_cuttable(pkt),
    ensures
        handled(*old(room), peer_id, pkt, bot_id, *final(room), acts@),
{
    let mut acts: Vec<RelayAction> = Vec::new();
    match pkt {
        ClientPacket::JoinRoom(p) => {
            if room.rename_peer(peer_id, p.player_name).is_ok() {
                acts.push(RelayAction::BroadcastSnapshot);
            }
        },
        ClientPacket::PlayerReady(p) => {
            if room.set_peer_ready(peer_id, p.ready).is_ok() {
                let ghost mid = *room;
                acts.push(RelayAction::BroadcastSnapshot);
                if !room.all_peers_ready() {
                    room.cancel_countdown();
                    acts.push(RelayAction::BroadcastCountdownCancel);
                } else {
                    match room.try_start_countdown() {
                        Some(generation) => acts.push(RelayAction::StartCountdown(generation)),
                        None => {},
                    }
                }
                assert(ready_outcome(mid, *room, acts@));
            }
        },
        ClientPacket::ChatMessage(p) => {
            match room.peer_by_id(peer_id) {
                Ok(k) => {
                    let slot = room.peers[k].session.player_id;
                    acts.push(
                        RelayAction::BroadcastChat(
                            PktChatMessage {
                                header: PacketHeader::new(PacketType::ChatMessage, slot),
                                message: truncate_bytes(p.message, MAX_CHAT_LEN),
                                timestamp: p.timestamp,
                            },
                        ),
                    );
                },
                Err(_) => {},
            }
        },
        ClientPacket::AddBot(p) => {
            match room.add_bot_peer(bot_id, p.temperature_bits) {
                Ok(slot) => {
                    acts.push(RelayAction::BroadcastSnapshot);
                    acts.push(RelayAction::ActorAddBot { slot, temperature_bits: p.temperature_bits });
                },
                Err(_) => {},
            }
        },
        ClientPacket::RoomSettings(p) => {
            if room.is_host(peer_id) {
                acts.push(RelayAction::StoreSettings(settings_from_packet(&p)));
                acts.push(RelayAction::Rebroadcast);
            }
        },
        ClientPacket::KickPlayer(p) => {
            if room.is_host(peer_id) {
                match room.peer_by_player_id(p.target_player_id) {
                    Ok(t) => {
                        let target = room.peers[t].id;
                        if target != peer_id {
                            acts.push(RelayAction::Rebroadcast);
                            acts.push(RelayAction::ActorPlayerLeave { slot: p.target_player_id });
                            room.remove_peer(target);
                            acts.push(RelayAction::BroadcastSnapshot);
                        }
                    },
                    Err(_) => {},
                }
            }
        },
        ClientPacket::RemoveBot(p) => {
            if room.is_host(peer_id) {
                match room.peer_by_player_id(p.target_player_id) {
                    Ok(t) => {
                        if room.peers[t].session.is_bot {
                            let target = room.peers[t].id;
                            acts.push(RelayAction::ActorPlayerLeave { slot: p.target_player_id });
                            room.remove_peer(target);
                            acts.push(RelayAction::BroadcastSnapshot);
                        }
                    },
                    Err(_) => {},
                }
            }
        },
        ClientPacket::Replay(p) => {
            if replay_packet_is_valid(&p) {
                acts.push(RelayAction::ForwardInputs(p.events));
            }
        },
        ClientPacket::Resume(_) => {},
        ClientPacket::Reconnect(p) => {
            match room.peer_by_id(peer_id) {
                Ok(k) => {
                    let slot = room.peers[k].session.player_id;
                    acts.push(RelayAction::ActorReconnect { slot, client_hashes: p.client_hashes });
                },
                Err(_) => {},
            }
        },
        ClientPacket::Other => {},
    }
    acts
}

/// What `str::to_uppercase` makes of `s`: the Unicode upper case of each
/// character, which may change the string's length.
pub uninterp spec fn uppercased(s: Seq<char>) -> Seq<char>;

/// `s` in upper case, from `str::to_uppercase`; see `uppercased`.
#[verifier::external_body]
fn to_upper(s: &str) -> (r: String)
    ensures
        r@ == uppercased(s@),
{
    s.to_uppercase()
}

/// Whether byte `b` is an ASCII letter or digit.
pub open spec fn ascii_alnum(b: u8) -> bool {
    (48 <= b <= 57) || (65 <= b <= 90) || (97 <= b <= 122)
}

/// Whether the UTF-8 bytes `code` name a room: four of them, each an ASCII
/// letter or digit (so four ASCII characters).
pub open spec fn room_code_ok(code: Seq<u8>) -> bool {
    code.len() == 4 && forall|i: int| 0 <= i < 4 ==> #[trigger] ascii_alnum(code[i])
}

/// Whether `code` names a room; see `room_code_ok`.
pub fn valid_room_code(code: &str) -> (r: bool)
    ensures
        r == room_code_ok(encode_utf8(code@)),
{
    let bytes = code.as_bytes();
    if bytes.len() != 4 {
        return false;
    }
    let mut i: usize = 0;
    while i < 4
        invariant
            bytes@ == encode_utf8(code@),
            bytes@.len() == 4,
            i <= 4,
            forall|j: int| 0 <= j < i ==> #[trigger] ascii_alnum(bytes@[j]),
        decreases 4 - i,
    {
        let b = bytes[i];
        if !((48 <= b && b <= 57) || (65 <= b && b <= 90) || (97 <= b && b <= 122)) {
            assert(!ascii_alnum(bytes@[i as int]));
            return false;
        }
        i = i + 1;
    }
    true
}

/// The room a connection to the path segment `raw` joins: `raw` in upper
/// case, when that names a room (see `room_code_ok`); `None` otherwise, and
/// the connection is closed.
pub fn room_code_from_path(raw: &str) -> (r: Option<String>)
    ensures
        r is Some <==> room_code_ok(encode_utf8(uppercased(raw@))),
        r matches Some(c) ==> c@ == uppercased(raw@),
{
    let code = to_upper(raw);
    if valid_room_code(code.as_str()) {
        Some(code)
    } else {
        None
    }
}

/// The handshake of connection `peer_id`, which presented `client_token`
/// (empty for a fresh join): a token that reclaims an away session rebinds
/// that session to the connection; otherwise the connection joins anew with
/// the unpredictable `fresh_token`. Returns whether it was admitted and the
/// accept packet to send it, which on refusal (a full room) carries slot
/// `u8::MAX`, room size 0 and no token.
pub fn accept_connection(room: &mut RoomState, peer_id: u64, client_token: &str, fresh_token: String) -> (r: (bool, PktServerAccept))
    ensures
        r.1.header == (PacketHeader { version: PROTOCOL_VERSION, packet_type: PacketType::ServerAccept, player_id: 0 }),
        match reclaim_index_from(old(room).peers@, client_token@, 0) {
            Some(k) => {
                &&& r.0 && after_reclaim(*old(room), *final(room), peer_id, k)
                &&& r.1.assigned_player_id == old(room).peers@[k].session.player_id
                &&& r.1.max_players == MAX_PLAYERS_PER_ROOM
                &&& r.1.resume_token@ == old(room).peers@[k].session.resume_token@
            },
            None => if old(room).peers@.len() >= MAX_PLAYERS_PER_ROOM {
                &&& !r.0 && *final(room) == *old(room)
                &&& r.1.assigned_player_id == u8::MAX && r.1.max_players == 0 && r.1.resume_token@.len() == 0
            } else {
                &&& r.0 && after_add_peer(*old(room), *final(room), peer_id, fresh_token@)
                &&& r.1.assigned_player_id == final(room).peers@.last().session.player_id
                &&& r.1.max_players == MAX_PLAYERS_PER_ROOM
                &&& r.1.resume_token@ == fresh_token@
            },
        },
{
    proof {
        lemma_reclaim_only_by_own_token(room.peers@, client_token@, 0);
    }
    match room.reclaim_away_peer(peer_id, client_token) {
        Some(slot) => {
            let accept = PktServerAccept {
                header: PacketHeader::new(PacketType::ServerAccept, 0),
                assigned_player_id: slot,
                max_players: 4,
                resume_token: client_token.to_owned(),
            };
            (true, accept)
        },
        None => {
            let token_copy = fresh_token.clone();
            match room.add_peer(peer_id, fresh_token) {
                Ok(()) => {
                    let k = room.peers.len() - 1;
                    let accept = PktServerAccept {
                        header: PacketHeader::new(PacketType::ServerAccept, 0),
                        assigned_player_id: room.peers[k].session.player_id,
                        max_players: 4,
                        resume_token: token_copy,
                    };
                    (true, accept)
                },
                Err(_) => {
                    let reject = PktServerAccept {
                        header: PacketHeader::new(PacketType::ServerAccept, 0),
                        assigned_player_id: u8::MAX,
                        max_players: 0,
                        resume_token: String::new(),
                    };
                    (false, reject)
                },
            }
        },
    }
}

/// What a dropped connection leaves behind.
#[derive(Debug, Clone, Copy, PartialEq, Eq, Structural)]
pub enum DisconnectOutcome {
    /// The player is away in a running game; its slot waits out the grace
    /// window (paused, the snapshot broadcast).
    Away { slot: u8 },
    /// The connection is gone from the room; the snapshot goes to the rest
    /// if anyone is left.
    Removed { broadcast: bool },
}

/// A connection of the room dropped: a known player of a running game goes
/// away (keeping its slot for a reconnect); otherwise the connection is
/// removed at once.
pub fn on_disconnect(room: &mut RoomState, peer_id: u64, game_running: bool) -> (r: DisconnectOutcome)
    ensures
        match peer_index_from(old(room).peers@, peer_id, 0) {
            Some(k) if game_running => {
                &&& r == DisconnectOutcome::Away { slot: old(room).peers@[k].session.player_id }
                &&& after_away(*old(room), *final(room), k)
            },
            _ => {
                &&& after_remove(*old(room), *final(room), peer_id)
                &&& r == DisconnectOutcome::Removed { broadcast: final(room).peers@.len() > 0 }
            },
        },
{
    match room.peer_by_id(peer_id) {
        Ok(k) => {
            if game_running {
                let slot = room.peers[k].session.player_id;
                room.mark_peer_away(peer_id);
                return DisconnectOutcome::Away { slot };
            }
        },
        Err(_) => {},
    }
    room.remove_peer(peer_id);
    DisconnectOutcome::Removed { broadcast: room.peers.len() > 0 }
}

/// The grace window of away connection `peer_id` ran out: if it is still
/// away it is removed, and the result says whether anyone is left to get
/// the snapshot; a session reclaimed meanwhile is left alone (`None`).
pub fn on_grace_expired(room: &mut RoomState, peer_id: u64) -> (r: Option<bool>)
    ensures
        !(exists|k: int| 0 <= k < old(room).peers@.len() && old(room).peers@[k].id == peer_id && old(room).peers@[k].session.away)
            ==> r is None && *final(room) == *old(room),
        (exists|k: int| 0 <= k < old(room).peers@.len() && old(room).peers@[k].id == peer_id && old(room).peers@[k].session.away)
            ==> after_remove(*old(room), *final(room), peer_id) && r == Some(final(room).peers@.len() > 0),
{
    if !room.peer_is_away(peer_id) {
        return None;
    }
    room.remove_peer(peer_id);
    Some(room.peers.len() > 0)
}

/// One step of the countdown of generation `generation`: it goes on while
/// every peer is still ready and no cancel or later start replaced it;
/// otherwise it is cancelled here (and the caller broadcasts the cancel).
pub fn countdown_step(room: &mut RoomState, generation: u64) -> (go_on: bool)
    ensures
        go_on == (peers_all_ready(old(room).peers@) && old(room).countdown_active
            && old(room).countdown_generation == generation),
        go_on ==> *final(room) == *old(room),
        !go_on ==> *final(room) == (RoomState {
            countdown_active: false,
            countdown_generation: old(room).countdown_generation.wrapping_add(1),
            ..*old(room)
        }),
{
    if room.all_peers_ready() && room.countdown_generation_matches(generation) {
        true
    } else {
        room.cancel_countdown();
        false
    }
}

/// The countdown ran out. With no connection waiting to play and no game
/// running there is nothing to start: the countdown is cancelled (and the
/// caller broadcasts the cancel and the snapshot). Otherwise the game
/// starts and the lobby resets: nobody is ready, the countdown is over.
pub fn conclude_countdown(room: &mut RoomState, can_start: bool) -> (starts: bool)
    ensures
        starts == can_start,
        final(room).code@ == old(room).code@,
        final(room).host_peer_id == old(room).host_peer_id,
        !final(room).countdown_active,
        final(room).countdown_generation == old(room).countdown_generation.wrapping_add(1),
        !starts ==> final(room).peers == old(room).peers,
        starts ==> final(room).peers@.len() == old(room).peers@.len() && forall|k: int|
            0 <= k < old(room).peers@.len() ==> #[trigger] final(room).peers@[k] == (PeerInfo { ready: false, ..old(room).peers@[k] }),
{
    if !can_start {
        room.cancel_countdown();
        return false;
    }
    room.reset_ready_states();
    room.cancel_countdown();
    true
}

} // verus!
