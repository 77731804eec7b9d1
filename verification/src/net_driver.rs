use vstd::prelude::*;
use std::time::Duration;
use crate::engine::{Action, Engine, EngineView, engine_dims, acted, room_for, action_fits, gravity_ms, ticked_on_clock, restarted};
use crate::errors::NetError;
use crate::net_protocol::{
    PacketHeader, PacketType, PktBatch, PktDeltaSync, PktPlayerAction, PktPlayerAttack, PktResyncRequest, PktStateSync,
    PROTOCOL_VERSION,
};
use crate::rooms::{PlayerInfo, RoomMode};
use crate::types::Piece;
use crate::state::State;
use crate::app_state::{since_unix_epoch, system_now};
use crate::text::{seq_gap_msg, seq_gap_text, version_mismatch_msg, version_mismatch_text};

verus! {

/// Settings of a hosted room. The attack multiplier, a float, is kept as
/// its IEEE-754 bit pattern: nothing here reads it.
#[derive(Debug, Clone, Copy, PartialEq, Eq, Structural)]
pub struct RoomSettings {
    pub max_players: u8,
    pub start_level: u8,
    pub attack_mult_bits: u32,
    pub garbage_delay_secs: u8,
    pub allow_hold: bool,
}

impl Default for RoomSettings {
    fn default() -> (r: Self)
        ensures
            r == (RoomSettings {
                max_players: 4,
                start_level: 1,
                attack_mult_bits: 0x3f80_0000,
                garbage_delay_secs: 1,
                allow_hold: true,
            }),
    {
        RoomSettings {
            max_players: 4,
            start_level: 1,
            attack_mult_bits: 0x3f80_0000,
            garbage_delay_secs: 1,
            allow_hold: true,
        }
    }
}

/// Handle of a player's engine: its slot in the driver's engine list.
#[derive(Debug, Clone, Copy, PartialEq, Eq, Structural)]
pub struct PlayerKey(pub usize);

/// A decoded packet the driver acts on.
pub enum NetPacket {
    GameStart { random_seed: u32 },
    PlayerAction { action: Action },
    PlayerAttack { lines: u8, hole_x: u8 },
    StateSync(PktStateSync),
    DeltaSync(PktDeltaSync),
    ResyncRequest,
    PlayerStatus { target_player_id: u8, alive: bool, spectating_target: Option<u8> },
    GameOver { winner_player_id: u8 },
    Reconnect,
    PlayerAway,
    /// Packets sent together, each with its own header, handled in order.
    Batch(Vec<(PacketHeader, NetPacket)>),
    /// A packet whose body did not decode; the text says why.
    Undecodable(String),
    Ignored,
}

/// Multiplayer session state: the engines of all players, the mapping
/// from player ids to engines, the board each peer last saw, the delta
/// sequence numbers, queued packets and the room.
pub struct NetGameDriver<const W: usize, const H: usize> {
    pub engines: Vec<Option<Engine<W, H>>>,
    pub local_key: PlayerKey,
    pub key_by_player_id: Vec<(u8, PlayerKey)>,
    pub game_start_armed: bool,
    pub prev_board_rows: Vec<Option<Vec<u64>>>,
    pub seq: u32,
    pub last_remote_seq: u32,
    pub pending_packets: Vec<Vec<u8>>,
    pub room_code: Option<String>,
    pub host_player_id: u8,
    pub player_infos: Vec<PlayerInfo>,
    pub room_settings: RoomSettings,
    pub room_mode: RoomMode,
}

/// The engine key of the first entry at or after `i` for player `id`.
pub open spec fn key_of_from(pairs: Seq<(u8, PlayerKey)>, id: u8, i: int) -> Option<PlayerKey>
    decreases pairs.len() - i,
{
    if i < 0 || i >= pairs.len() {
        None
    } else if pairs[i].0 == id {
        Some(pairs[i].1)
    } else {
        key_of_from(pairs, id, i + 1)
    }
}

/// The engine key of player `id`: the first entry for `id`, if any.
pub open spec fn key_of(pairs: Seq<(u8, PlayerKey)>, id: u8) -> Option<PlayerKey> {
    key_of_from(pairs, id, 0)
}

/// The index of the first entry at or after `i` for player `id`.
pub open spec fn entry_of_from(pairs: Seq<(u8, PlayerKey)>, id: u8, i: int) -> Option<int>
    decreases pairs.len() - i,
{
    if i < 0 || i >= pairs.len() {
        None
    } else if pairs[i].0 == id {
        Some(i)
    } else {
        entry_of_from(pairs, id, i + 1)
    }
}

/// Whether some entry maps player `id`.
pub open spec fn has_id(pairs: Seq<(u8, PlayerKey)>, id: int) -> bool {
    exists|k: int| 0 <= k < pairs.len() && pairs[k].0 == id
}

/// The lowest player id that no entry maps; the number of entries (cut to
/// eight bits) when all 256 are taken.
pub open spec fn free_id(pairs: Seq<(u8, PlayerKey)>) -> u8 {
    if exists|id: int| 0 <= id < 256 && !has_id(pairs, id) {
        let id = choose|id: int| 0 <= id < 256 && !has_id(pairs, id) && forall|j: int| 0 <= j < id ==> has_id(pairs, j);
        id as u8
    } else {
        pairs.len() as u8
    }
}

/// Whether `s` is a board cache of `h` empty rows.
pub open spec fn zero_rows(s: Seq<u64>, h: int) -> bool {
    s.len() == h && forall|i: int| 0 <= i < h ==> #[trigger] s[i] == 0
}


/// The index of the first player at or after `i` with id `id`, if any.
pub open spec fn info_index_from(s: Seq<PlayerInfo>, id: u8, i: int) -> Option<int>
    decreases s.len() - i,
{
    if i < 0 || i >= s.len() {
        None
    } else if s[i].player_id == id {
        Some(i)
    } else {
        info_index_from(s, id, i + 1)
    }
}

/// The index of the first player with id `id`, if any.
pub open spec fn info_index(s: Seq<PlayerInfo>, id: u8) -> Option<int> {
    info_index_from(s, id, 0)
}

/// The entries whose engine key is not `key`, in order.
pub open spec fn pairs_without(s: Seq<(u8, PlayerKey)>, key: PlayerKey) -> Seq<(u8, PlayerKey)>
    decreases s.len(),
{
    if s.len() == 0 {
        s
    } else {
        let r = pairs_without(s.drop_last(), key);
        if s.last().1 != key {
            r.push(s.last())
        } else {
            r
        }
    }
}

/// The players kept by `keep`, in order.
pub open spec fn infos_where(s: Seq<PlayerInfo>, keep: spec_fn(PlayerInfo) -> bool) -> Seq<PlayerInfo>
    decreases s.len(),
{
    if s.len() == 0 {
        s
    } else {
        let r = infos_where(s.drop_last(), keep);
        if keep(s.last()) {
            r.push(s.last())
        } else {
            r
        }
    }
}

/// Whether a room of these players may start: at least two, all ready.
pub open spec fn everyone_ready(s: Seq<PlayerInfo>) -> bool {
    s.len() >= 2 && forall|k: int| 0 <= k < s.len() ==> #[trigger] s[k].ready
}

/// The players with one field changed for the first player with id `id`
/// (unchanged if there is none).
pub open spec fn with_info(s: Seq<PlayerInfo>, id: u8, f: spec_fn(PlayerInfo) -> PlayerInfo) -> Seq<PlayerInfo> {
    match info_index(s, id) {
        Some(k) => s.update(k, f(s[k])),
        None => s,
    }
}

/// How many players are alive.
pub open spec fn alive_count(s: Seq<PlayerInfo>) -> int
    decreases s.len(),
{
    if s.len() == 0 {
        0
    } else {
        alive_count(s.drop_last()) + if s.last().alive {
            1int
        } else {
            0int
        }
    }
}


/// The ids of the living players other than `attacker`, in order.
pub open spec fn target_ids(s: Seq<PlayerInfo>, attacker: u8) -> Seq<u8>
    decreases s.len(),
{
    if s.len() == 0 {
        Seq::empty()
    } else {
        let r = target_ids(s.drop_last(), attacker);
        if s.last().alive && s.last().player_id != attacker {
            r.push(s.last().player_id)
        } else {
            r
        }
    }
}

/// The rows of `rows` that differ from the cache `prev`, with their
/// indices, in order (rows past the cache's end are not compared).
pub open spec fn changed_rows(rows: Seq<u64>, prev: Seq<u64>, n: int) -> Seq<(u8, u64)>
    decreases n,
{
    if n <= 0 {
        Seq::empty()
    } else {
        let r = changed_rows(rows, prev, n - 1);
        if n - 1 < prev.len() && rows[n - 1] != prev[n - 1] {
            r.push(((n - 1) as u8, rows[n - 1]))
        } else {
            r
        }
    }
}

/// The state with a peer's full sync applied: board rows (those that fit),
/// active piece, position, hold, the first three preview pieces, pending
/// garbage and random state.
pub open spec fn state_synced<const W: usize, const H: usize>(st: State<W, H>, pkt: PktStateSync) -> State<W, H> {
    let rows = Seq::new(H as nat, |i: int| if i < pkt.board_rows@.len() {
        pkt.board_rows@[i]
    } else {
        st.board.rows[i]
    });
    State {
        board: crate::engine::board_of(rows),
        piece: pkt.piece,
        rot: pkt.rot,
        x: pkt.x,
        y: pkt.y,
        hold: pkt.hold,
        hold_used: pkt.hold_used,
        next: [pkt.next[0], pkt.next[1], pkt.next[2], st.next[3], st.next[4]],
        pending_garbage: pkt.pending_garbage,
        rng: pkt.rng_state,
        ..st
    }
}

/// The rows after a delta: each listed row (on the board) takes its new
/// value, in order.
pub open spec fn rows_delta(rows: Seq<u64>, changes: Seq<(u8, u64)>) -> Seq<u64>
    decreases changes.len(),
{
    if changes.len() == 0 {
        rows
    } else {
        let r = rows_delta(rows, changes.drop_last());
        let (i, v) = changes.last();
        if (i as int) < r.len() {
            r.update(i as int, v)
        } else {
            r
        }
    }
}

/// The state with a peer's delta applied: changed rows, active piece,
/// position, hold and the first three preview pieces.
pub open spec fn state_delta<const W: usize, const H: usize>(st: State<W, H>, pkt: PktDeltaSync) -> State<W, H> {
    State {
        board: crate::engine::board_of(rows_delta(st.board.rows@, pkt.changed_rows@)),
        piece: pkt.piece,
        rot: pkt.rot,
        x: pkt.x,
        y: pkt.y,
        hold: pkt.hold,
        hold_used: pkt.hold_used,
        next: [pkt.next[0], pkt.next[1], pkt.next[2], st.next[3], st.next[4]],
        ..st
    }
}


/// Whether every engine slot of `after` holds the engine of `before`
/// restarted with `seed` at `level` (empty slots stay empty).
pub open spec fn all_restarted<const W: usize, const H: usize>(
    before: Seq<Option<Engine<W, H>>>,
    after: Seq<Option<Engine<W, H>>>,
    seed: u32,
    level: u32,
) -> bool {
    &&& after.len() == before.len()
    &&& forall|i: int| #![trigger after[i]]
        0 <= i < before.len() ==> match before[i] {
            None => after[i] is None,
            Some(e) => after[i] matches Some(e2) && e2@ == restarted(e@, seed, level),
        }
}


/// Whether every engine has room for one more lock.
pub open spec fn engines_room<const W: usize, const H: usize>(engines: Seq<Option<Engine<W, H>>>) -> bool {
    forall|j: int| #![trigger engines[j]] 0 <= j < engines.len() ==> (engines[j] matches Some(e) ==> room_for(e@, 1))
}

/// Whether a position fits the engine's range (see `EngineView::wf`).
pub open spec fn position_ok<const W: usize, const H: usize>(x: i8, y: i8) -> bool {
    -3 <= x < W && -122 <= y < H
}

/// Whether `e2` is engine `e` after `f` acted on its view, with everything
/// else about the driver unchanged.
pub open spec fn engine_changed<const W: usize, const H: usize>(
    d: NetGameDriver<W, H>,
    d2: NetGameDriver<W, H>,
    id: u8,
    f: spec_fn(EngineView<W, H>) -> EngineView<W, H>,
) -> bool {
    &&& d2.engines@.len() == d.engines@.len()
    &&& match key_of(d.key_by_player_id@, id) {
        Some(key) if (key.0 as int) < d.engines@.len() && d.engines@[key.0 as int] is Some => {
            &&& d2.engines@[key.0 as int] matches Some(e2) && e2@ == f(d.engines@[key.0 as int]->0@)
            &&& forall|j: int| 0 <= j < d.engines@.len() && j != key.0 ==> #[trigger] d2.engines@[j] == d.engines@[j]
        },
        _ => d2.engines == d.engines,
    }
}

/// What handling one decoded packet does (see `handle_packet`): a packet
/// of another protocol version is refused; a game start hands out its
/// seed if armed (and disarms); an action drives the sender's engine; an
/// attack adds pending garbage (saturating) to the sender's engine; a full
/// sync overwrites the sender's state and revives it, and refreshes its
/// board cache; a delta must carry the next sequence number (or 0 at the
/// start), updates the sender's board rows and piece, and advances the
/// sequence seen; a sync with a position out of the engine's range is
/// refused; a status updates a player's life and spectating target; game
/// over ends the room and kills everyone but the winner; a reconnect
/// clears the sender's board cache; away marks the sender away; a body
/// that did not decode is a decode error; a batch is handled packet by
/// packet (see `batch_handled`).
pub open spec fn handled<const W: usize, const H: usize>(
    d: NetGameDriver<W, H>,
    header: PacketHeader,
    packet: NetPacket,
    d2: NetGameDriver<W, H>,
    r: Result<Option<u32>, NetError>,
) -> bool
    decreases packet,
{
    if header.version != PROTOCOL_VERSION {
        r matches Err(NetError::Protocol(m)) && m@ == version_mismatch_msg(header.version, PROTOCOL_VERSION) && d2 == d
    } else {
        match packet {
            NetPacket::GameStart { random_seed } => {
                &&& r == (if d.game_start_armed {
                    Ok::<Option<u32>, NetError>(Some(random_seed))
                } else {
                    Ok(None)
                })
                &&& d2 == NetGameDriver { game_start_armed: false, ..d }
            },
            NetPacket::PlayerAction { action } => {
                &&& r == Ok::<Option<u32>, NetError>(None)
                &&& engine_changed(d, d2, header.player_id, |v: EngineView<W, H>| acted(v, action).0)
                &&& d2 == NetGameDriver { engines: d2.engines, ..d }
            },
            NetPacket::PlayerAttack { lines, .. } => {
                &&& r == Ok::<Option<u32>, NetError>(None)
                &&& engine_changed(
                    d,
                    d2,
                    header.player_id,
                    |v: EngineView<W, H>|
                        EngineView {
                            state: State {
                                pending_garbage: if v.state.pending_garbage + lines > u8::MAX {
                                    u8::MAX
                                } else {
                                    (v.state.pending_garbage + lines) as u8
                                },
                                ..v.state
                            },
                            ..v
                        },
                )
                &&& d2 == NetGameDriver { engines: d2.engines, ..d }
            },
            NetPacket::StateSync(pkt) => if !position_ok::<W, H>(pkt.x, pkt.y) {
                r matches Err(NetError::Protocol(m)) && m@ == "position out of range"@ && d2 == d
            } else {
                &&& r == Ok::<Option<u32>, NetError>(None)
                &&& engine_changed(
                    d,
                    d2,
                    header.player_id,
                    |v: EngineView<W, H>| EngineView { state: state_synced(v.state, pkt), game_over: false, ..v },
                )
                &&& d2 == NetGameDriver { engines: d2.engines, prev_board_rows: d2.prev_board_rows, ..d }
                &&& d2.prev_board_rows@.len() == d.prev_board_rows@.len()
                &&& match key_of(d.key_by_player_id@, header.player_id) {
                    Some(key) if (key.0 as int) < d.engines@.len() && d.engines@[key.0 as int] is Some
                        && d.prev_board_rows@[key.0 as int] is Some => {
                        &&& d2.prev_board_rows@[key.0 as int] matches Some(c) && c@ == state_synced(
                            d.engines@[key.0 as int]->0@.state,
                            pkt,
                        ).board.rows@
                        &&& forall|j: int| 0 <= j < d.prev_board_rows@.len() && j != key.0 ==>
                            #[trigger] d2.prev_board_rows@[j] == d.prev_board_rows@[j]
                    },
                    _ => d2.prev_board_rows == d.prev_board_rows,
                }
            },
            NetPacket::DeltaSync(pkt) => if !(d.last_remote_seq == 0 && pkt.seq == 0) && pkt.seq != d.last_remote_seq + 1 {
                r matches Err(NetError::Protocol(m)) && m@ == seq_gap_msg((d.last_remote_seq + 1) as u64, pkt.seq) && d2 == d
            } else if !position_ok::<W, H>(pkt.x, pkt.y) {
                r matches Err(NetError::Protocol(m)) && m@ == "position out of range"@ && d2 == d
            } else {
                &&& r == Ok::<Option<u32>, NetError>(None)
                &&& engine_changed(
                    d,
                    d2,
                    header.player_id,
                    |v: EngineView<W, H>| EngineView { state: state_delta(v.state, pkt), ..v },
                )
                &&& d2 == NetGameDriver { engines: d2.engines, last_remote_seq: d2.last_remote_seq, ..d }
                &&& d2.last_remote_seq == (match key_of(d.key_by_player_id@, header.player_id) {
                    Some(key) if (key.0 as int) < d.engines@.len() && d.engines@[key.0 as int] is Some => pkt.seq,
                    _ => d.last_remote_seq,
                })
            },
            NetPacket::PlayerStatus { target_player_id, alive, spectating_target } => {
                &&& r == Ok::<Option<u32>, NetError>(None)
                &&& d2.player_infos@ == with_info(
                    d.player_infos@,
                    target_player_id,
                    |p: PlayerInfo| PlayerInfo { alive: alive, spectating_target: spectating_target, ..p },
                )
                &&& d2 == NetGameDriver { player_infos: d2.player_infos, ..d }
            },
            NetPacket::GameOver { winner_player_id } => {
                &&& r == Ok::<Option<u32>, NetError>(None)
                &&& d2.room_mode == RoomMode::GameOver
                &&& d2.player_infos@.len() == d.player_infos@.len()
                &&& forall|k: int| 0 <= k < d.player_infos@.len() ==> #[trigger] d2.player_infos@[k] == (if d.player_infos@[k].player_id
                    != winner_player_id {
                    PlayerInfo { alive: false, ..d.player_infos@[k] }
                } else {
                    d.player_infos@[k]
                })
                &&& d2 == NetGameDriver { player_infos: d2.player_infos, room_mode: RoomMode::GameOver, ..d }
            },
            NetPacket::Reconnect => {
                &&& r == Ok::<Option<u32>, NetError>(None)
                &&& d2 == NetGameDriver { prev_board_rows: d2.prev_board_rows, ..d }
                &&& match key_of(d.key_by_player_id@, header.player_id) {
                    Some(key) if (key.0 as int) < d.prev_board_rows@.len() => {
                        &&& d2.prev_board_rows@.len() == d.prev_board_rows@.len()
                        &&& d2.prev_board_rows@[key.0 as int] matches Some(c) && zero_rows(c@, H as int)
                        &&& forall|j: int| 0 <= j < d.prev_board_rows@.len() && j != key.0 ==>
                            #[trigger] d2.prev_board_rows@[j] == d.prev_board_rows@[j]
                    },
                    _ => d2.prev_board_rows == d.prev_board_rows,
                }
            },
            NetPacket::PlayerAway => {
                &&& r == Ok::<Option<u32>, NetError>(None)
                &&& d2.player_infos@ == with_info(d.player_infos@, header.player_id, |p: PlayerInfo| PlayerInfo { away: true, ..p })
                &&& d2 == NetGameDriver { player_infos: d2.player_infos, ..d }
            },
            NetPacket::Batch(items) => batch_handled(d, items@, d2, r),
            NetPacket::Undecodable(m) => r == Err::<Option<u32>, NetError>(NetError::Decode(m)) && d2 == d,
            _ => r == Ok::<Option<u32>, NetError>(None) && d2 == d,
        }
    }
}

/// The state and answer one packet of a batch left.
pub open spec fn step_result<const W: usize, const H: usize>(
    d1: NetGameDriver<W, H>,
    r1: Result<Option<u32>, NetError>,
) -> (NetGameDriver<W, H>, Result<Option<u32>, NetError>) {
    (d1, r1)
}

/// The seed an answer hands out, if any.
pub open spec fn seed_of(r: Result<Option<u32>, NetError>) -> Option<u32> {
    match r {
        Ok(s) => s,
        Err(_) => None,
    }
}

/// The answer of a batch whose first packet answered `Ok(first)` and whose
/// rest answered `rest`: the first seed handed out, or the rest's error.
pub open spec fn then_answer(first: Option<u32>, rest: Result<Option<u32>, NetError>) -> Result<Option<u32>, NetError> {
    match rest {
        Ok(s) => Ok(if first is Some { first } else { s }),
        Err(e) => Err(e),
    }
}

/// What handling the packets `items` in order does: each is handled as by
/// `handled`; the first error stops the batch (what earlier packets did
/// stays) and is the answer; otherwise the answer carries the first seed
/// handed out.
pub open spec fn batch_handled<const W: usize, const H: usize>(
    d: NetGameDriver<W, H>,
    items: Seq<(PacketHeader, NetPacket)>,
    d2: NetGameDriver<W, H>,
    r: Result<Option<u32>, NetError>,
) -> bool
    decreases items,
{
    if items.len() == 0 {
        d2 == d && r == Ok::<Option<u32>, NetError>(None)
    } else {
        exists|d1: NetGameDriver<W, H>, r1: Result<Option<u32>, NetError>| {
            &&& #[trigger] step_result(d1, r1) == (d1, r1)
            &&& handled(d, items[0].0, items[0].1, d1, r1)
            &&& r1 is Err ==> d2 == d1 && r == r1
            &&& r1 is Ok ==> exists|r2: Result<Option<u32>, NetError>|
                batch_handled(d1, items.drop_first(), d2, r2) && r == #[trigger] then_answer(seed_of(r1), r2)
        }
    }
}

/// One packet's step of a batch: its handling, then the rest's.
proof fn lemma_batch_step<const W: usize, const H: usize>(
    d: NetGameDriver<W, H>,
    items: Seq<(PacketHeader, NetPacket)>,
    d1: NetGameDriver<W, H>,
    r1: Result<Option<u32>, NetError>,
    d2: NetGameDriver<W, H>,
    r2: Result<Option<u32>, NetError>,
)
    requires
        items.len() > 0,
        handled(d, items[0].0, items[0].1, d1, r1),
        r1 is Err ==> d2 == d1,
        r1 is Ok ==> batch_handled(d1, items.drop_first(), d2, r2),
    ensures
        batch_handled(d, items, d2, if r1 is Err { r1 } else { then_answer(seed_of(r1), r2) }),
{
    assert(step_result(d1, r1) == (d1, r1));
    assert(r1 is Ok ==> then_answer(seed_of(r1), r2) == then_answer(seed_of(r1), r2));
}

/// A batch of one packet acts and answers as that packet alone.
pub proof fn lemma_single_batch<const W: usize, const H: usize>(
    d: NetGameDriver<W, H>,
    header: PacketHeader,
    inner_header: PacketHeader,
    inner: NetPacket,
    items: Vec<(PacketHeader, NetPacket)>,
    d2: NetGameDriver<W, H>,
    r: Result<Option<u32>, NetError>,
)
    requires
        header.version == PROTOCOL_VERSION,
        items@ == seq![(inner_header, inner)],
    ensures
        handled(d, header, NetPacket::Batch(items), d2, r) <==> handled(d, inner_header, inner, d2, r),
{
    let all = items@;
    assert(all.drop_first() =~= Seq::<(PacketHeader, NetPacket)>::empty());
    if handled(d, header, NetPacket::Batch(items), d2, r) {
        assert(batch_handled(d, all, d2, r));
        let (d1, r1) = choose|d1: NetGameDriver<W, H>, r1: Result<Option<u32>, NetError>| {
            &&& #[trigger] step_result(d1, r1) == (d1, r1)
            &&& handled(d, all[0].0, all[0].1, d1, r1)
            &&& r1 is Err ==> d2 == d1 && r == r1
            &&& r1 is Ok ==> exists|r2: Result<Option<u32>, NetError>|
                batch_handled(d1, all.drop_first(), d2, r2) && r == #[trigger] then_answer(seed_of(r1), r2)
        };
        if r1 is Ok {
            let r2 = choose|r2: Result<Option<u32>, NetError>|
                batch_handled(d1, all.drop_first(), d2, r2) && r == #[trigger] then_answer(seed_of(r1), r2);
            assert(batch_handled(d1, all.drop_first(), d2, r2));
            assert(d2 == d1 && r2 == Ok::<Option<u32>, NetError>(None));
        }
    }
    if handled(d, inner_header, inner, d2, r) {
        assert(batch_handled(d2, all.drop_first(), d2, Ok::<Option<u32>, NetError>(None)));
        lemma_batch_step(d, all, d2, r, d2, Ok::<Option<u32>, NetError>(None));
    }
}

/// Whether handling `packet` keeps every engine's counters within their
/// types: an action must fit the sender's engine (see `action_fits`), and
/// a batch must fit at each packet in turn; nothing else locks a piece.
pub open spec fn packet_room<const W: usize, const H: usize>(d: NetGameDriver<W, H>, header: PacketHeader, packet: NetPacket) -> bool
    decreases packet,
{
    header.version != PROTOCOL_VERSION || match packet {
        NetPacket::Batch(items) => batch_room(d, items@),
        NetPacket::PlayerAction { action } => match key_of(d.key_by_player_id@, header.player_id) {
            Some(key) => (key.0 as int) < d.engines@.len() && d.engines@[key.0 as int] is Some
                ==> action_fits(d.engines@[key.0 as int]->0@, action),
            None => true,
        },
        _ => true,
    }
}

/// Whether the engines have room for every lock that handling the packets
/// `items` in order may make; see `packet_room`.
pub open spec fn batch_room<const W: usize, const H: usize>(d: NetGameDriver<W, H>, items: Seq<(PacketHeader, NetPacket)>) -> bool
    decreases items,
{
    items.len() == 0 || (packet_room(d, items[0].0, items[0].1) && forall|d1: NetGameDriver<W, H>, r1: Result<Option<u32>, NetError>|
        #[trigger] handled(d, items[0].0, items[0].1, d1, r1) && r1 is Ok ==> batch_room(d1, items.drop_first()))
}

impl<const W: usize, const H: usize> NetGameDriver<W, H> {
    /// The driver's invariant: one board cache per engine slot, a cache of
    /// `H` rows for every live engine, engines that keep their invariant,
    /// and keys within the engine list.
    pub open spec fn wf(self) -> bool {
        &&& self.prev_board_rows@.len() == self.engines@.len()
        &&& forall|i: int| #![trigger self.engines@[i]]
            0 <= i < self.engines@.len() ==> (self.engines@[i] matches Some(e) ==> e@.wf())
        &&& forall|i: int| #![trigger self.prev_board_rows@[i]]
            0 <= i < self.prev_board_rows@.len() ==> (self.prev_board_rows@[i] matches Some(r) ==> r@.len() == H)
    }


    /// Opens a room with `settings`, hosted by player 0 named `host_name`:
    /// the lobby holds only the host (ready: no, alive: yes).
    pub fn create_room(&mut self, settings: RoomSettings, host_name: &str, host_uuid: &str)
        ensures
            final(self).room_settings == settings,
            final(self).room_mode == RoomMode::Lobby,
            final(self).host_player_id == 0,
            final(self).player_infos@.len() == 1,
            final(self).player_infos@[0].player_id == 0,
            final(self).player_infos@[0].name@ == host_name@,
            final(self).player_infos@[0].uuid@ == host_uuid@,
            !final(self).player_infos@[0].ready,
            final(self).player_infos@[0].alive,
            !final(self).player_infos@[0].away,
            final(self).player_infos@[0].spectating_target is None,
            final(self).engines == old(self).engines,
            final(self).key_by_player_id == old(self).key_by_player_id,
            final(self).prev_board_rows == old(self).prev_board_rows,
            *final(self) == (NetGameDriver { room_settings: final(self).room_settings, room_mode: final(self).room_mode, host_player_id: final(self).host_player_id, player_infos: final(self).player_infos, ..*old(self) }),
    {
        self.room_settings = settings;
        self.room_mode = RoomMode::Lobby;
        self.host_player_id = 0;
        self.player_infos = Vec::new();
        self.player_infos.push(
            PlayerInfo {
                player_id: 0,
                name: host_name.to_owned(),
                uuid: host_uuid.to_owned(),
                ready: false,
                alive: true,
                away: false,
                spectating_target: None,
            },
        );
    }

    /// Adds player `player_id` to the lobby (not ready, alive); a full room
    /// (as many players as `max_players`) refuses with a protocol error.
    pub fn join_room(&mut self, player_id: u8, name: &str, uuid: &str) -> (r: Result<(), NetError>)
        ensures
            old(self).player_infos@.len() >= old(self).room_settings.max_players <==> r is Err,
            r is Err ==> final(self).player_infos@ == old(self).player_infos@,
            r is Ok ==> final(self).player_infos@.len() == old(self).player_infos@.len() + 1
                && final(self).player_infos@.take(old(self).player_infos@.len() as int) == old(self).player_infos@
                && ({
                    let p = final(self).player_infos@.last();
                    &&& p.player_id == player_id
                    &&& p.name@ == name@
                    &&& p.uuid@ == uuid@
                    &&& !p.ready && p.alive && !p.away && p.spectating_target is None
                }),
            final(self).room_mode == old(self).room_mode,
            final(self).engines == old(self).engines,
            final(self).key_by_player_id == old(self).key_by_player_id,
            final(self).prev_board_rows == old(self).prev_board_rows,
            *final(self) == (NetGameDriver { player_infos: final(self).player_infos, ..*old(self) }),
    {
        if self.player_infos.len() >= self.room_settings.max_players as usize {
            return Err(NetError::Protocol("room full".to_owned()));
        }
        self.player_infos.push(
            PlayerInfo {
                player_id,
                name: name.to_owned(),
                uuid: uuid.to_owned(),
                ready: false,
                alive: true,
                away: false,
                spectating_target: None,
            },
        );
        proof {
            assert(self.player_infos@.take(old(self).player_infos@.len() as int) =~= old(self).player_infos@);
        }
        Ok(())
    }

    /// Whether the game may start: at least two players, all ready.
    pub fn all_ready(&self) -> (r: bool)
        ensures
            r == everyone_ready(self.player_infos@),
    {
        if self.player_infos.len() < 2 {
            return false;
        }
        let mut i: usize = 0;
        while i < self.player_infos.len()
            invariant
                i <= self.player_infos@.len(),
                forall|k: int| 0 <= k < i ==> #[trigger] self.player_infos@[k].ready,
            decreases self.player_infos@.len() - i,
        {
            if !self.player_infos[i].ready {
                return false;
            }
            i = i + 1;
        }
        true
    }

    /// Sets the ready flag of player `player_id`; in the lobby, once
    /// everyone is ready a three-second countdown starts.
    pub fn set_ready(&mut self, player_id: u8, ready: bool)
        ensures
            final(self).player_infos@ == with_info(old(self).player_infos@, player_id, |p: PlayerInfo| PlayerInfo { ready: ready, ..p }),
            final(self).room_mode == (if old(self).room_mode == RoomMode::Lobby && everyone_ready(final(self).player_infos@) {
                RoomMode::Countdown(3)
            } else {
                old(self).room_mode
            }),
            final(self).engines == old(self).engines,
            final(self).key_by_player_id == old(self).key_by_player_id,
            final(self).prev_board_rows == old(self).prev_board_rows,
            *final(self) == (NetGameDriver { player_infos: final(self).player_infos, room_mode: final(self).room_mode, ..*old(self) }),
    {
        self.update_info(player_id, 0, ready);
        if self.room_mode == RoomMode::Lobby && self.all_ready() {
            self.room_mode = RoomMode::Countdown(3);
        }
    }

    /// Changes one flag of the first player with id `player_id`: `ready`
    /// (field 0), `away` (field 1) or `alive` (field 2).
    fn update_info(&mut self, player_id: u8, field: u8, value: bool)
        requires
            field <= 2,
        ensures
            final(self).player_infos@ == with_info(old(self).player_infos@, player_id, |p: PlayerInfo|
                if field == 0 {
                    PlayerInfo { ready: value, ..p }
                } else if field == 1 {
                    PlayerInfo { away: value, ..p }
                } else {
                    PlayerInfo { alive: value, ..p }
                }),
            *final(self) == (NetGameDriver { player_infos: final(self).player_infos, ..*old(self) }),
    {
        if let Some(k) = find_info(&self.player_infos, player_id) {
            let mut tmp = PlayerInfo {
                player_id: 0,
                name: String::new(),
                uuid: String::new(),
                ready: false,
                alive: false,
                away: false,
                spectating_target: None,
            };
            self.player_infos.set_and_swap(k, &mut tmp);
            if field == 0 {
                tmp.ready = value;
            } else if field == 1 {
                tmp.away = value;
            } else {
                tmp.alive = value;
            }
            self.player_infos.set_and_swap(k, &mut tmp);
            proof {
                assert(self.player_infos@ =~= with_info(old(self).player_infos@, player_id, |p: PlayerInfo|
                    if field == 0 {
                        PlayerInfo { ready: value, ..p }
                    } else if field == 1 {
                        PlayerInfo { away: value, ..p }
                    } else {
                        PlayerInfo { alive: value, ..p }
                    }));
            }
        }
    }

    /// Marks player `player_id` away or back.
    pub fn set_away(&mut self, player_id: u8, away: bool)
        ensures
            final(self).player_infos@ == with_info(old(self).player_infos@, player_id, |p: PlayerInfo| PlayerInfo { away: away, ..p }),
            final(self).room_mode == old(self).room_mode,
            *final(self) == (NetGameDriver { player_infos: final(self).player_infos, ..*old(self) }),
    {
        self.update_info(player_id, 1, away);
        proof {
            assert(with_info(old(self).player_infos@, player_id, |p: PlayerInfo| if 1u8 == 0 {
                PlayerInfo { ready: away, ..p }
            } else if 1u8 == 1 {
                PlayerInfo { away: away, ..p }
            } else {
                PlayerInfo { alive: away, ..p }
            }) =~= with_info(old(self).player_infos@, player_id, |p: PlayerInfo| PlayerInfo { away: away, ..p }));
        }
    }


    /// The engine key of player `player_id`; see `key_of`.
    pub fn player_key_from_id(&self, player_id: u8) -> (r: Option<PlayerKey>)
        ensures
            r == key_of(self.key_by_player_id@, player_id),
    {
        let mut i: usize = 0;
        while i < self.key_by_player_id.len()
            invariant
                i <= self.key_by_player_id@.len(),
                key_of(self.key_by_player_id@, player_id) == key_of_from(self.key_by_player_id@, player_id, i as int),
            decreases self.key_by_player_id@.len() - i,
        {
            let (id, key) = self.key_by_player_id[i];
            if id == player_id {
                return Some(key);
            }
            i = i + 1;
        }
        None
    }

    /// Adds a player's engine in a new slot and gives it the lowest free
    /// player id (see `free_id`) with an empty board cache; returns its key.
    pub fn add_player(&mut self, engine: Engine<W, H>) -> (key: PlayerKey)
        requires
            old(self).wf(),
            engine@.wf(),
            old(self).engines@.len() < usize::MAX,
        ensures
            final(self).wf(),
            key == PlayerKey(old(self).engines@.len() as usize),
            final(self).engines@ == old(self).engines@.push(Some(engine)),
            final(self).prev_board_rows@.len() == old(self).prev_board_rows@.len() + 1,
            final(self).prev_board_rows@.take(old(self).prev_board_rows@.len() as int) == old(self).prev_board_rows@,
            final(self).prev_board_rows@.last() matches Some(r) && zero_rows(r@, H as int),
            ({
                let pid = free_id(old(self).key_by_player_id@);
                match entry_of_from(old(self).key_by_player_id@, pid, 0) {
                    Some(k) => final(self).key_by_player_id@ == old(self).key_by_player_id@.update(k, (pid, key)),
                    None => final(self).key_by_player_id@ == old(self).key_by_player_id@.push((pid, key)),
                }
            }),
            final(self).player_infos == old(self).player_infos,
            final(self).room_mode == old(self).room_mode,
            *final(self) == (NetGameDriver { engines: final(self).engines, prev_board_rows: final(self).prev_board_rows, key_by_player_id: final(self).key_by_player_id, ..*old(self) }),
    {
        let key = PlayerKey(self.engines.len());
        self.engines.push(Some(engine));
        let pid = self.lowest_free_id();
        let mut i: usize = 0;
        let mut found: Option<usize> = None;
        while i < self.key_by_player_id.len()
            invariant_except_break
                found is None,
                entry_of_from(self.key_by_player_id@, pid, 0) == entry_of_from(self.key_by_player_id@, pid, i as int),
            invariant
                i <= self.key_by_player_id@.len(),
            ensures
                found matches Some(k) ==> entry_of_from(self.key_by_player_id@, pid, 0) == Some(k as int) && k < self.key_by_player_id@.len(),
                found is None ==> entry_of_from(self.key_by_player_id@, pid, 0) is None,
            decreases self.key_by_player_id@.len() - i,
        {
            if self.key_by_player_id[i].0 == pid {
                found = Some(i);
                break;
            }
            i = i + 1;
        }
        match found {
            Some(k) => self.key_by_player_id.set(k, (pid, key)),
            None => self.key_by_player_id.push((pid, key)),
        }
        let ghost before = self.prev_board_rows@;
        self.prev_board_rows.push(Some(zeros(H)));
        proof {
            assert(self.prev_board_rows@.take(before.len() as int) =~= before);
        }
        key
    }

    /// The lowest player id not mapped yet; see `free_id`.
    fn lowest_free_id(&self) -> (r: u8)
        ensures
            r == free_id(self.key_by_player_id@),
    {
        let mut id: u16 = 0;
        while id < 256
            invariant
                id <= 256,
                forall|j: int| 0 <= j < id ==> has_id(self.key_by_player_id@, j),
            decreases 256 - id,
        {
            if !contains_id(&self.key_by_player_id, id as u8) {
                proof {
                    let pairs = self.key_by_player_id@;
                    let c = choose|c: int| 0 <= c < 256 && !has_id(pairs, c) && forall|j: int| 0 <= j < c ==> has_id(pairs, j);
                    assert(0 <= id < 256 && !has_id(pairs, id as int) && forall|j: int| 0 <= j < id ==> has_id(pairs, j));
                    if c < id {
                        assert(has_id(pairs, c));
                    }
                    if c > id {
                        assert(has_id(pairs, id as int));
                    }
                }
                return id as u8;
            }
            id = id + 1;
        }
        #[verifier::truncate]
        (self.key_by_player_id.len() as u8)
    }

    /// Drops a player's engine and board cache, unmaps its ids and
    /// removes the players left without an engine.
    pub fn remove_player(&mut self, key: PlayerKey)
        requires
            old(self).wf(),
        ensures
            final(self).wf(),
            final(self).engines@ == (if key.0 < old(self).engines@.len() {
                old(self).engines@.update(key.0 as int, None)
            } else {
                old(self).engines@
            }),
            final(self).prev_board_rows@ == (if key.0 < old(self).prev_board_rows@.len() {
                old(self).prev_board_rows@.update(key.0 as int, None)
            } else {
                old(self).prev_board_rows@
            }),
            final(self).key_by_player_id@ == pairs_without(old(self).key_by_player_id@, key),
            final(self).player_infos@ == infos_where(
                old(self).player_infos@,
                |p: PlayerInfo| has_id(final(self).key_by_player_id@, p.player_id as int),
            ),
            final(self).room_mode == old(self).room_mode,
            *final(self) == (NetGameDriver { engines: final(self).engines, prev_board_rows: final(self).prev_board_rows, key_by_player_id: final(self).key_by_player_id, player_infos: final(self).player_infos, ..*old(self) }),
    {
        if key.0 < self.engines.len() {
            self.engines.set(key.0, None);
        }
        if key.0 < self.prev_board_rows.len() {
            self.prev_board_rows.set(key.0, None);
        }
        let mut rest: Vec<(u8, PlayerKey)> = Vec::new();
        std::mem::swap(&mut rest, &mut self.key_by_player_id);
        let ghost orig = rest@;
        let n = rest.len();
        let mut kept: Vec<(u8, PlayerKey)> = Vec::new();
        let mut i: usize = 0;
        while rest.len() > 0
            invariant
                i + rest@.len() == orig.len(),
                orig.len() == n,
                rest@ == orig.skip(i as int),
                kept@ == pairs_without(orig.take(i as int), key),
            decreases rest@.len(),
        {
            let e = rest.remove(0);
            assert(orig.take(i + 1).drop_last() =~= orig.take(i as int));
            if e.1 != key {
                kept.push(e);
            }
            assert(rest@ =~= orig.skip(i + 1));
            i = i + 1;
        }
        assert(orig.take(i as int) =~= orig);
        self.key_by_player_id = kept;
        let mut infos: Vec<PlayerInfo> = Vec::new();
        std::mem::swap(&mut infos, &mut self.player_infos);
        self.player_infos = retain_infos(infos, &self.key_by_player_id, 0, 0);
        proof {
            assert(keep_rule(0, self.key_by_player_id@, 0) =~= (|p: PlayerInfo| has_id(self.key_by_player_id@, p.player_id as int)));
        }
    }

    /// Runs `delta_ms` of gravity on every engine, in slot order.
    pub fn tick_all(&mut self, delta_ms: u32)
        requires
            old(self).wf(),
            engine_dims(W, H),
            forall|i: int| #![trigger old(self).engines@[i]]
                0 <= i < old(self).engines@.len() ==> (old(self).engines@[i] matches Some(e) ==> {
                    &&& e@.gravity_accumulator + delta_ms <= u32::MAX
                    &&& room_for(e@, (e@.gravity_accumulator + delta_ms) / (gravity_ms(e@.scorer.level) as int))
                }),
        ensures
            final(self).wf(),
            final(self).engines@.len() == old(self).engines@.len(),
            forall|i: int| #![trigger final(self).engines@[i]]
                0 <= i < final(self).engines@.len() ==> match old(self).engines@[i] {
                    None => final(self).engines@[i] is None,
                    Some(e) => final(self).engines@[i] matches Some(e2) && (e@.game_over ==> e2@ == e@) && (
                    !e@.game_over ==> exists|fired: Seq<bool>| #[trigger] ticked_on_clock(e@, delta_ms, fired).0 == e2@),
                },
            final(self).key_by_player_id == old(self).key_by_player_id,
            final(self).prev_board_rows == old(self).prev_board_rows,
            final(self).player_infos == old(self).player_infos,
            *final(self) == (NetGameDriver { engines: final(self).engines, ..*old(self) }),
    {
        let ghost old_engines = self.engines@;
        let mut i: usize = 0;
        while i < self.engines.len()
            invariant
                *self == (NetGameDriver { engines: self.engines, ..*old(self) }),
                engine_dims(W, H),
                self.wf(),
                i <= self.engines@.len(),
                self.engines@.len() == old_engines.len(),
                self.key_by_player_id == old(self).key_by_player_id,
                self.prev_board_rows == old(self).prev_board_rows,
                self.player_infos == old(self).player_infos,
                forall|j: int| #![trigger old_engines[j]]
                    i <= j < old_engines.len() ==> self.engines@[j] == old_engines[j],
                forall|j: int| #![trigger old_engines[j]]
                    0 <= j < old_engines.len() ==> (old_engines[j] matches Some(e) ==> {
                        &&& e@.gravity_accumulator + delta_ms <= u32::MAX
                        &&& room_for(e@, (e@.gravity_accumulator + delta_ms) / (gravity_ms(e@.scorer.level) as int))
                    }),
                forall|j: int| #![trigger self.engines@[j]]
                    0 <= j < i ==> match old_engines[j] {
                        None => self.engines@[j] is None,
                        Some(e) => self.engines@[j] matches Some(e2) && (e@.game_over ==> e2@ == e@) && (
                        !e@.game_over ==> exists|fired: Seq<bool>| #[trigger] ticked_on_clock(e@, delta_ms, fired).0 == e2@),
                    },
            decreases self.engines@.len() - i,
        {
            if let Some(e) = self.engines[i] {
                let mut e = e;
                assert(old_engines[i as int] == Some(e));
                let ghost ev = e@;
                let r = e.tick(delta_ms);
                proof {
                    if !ev.game_over {
                        let fired = choose|f: Seq<bool>| (e@, r) == #[trigger] ticked_on_clock(ev, delta_ms, f);
                        assert(ticked_on_clock(ev, delta_ms, fired).0 == e@);
                    }
                }
                self.engines.set(i, Some(e));
            }
            i = i + 1;
        }
    }

    /// Arms the one-shot game start: the next game-start packet hands its
    /// seed out.
    pub fn set_on_game_start(&mut self)
        ensures
            final(self).game_start_armed,
            final(self).engines == old(self).engines,
            final(self).key_by_player_id == old(self).key_by_player_id,
            final(self).prev_board_rows == old(self).prev_board_rows,
            final(self).seq == old(self).seq,
            final(self).last_remote_seq == old(self).last_remote_seq,
            final(self).player_infos == old(self).player_infos,
            final(self).room_mode == old(self).room_mode,
            *final(self) == (NetGameDriver { game_start_armed: final(self).game_start_armed, ..*old(self) }),
    {
        self.game_start_armed = true;
    }

    /// Makes the first remaining player the host, if there is one.
    pub fn migrate_host(&mut self)
        ensures
            final(self).host_player_id == (if old(self).player_infos@.len() > 0 {
                old(self).player_infos@[0].player_id
            } else {
                old(self).host_player_id
            }),
            final(self).player_infos == old(self).player_infos,
            final(self).room_mode == old(self).room_mode,
            final(self).engines == old(self).engines,
            *final(self) == (NetGameDriver { host_player_id: final(self).host_player_id, ..*old(self) }),
    {
        if self.player_infos.len() > 0 {
            self.host_player_id = self.player_infos[0].player_id;
        }
    }

    /// Removes player `player_id` from the room; the host's leaving hands
    /// the room to the first remaining player.
    pub fn handle_player_leave(&mut self, player_id: u8)
        ensures
            final(self).player_infos@ == infos_where(old(self).player_infos@, |p: PlayerInfo| p.player_id != player_id),
            final(self).host_player_id == (if player_id == old(self).host_player_id && final(self).player_infos@.len() > 0 {
                final(self).player_infos@[0].player_id
            } else {
                old(self).host_player_id
            }),
            final(self).room_mode == old(self).room_mode,
            final(self).engines == old(self).engines,
            *final(self) == (NetGameDriver { player_infos: final(self).player_infos, host_player_id: final(self).host_player_id, ..*old(self) }),
    {
        let mut infos: Vec<PlayerInfo> = Vec::new();
        std::mem::swap(&mut infos, &mut self.player_infos);
        self.player_infos = retain_infos(infos, &self.key_by_player_id, 1, player_id);
        proof {
            assert(keep_rule(1, self.key_by_player_id@, player_id) =~= (|p: PlayerInfo| p.player_id != player_id));
        }
        if player_id == self.host_player_id {
            self.migrate_host();
        }
    }

    /// Whom an attack from `attacker_id` goes to: among the living players
    /// other than the attacker, the one at position `attacker_id` modulo
    /// their number; `None` when there is nobody.
    pub fn route_attack(&self, _damage: i32, attacker_id: u8) -> (r: Option<u8>)
        ensures
            ({
                let t = target_ids(self.player_infos@, attacker_id);
                r == (if t.len() == 0 {
                    None
                } else {
                    Some(t[(attacker_id as int) % (t.len() as int)])
                })
            }),
    {
        let mut targets: Vec<u8> = Vec::new();
        let mut i: usize = 0;
        while i < self.player_infos.len()
            invariant
                i <= self.player_infos@.len(),
                targets@ == target_ids(self.player_infos@.take(i as int), attacker_id),
            decreases self.player_infos@.len() - i,
        {
            let alive = self.player_infos[i].alive;
            let id = self.player_infos[i].player_id;
            assert(self.player_infos@.take(i + 1).drop_last() =~= self.player_infos@.take(i as int));
            if alive && id != attacker_id {
                targets.push(id);
            }
            i = i + 1;
        }
        assert(self.player_infos@.take(i as int) =~= self.player_infos@);
        if targets.len() == 0 {
            return None;
        }
        let idx = (attacker_id as usize) % targets.len();
        Some(targets[idx])
    }

    /// Marks player `player_id` dead; with at most one player left alive
    /// the game is over.
    pub fn mark_dead(&mut self, player_id: u8)
        ensures
            final(self).player_infos@ == with_info(old(self).player_infos@, player_id, |p: PlayerInfo| PlayerInfo { alive: false, ..p }),
            final(self).room_mode == (if alive_count(final(self).player_infos@) <= 1 {
                RoomMode::GameOver
            } else {
                old(self).room_mode
            }),
            final(self).engines == old(self).engines,
            *final(self) == (NetGameDriver { player_infos: final(self).player_infos, room_mode: final(self).room_mode, ..*old(self) }),
    {
        self.update_info(player_id, 2, false);
        proof {
            assert(with_info(old(self).player_infos@, player_id, |p: PlayerInfo| if 2u8 == 0 {
                PlayerInfo { ready: false, ..p }
            } else if 2u8 == 1 {
                PlayerInfo { away: false, ..p }
            } else {
                PlayerInfo { alive: false, ..p }
            }) =~= with_info(old(self).player_infos@, player_id, |p: PlayerInfo| PlayerInfo { alive: false, ..p }));
        }
        let mut alive: usize = 0;
        let mut i: usize = 0;
        while i < self.player_infos.len()
            invariant
                i <= self.player_infos@.len(),
                alive == alive_count(self.player_infos@.take(i as int)),
                alive <= i,
            decreases self.player_infos@.len() - i,
        {
            assert(self.player_infos@.take(i + 1).drop_last() =~= self.player_infos@.take(i as int));
            if self.player_infos[i].alive {
                alive = alive + 1;
            }
            i = i + 1;
        }
        assert(self.player_infos@.take(i as int) =~= self.player_infos@);
        if alive <= 1 {
            self.room_mode = RoomMode::GameOver;
        }
    }

    /// Back to the lobby: everyone alive and not ready.
    pub fn reset_to_lobby(&mut self)
        ensures
            final(self).room_mode == RoomMode::Lobby,
            final(self).player_infos@.len() == old(self).player_infos@.len(),
            forall|k: int| 0 <= k < old(self).player_infos@.len() ==> #[trigger] final(self).player_infos@[k]
                == (PlayerInfo { ready: false, alive: true, ..old(self).player_infos@[k] }),
            final(self).engines == old(self).engines,
            *final(self) == (NetGameDriver { room_mode: final(self).room_mode, player_infos: final(self).player_infos, ..*old(self) }),
    {
        self.room_mode = RoomMode::Lobby;
        self.refresh_players(false);
    }

    /// Sets every player alive and not ready (and, when `playing`, leaves
    /// the room mode alone).
    fn refresh_players(&mut self, playing: bool)
        ensures
            final(self).player_infos@.len() == old(self).player_infos@.len(),
            forall|k: int| 0 <= k < old(self).player_infos@.len() ==> #[trigger] final(self).player_infos@[k]
                == (PlayerInfo { ready: false, alive: true, ..old(self).player_infos@[k] }),
            final(self).room_mode == old(self).room_mode,
            final(self).engines == old(self).engines,
            final(self).room_settings == old(self).room_settings,
            final(self).key_by_player_id == old(self).key_by_player_id,
            final(self).prev_board_rows == old(self).prev_board_rows,
            *final(self) == (NetGameDriver { player_infos: final(self).player_infos, ..*old(self) }),
    {
        let ghost orig = self.player_infos@;
        let mut i: usize = 0;
        while i < self.player_infos.len()
            invariant
                *self == (NetGameDriver { player_infos: self.player_infos, ..*old(self) }),
                i <= self.player_infos@.len(),
                self.player_infos@.len() == orig.len(),
                forall|k: int| 0 <= k < i ==> #[trigger] self.player_infos@[k] == (PlayerInfo { ready: false, alive: true, ..orig[k] }),
                forall|k: int| i <= k < orig.len() ==> #[trigger] self.player_infos@[k] == orig[k],
                self.room_mode == old(self).room_mode,
                self.engines == old(self).engines,
                self.room_settings == old(self).room_settings,
                self.key_by_player_id == old(self).key_by_player_id,
                self.prev_board_rows == old(self).prev_board_rows,
            decreases self.player_infos@.len() - i,
        {
            let mut tmp = PlayerInfo {
                player_id: 0,
                name: String::new(),
                uuid: String::new(),
                ready: false,
                alive: false,
                away: false,
                spectating_target: None,
            };
            self.player_infos.set_and_swap(i, &mut tmp);
            tmp.ready = false;
            tmp.alive = true;
            self.player_infos.set_and_swap(i, &mut tmp);
            i = i + 1;
        }
    }

    /// Starts the game from the wall clock: the seed is `start_seed` of the
    /// seconds since the Unix epoch (none for a clock before 1970); see
    /// `start_game_seeded`.
    pub fn start_game(&mut self)
        requires
            old(self).wf(),
            engine_dims(W, H),
        ensures
            final(self).wf(),
            final(self).room_mode == RoomMode::Playing,
            final(self).engines@.len() == old(self).engines@.len(),
            exists|seed: u32| #[trigger] all_restarted(
                old(self).engines@,
                final(self).engines@,
                seed,
                old(self).room_settings.start_level as u32,
            ),
            final(self).player_infos@.len() == old(self).player_infos@.len(),
            forall|k: int| 0 <= k < old(self).player_infos@.len() ==> #[trigger] final(self).player_infos@[k]
                == (PlayerInfo { ready: false, alive: true, ..old(self).player_infos@[k] }),
            final(self).key_by_player_id == old(self).key_by_player_id,
            *final(self) == (NetGameDriver { room_mode: final(self).room_mode, engines: final(self).engines, player_infos: final(self).player_infos, ..*old(self) }),
    {
        let secs: Option<u64> = match since_unix_epoch(system_now()) {
            Ok(d) => Some(duration_as_secs(d)),
            Err(_) => None,
        };
        let seed = start_seed(secs);
        self.start_game_seeded(seed);
    }

    /// Starts the game with `seed`: every engine restarts from it at the
    /// room's start level, and every player is alive and not ready.
    pub fn start_game_seeded(&mut self, seed: u32)
        requires
            old(self).wf(),
            engine_dims(W, H),
        ensures
            final(self).wf(),
            final(self).room_mode == RoomMode::Playing,
            final(self).engines@.len() == old(self).engines@.len(),
            all_restarted(
                old(self).engines@,
                final(self).engines@,
                seed,
                old(self).room_settings.start_level as u32,
            ),
            final(self).player_infos@.len() == old(self).player_infos@.len(),
            forall|k: int| 0 <= k < old(self).player_infos@.len() ==> #[trigger] final(self).player_infos@[k]
                == (PlayerInfo { ready: false, alive: true, ..old(self).player_infos@[k] }),
            final(self).key_by_player_id == old(self).key_by_player_id,
            *final(self) == (NetGameDriver { room_mode: final(self).room_mode, engines: final(self).engines, player_infos: final(self).player_infos, ..*old(self) }),
    {
        self.room_mode = RoomMode::Playing;
        let level = self.room_settings.start_level as u32;
        let ghost old_engines = self.engines@;
        let mut i: usize = 0;
        while i < self.engines.len()
            invariant
                *self == (NetGameDriver { engines: self.engines, room_mode: RoomMode::Playing, ..*old(self) }),
                engine_dims(W, H),
                self.wf(),
                i <= self.engines@.len(),
                self.engines@.len() == old_engines.len(),
                self.room_mode == RoomMode::Playing,
                self.key_by_player_id == old(self).key_by_player_id,
                self.player_infos == old(self).player_infos,
                self.room_settings == old(self).room_settings,
                level == old(self).room_settings.start_level as u32,
                forall|j: int| #![trigger old_engines[j]]
                    i <= j < old_engines.len() ==> self.engines@[j] == old_engines[j],
                forall|j: int| #![trigger self.engines@[j]]
                    0 <= j < i ==> match old_engines[j] {
                        None => self.engines@[j] is None,
                        Some(e) => self.engines@[j] matches Some(e2) && e2@ == restarted(e@, seed, level),
                    },
            decreases self.engines@.len() - i,
        {
            if let Some(e) = self.engines[i] {
                let mut e = e;
                assert(old_engines[i as int] == Some(e));
                e.reset_with_level(seed, level);
                self.engines.set(i, Some(e));
            }
            i = i + 1;
        }
        self.refresh_players(true);
        assert(all_restarted(old_engines, self.engines@, seed, level));
    }

    /// Counts the countdown down: at zero the game starts and `Some(0)`
    /// comes back; otherwise the remaining seconds drop by one and are
    /// returned; outside a countdown nothing happens.
    pub fn tick_countdown(&mut self) -> (r: Option<u8>)
        requires
            old(self).wf(),
            engine_dims(W, H),
        ensures
            final(self).wf(),
            match old(self).room_mode {
                RoomMode::Countdown(n) => if n == 0 {
                    r == Some(0u8) && final(self).room_mode == RoomMode::Playing
                } else {
                    r == Some((n - 1) as u8) && final(self).room_mode == RoomMode::Countdown((n - 1) as u8)
                        && final(self).engines == old(self).engines && final(self).player_infos == old(self).player_infos
                },
                _ => r is None && final(self).room_mode == old(self).room_mode && final(self).engines == old(self).engines
                    && final(self).player_infos == old(self).player_infos,
            },
            *final(self) == (NetGameDriver { room_mode: final(self).room_mode, engines: final(self).engines, player_infos: final(self).player_infos, ..*old(self) }),
    {
        if let RoomMode::Countdown(remaining) = self.room_mode {
            if remaining == 0 {
                self.start_game();
                return Some(0);
            }
            self.room_mode = RoomMode::Countdown(remaining - 1);
            return Some(remaining - 1);
        }
        None
    }

    /// Queues an encoded packet for the next batch.
    pub fn queue_packet(&mut self, data: Vec<u8>)
        ensures
            final(self).pending_packets@ == old(self).pending_packets@.push(data),
            final(self).engines == old(self).engines,
            *final(self) == (NetGameDriver { pending_packets: final(self).pending_packets, ..*old(self) }),
    {
        self.pending_packets.push(data);
    }


    /// The queued packets as one batch, leaving the queue empty; nothing
    /// while the queue is empty.
    pub fn take_batch(&mut self) -> (r: Option<PktBatch>)
        ensures
            old(self).pending_packets@.len() == 0 ==> r is None && *final(self) == *old(self),
            old(self).pending_packets@.len() > 0 ==> ({
                &&& r matches Some(b)
                &&& b.packets@ == old(self).pending_packets@
                &&& final(self).pending_packets@.len() == 0
            }),
            final(self).engines == old(self).engines,
            final(self).prev_board_rows == old(self).prev_board_rows,
            final(self).key_by_player_id == old(self).key_by_player_id,
            final(self).player_infos == old(self).player_infos,
            final(self).seq == old(self).seq,
            *final(self) == (NetGameDriver { pending_packets: final(self).pending_packets, ..*old(self) }),
    {
        if self.pending_packets.len() == 0 {
            return None;
        }
        let mut packets: Vec<Vec<u8>> = Vec::new();
        std::mem::swap(&mut packets, &mut self.pending_packets);
        Some(PktBatch { packets })
    }

    /// The full state of player `player_key`'s game as a sync packet from
    /// `local_player_id`: its rows, piece, position, hold, the first three
    /// preview pieces, pending garbage and random state. An unknown key is
    /// a protocol error.
    pub fn state_sync_packet(&self, player_key: PlayerKey, local_player_id: u8) -> (r: Result<PktStateSync, NetError>)
        ensures
            ({
                let k = player_key.0 as int;
                if 0 <= k < self.engines@.len() && self.engines@[k] is Some {
                    let st = self.engines@[k]->0@.state;
                    &&& r matches Ok(pkt)
                    &&& pkt.header == (PacketHeader { version: PROTOCOL_VERSION, packet_type: PacketType::StateSync, player_id: local_player_id })
                    &&& pkt.board_rows@ == st.board.rows@
                    &&& pkt.piece == st.piece && pkt.rot == st.rot && pkt.x == st.x && pkt.y == st.y
                    &&& pkt.hold == st.hold && pkt.hold_used == st.hold_used
                    &&& pkt.next == [st.next[0], st.next[1], st.next[2]]
                    &&& pkt.pending_garbage == st.pending_garbage && pkt.rng_state == st.rng
                } else {
                    r matches Err(NetError::Protocol(m)) && m@ == "invalid player key"@
                }
            }),
    {
        if player_key.0 >= self.engines.len() {
            return Err(NetError::Protocol("invalid player key".to_owned()));
        }
        let engine = match self.engines[player_key.0] {
            Some(e) => e,
            None => return Err(NetError::Protocol("invalid player key".to_owned())),
        };
        let st = engine.current_state();
        Ok(
            PktStateSync {
                header: PacketHeader { version: PROTOCOL_VERSION, packet_type: PacketType::StateSync, player_id: local_player_id },
                board_rows: rows_vec(&st.board),
                piece: st.piece,
                rot: st.rot,
                x: st.x,
                y: st.y,
                hold: st.hold,
                hold_used: st.hold_used,
                next: [st.next[0], st.next[1], st.next[2]],
                pending_garbage: st.pending_garbage,
                rng_state: st.rng,
            },
        )
    }

    /// Encodes the rows of player `player_key`'s board that changed since
    /// the last delta, with its active piece, as the next delta packet
    /// from `local_player_id`; remembers the board and advances the
    /// sequence number. `None` (and no change) for a removed player.
    pub fn delta_encode(&mut self, player_key: PlayerKey, local_player_id: u8) -> (r: Option<PktDeltaSync>)
        requires
            old(self).wf(),
            engine_dims(W, H),
            old(self).seq < u32::MAX,
        ensures
            final(self).wf(),
            final(self).engines == old(self).engines,
            final(self).key_by_player_id == old(self).key_by_player_id,
            final(self).player_infos == old(self).player_infos,
            ({
                let k = player_key.0 as int;
                if 0 <= k < old(self).engines@.len() && old(self).engines@[k] is Some
                    && old(self).prev_board_rows@[k] is Some {
                    let st = old(self).engines@[k]->0@.state;
                    let prev = old(self).prev_board_rows@[k]->0;
                    &&& r matches Some(pkt) && pkt.header == (PacketHeader {
                        version: PROTOCOL_VERSION,
                        packet_type: PacketType::DeltaSync,
                        player_id: local_player_id,
                    }) && pkt.seq == old(self).seq && pkt.changed_rows@ == changed_rows(st.board.rows@, prev@, H as int)
                        && pkt.piece == st.piece && pkt.rot == st.rot && pkt.x == st.x && pkt.y == st.y
                        && pkt.hold == st.hold && pkt.hold_used == st.hold_used && pkt.next == [
                        st.next[0],
                        st.next[1],
                        st.next[2],
                    ]
                    &&& final(self).prev_board_rows@.len() == old(self).prev_board_rows@.len()
                    &&& final(self).prev_board_rows@[k] matches Some(c) && c@ == st.board.rows@
                    &&& forall|j: int| 0 <= j < old(self).prev_board_rows@.len() && j != k ==>
                        #[trigger] final(self).prev_board_rows@[j] == old(self).prev_board_rows@[j]
                    &&& final(self).seq == old(self).seq + 1
                } else {
                    &&& r is None
                    &&& final(self).prev_board_rows == old(self).prev_board_rows
                    &&& final(self).seq == old(self).seq
                }
            }),
            *final(self) == (NetGameDriver { prev_board_rows: final(self).prev_board_rows, seq: final(self).seq, ..*old(self) }),
    {
        if player_key.0 >= self.engines.len() {
            return None;
        }
        let engine = match self.engines[player_key.0] {
            Some(e) => e,
            None => return None,
        };
        let changed = match &self.prev_board_rows[player_key.0] {
            Some(prev) => diff_rows(&engine.current_state().board, prev),
            None => return None,
        };
        let st = engine.current_state();
        let pkt = PktDeltaSync {
            header: PacketHeader {
                version: PROTOCOL_VERSION,
                packet_type: PacketType::DeltaSync,
                player_id: local_player_id,
            },
            seq: self.seq,
            changed_rows: changed,
            piece: st.piece,
            rot: st.rot,
            x: st.x,
            y: st.y,
            hold: st.hold,
            hold_used: st.hold_used,
            next: [st.next[0], st.next[1], st.next[2]],
        };
        self.prev_board_rows.set(player_key.0, Some(rows_vec(&st.board)));
        self.seq = self.seq + 1;
        Some(pkt)
    }

    /// Whether every engine has room for one more lock (see `room_for`).
    pub fn engines_can_lock(&self) -> (r: bool)
        ensures
            r == engines_room(self.engines@),
    {
        let mut i: usize = 0;
        while i < self.engines.len()
            invariant
                i <= self.engines@.len(),
                forall|j: int| #![trigger self.engines@[j]]
                    0 <= j < i ==> (self.engines@[j] matches Some(e) ==> room_for(e@, 1)),
            decreases self.engines@.len() - i,
        {
            if let Some(e) = self.engines[i] {
                if !e.can_lock() {
                    return false;
                }
            }
            i = i + 1;
        }
        true
    }

    /// Acts on one decoded packet from player `header.player_id`; a game
    /// start hands out its seed once armed (see `set_on_game_start`), and a
    /// batch acts on its packets in order, stopping at the first error. See
    /// `handled` for what each packet does. A batch that fails after its
    /// game start has disarmed answers with the error alone.
    #[verifier::rlimit(100)]
    pub fn handle_packet(&mut self, header: PacketHeader, packet: NetPacket) -> (r: Result<Option<u32>, NetError>)
        requires
            old(self).wf(),
            engine_dims(W, H),
            packet_room(*old(self), header, packet),
        ensures
            final(self).wf(),
            handled(*old(self), header, packet, *final(self), r),
        decreases packet,
    {
        if header.version != PROTOCOL_VERSION {
            return Err(NetError::Protocol(version_mismatch_text(header.version, PROTOCOL_VERSION)));
        }
        match packet {
            NetPacket::GameStart { random_seed } => {
                if self.game_start_armed {
                    self.game_start_armed = false;
                    return Ok(Some(random_seed));
                }
                Ok(None)
            },
            NetPacket::PlayerAction { action } => {
                self.on_action(header, action)
            },
            NetPacket::PlayerAttack { lines, hole_x } => {
                self.on_attack(header, lines, hole_x)
            },
            NetPacket::StateSync(pkt) => {
                self.on_state_sync(header, pkt)
            },
            NetPacket::DeltaSync(pkt) => {
                self.on_delta_sync(header, pkt)
            },
            NetPacket::ResyncRequest => Ok(None),
            NetPacket::PlayerStatus { target_player_id, alive, spectating_target } => {
                if let Some(k) = find_info(&self.player_infos, target_player_id) {
                    let mut tmp = PlayerInfo {
                        player_id: 0,
                        name: String::new(),
                        uuid: String::new(),
                        ready: false,
                        alive: false,
                        away: false,
                        spectating_target: None,
                    };
                    self.player_infos.set_and_swap(k, &mut tmp);
                    tmp.alive = alive;
                    tmp.spectating_target = spectating_target;
                    self.player_infos.set_and_swap(k, &mut tmp);
                    proof {
                        assert(self.player_infos@ =~= with_info(
                            old(self).player_infos@,
                            target_player_id,
                            |p: PlayerInfo| PlayerInfo { alive: alive, spectating_target: spectating_target, ..p },
                        ));
                    }
                }
                Ok(None)
            },
            NetPacket::GameOver { winner_player_id } => {
                self.room_mode = RoomMode::GameOver;
                self.bury_losers(winner_player_id);
                Ok(None)
            },
            NetPacket::Reconnect => {
                if let Some(key) = self.player_key_from_id(header.player_id) {
                    if key.0 < self.prev_board_rows.len() {
                        self.prev_board_rows.set(key.0, Some(zeros(H)));
                    }
                }
                Ok(None)
            },
            NetPacket::PlayerAway => {
                self.update_info(header.player_id, 1, true);
                Ok(None)
            },
            NetPacket::Batch(items) => self.handle_batch(items),
            NetPacket::Undecodable(m) => Err(NetError::Decode(m)),
            NetPacket::Ignored => Ok(None),
        }
    }

    /// Acts on one decoded packet of this kind; see `handled`.
    fn on_action(&mut self, header: PacketHeader, action: Action) -> (r: Result<Option<u32>, NetError>)
        requires
            old(self).wf(),
            engine_dims(W, H),
            header.version == PROTOCOL_VERSION,
            packet_room(*old(self), header, NetPacket::PlayerAction { action }),
        ensures
            final(self).wf(),
            handled(*old(self), header, NetPacket::PlayerAction { action }, *final(self), r),
    {
        if let Some(key) = self.player_key_from_id(header.player_id) {
            if key.0 < self.engines.len() {
                if let Some(e) = self.engines[key.0] {
                    let mut e = e;
                    assert(self.engines@[key.0 as int] == Some(e));
                    e.handle_action(action);
                    self.engines.set(key.0, Some(e));
                }
            }
        }
        Ok(None)
    }

    /// Acts on one decoded packet of this kind; see `handled`.
    fn on_attack(&mut self, header: PacketHeader, lines: u8, hole_x: u8) -> (r: Result<Option<u32>, NetError>)
        requires
            old(self).wf(),
            engine_dims(W, H),
            header.version == PROTOCOL_VERSION,
            packet_room(*old(self), header, NetPacket::PlayerAttack { lines, hole_x }),
        ensures
            final(self).wf(),
            handled(*old(self), header, NetPacket::PlayerAttack { lines, hole_x }, *final(self), r),
    {
        if let Some(key) = self.player_key_from_id(header.player_id) {
            if key.0 < self.engines.len() {
                if let Some(e) = self.engines[key.0] {
                    let mut e = e;
                    assert(self.engines@[key.0 as int] == Some(e));
                    e.add_pending_garbage(lines);
                    self.engines.set(key.0, Some(e));
                }
            }
        }
        Ok(None)
    }

    /// Acts on one decoded packet of this kind; see `handled`.
    fn on_state_sync(&mut self, header: PacketHeader, pkt: PktStateSync) -> (r: Result<Option<u32>, NetError>)
        requires
            old(self).wf(),
            engine_dims(W, H),
            header.version == PROTOCOL_VERSION,
            packet_room(*old(self), header, NetPacket::StateSync(pkt)),
        ensures
            final(self).wf(),
            handled(*old(self), header, NetPacket::StateSync(pkt), *final(self), r),
    {
        if !(-3 <= pkt.x && (pkt.x as i64) < (W as i64) && -122 <= pkt.y && (pkt.y as i64) < (H as i64)) {
            return Err(NetError::Protocol("position out of range".to_owned()));
        }
        if let Some(key) = self.player_key_from_id(header.player_id) {
            if key.0 < self.engines.len() {
                if let Some(e) = self.engines[key.0] {
                    let mut e = e;
                    assert(self.engines@[key.0 as int] == Some(e));
                    let st = synced_state(e.current_state(), &pkt);
                    e.overwrite_state(st, false);
                    self.engines.set(key.0, Some(e));
                    if self.prev_board_rows[key.0].is_some() {
                        self.prev_board_rows.set(key.0, Some(rows_vec(&st.board)));
                    }
                }
            }
        }
        Ok(None)
    }

    /// Acts on one decoded packet of this kind; see `handled`.
    fn on_delta_sync(&mut self, header: PacketHeader, pkt: PktDeltaSync) -> (r: Result<Option<u32>, NetError>)
        requires
            old(self).wf(),
            engine_dims(W, H),
            header.version == PROTOCOL_VERSION,
            packet_room(*old(self), header, NetPacket::DeltaSync(pkt)),
        ensures
            final(self).wf(),
            handled(*old(self), header, NetPacket::DeltaSync(pkt), *final(self), r),
    {
        let expected: u64 = self.last_remote_seq as u64 + 1;
        if !(self.last_remote_seq == 0 && pkt.seq == 0) && pkt.seq as u64 != expected {
            return Err(NetError::Protocol(seq_gap_text(expected, pkt.seq)));
        }
        if !(-3 <= pkt.x && (pkt.x as i64) < (W as i64) && -122 <= pkt.y && (pkt.y as i64) < (H as i64)) {
            return Err(NetError::Protocol("position out of range".to_owned()));
        }
        if let Some(key) = self.player_key_from_id(header.player_id) {
            if key.0 < self.engines.len() {
                if let Some(e) = self.engines[key.0] {
                    let mut e = e;
                    assert(self.engines@[key.0 as int] == Some(e));
                    let over = e.is_over();
                    let st = delta_state(e.current_state(), &pkt);
                    e.overwrite_state(st, over);
                    self.engines.set(key.0, Some(e));
                    self.last_remote_seq = pkt.seq;
                }
            }
        }
        Ok(None)
    }

    /// Handles the packets `items` in order; see `batch_handled`.
    #[verifier::loop_isolation(false)]
    fn handle_batch(&mut self, items: Vec<(PacketHeader, NetPacket)>) -> (r: Result<Option<u32>, NetError>)
        requires
            old(self).wf(),
            engine_dims(W, H),
            batch_room(*old(self), items@),
        ensures
            final(self).wf(),
            batch_handled(*old(self), items@, *final(self), r),
        decreases items,
    {
        let ghost all = items;
        let mut rest = items;
        let mut seed: Option<u32> = None;
        let ghost mut i: int = 0;
        while rest.len() > 0
            invariant
                engine_dims(W, H),
                self.wf(),
                0 <= i <= all@.len(),
                rest@ == all@.skip(i),
                batch_room(*self, rest@),
                forall|d2: NetGameDriver<W, H>, r2: Result<Option<u32>, NetError>|
                    #[trigger] batch_handled(*self, rest@, d2, r2) ==> batch_handled(*old(self), all@, d2, then_answer(seed, r2)),
            decreases rest@.len(),
        {
            let ghost cur = *self;
            let ghost before = rest@;
            let (h, p) = rest.remove(0);
            assert(before[0] == (h, p));
            assert(decreases_to!(all => p)) by {
                assert(all@[i] == (h, p));
                assert(decreases_to!(all => all@));
                assert(decreases_to!(all@ => all@[i]));
                assert(decreases_to!(all@[i] => all@[i].1));
            }
            let r1 = self.handle_packet(h, p);
            assert(handled(cur, before[0].0, before[0].1, *self, r1));
            assert(rest@ =~= before.drop_first());
            match r1 {
                Err(e) => {
                    proof {
                        lemma_batch_step(cur, before, *self, r1, *self, r1);
                    }
                    return Err(e);
                },
                Ok(s1) => {
                    assert forall|d2: NetGameDriver<W, H>, r2: Result<Option<u32>, NetError>|
                        #[trigger] batch_handled(*self, rest@, d2, r2) implies batch_handled(
                            *old(self),
                            all@,
                            d2,
                            then_answer(if seed is Some { seed } else { s1 }, r2),
                        ) by {
                        lemma_batch_step(cur, before, *self, r1, d2, r2);
                        assert(then_answer(seed, then_answer(s1, r2)) == then_answer(if seed is Some { seed } else { s1 }, r2));
                    }
                    if seed.is_none() {
                        seed = s1;
                    }
                },
            }
            proof {
                i = i + 1;
                assert(rest@ =~= all@.skip(i));
            }
        }
        assert(batch_handled(*self, rest@, *self, Ok(None)));
        Ok(seed)
    }

    /// Marks every player other than `winner` dead.
    fn bury_losers(&mut self, winner: u8)
        ensures
            final(self).player_infos@.len() == old(self).player_infos@.len(),
            forall|k: int| 0 <= k < old(self).player_infos@.len() ==> #[trigger] final(self).player_infos@[k]
                == (if old(self).player_infos@[k].player_id != winner {
                    PlayerInfo { alive: false, ..old(self).player_infos@[k] }
                } else {
                    old(self).player_infos@[k]
                }),
            *final(self) == (NetGameDriver { player_infos: final(self).player_infos, ..*old(self) }),
    {
        let ghost orig = self.player_infos@;
        let mut i: usize = 0;
        while i < self.player_infos.len()
            invariant
                i <= self.player_infos@.len(),
                self.player_infos@.len() == orig.len(),
                forall|k: int| 0 <= k < i ==> #[trigger] self.player_infos@[k] == (if orig[k].player_id != winner {
                    PlayerInfo { alive: false, ..orig[k] }
                } else {
                    orig[k]
                }),
                forall|k: int| i <= k < orig.len() ==> #[trigger] self.player_infos@[k] == orig[k],
                *self == (NetGameDriver { player_infos: self.player_infos, ..*old(self) }),
            decreases self.player_infos@.len() - i,
        {
            if self.player_infos[i].player_id != winner {
                let mut tmp = PlayerInfo {
                    player_id: 0,
                    name: String::new(),
                    uuid: String::new(),
                    ready: false,
                    alive: false,
                    away: false,
                    spectating_target: None,
                };
                self.player_infos.set_and_swap(i, &mut tmp);
                tmp.alive = false;
                self.player_infos.set_and_swap(i, &mut tmp);
            }
            i = i + 1;
        }
    }

    /// A driver whose only engine is the local player's, as player 0, with
    /// an empty board cache and a default room.
    pub fn new(local_engine: Engine<W, H>) -> (d: Self)
        requires
            local_engine@.wf(),
        ensures
            d.wf(),
            d.engines@ == seq![Some(local_engine)],
            d.local_key == PlayerKey(0),
            d.key_by_player_id@ == seq![(0u8, PlayerKey(0))],
            d.prev_board_rows@.len() == 1,
            d.prev_board_rows@[0] matches Some(r) && zero_rows(r@, H as int),
            !d.game_start_armed,
            d.seq == 0,
            d.last_remote_seq == 0,
            d.pending_packets@.len() == 0,
            d.room_code is None,
            d.host_player_id == 0,
            d.player_infos@.len() == 0,
            d.room_mode == RoomMode::Lobby,
            d.room_settings == (RoomSettings {
                max_players: 4,
                start_level: 1,
                attack_mult_bits: 0x3f80_0000,
                garbage_delay_secs: 1,
                allow_hold: true,
            }),
    {
        let mut engines: Vec<Option<Engine<W, H>>> = Vec::new();
        engines.push(Some(local_engine));
        let mut key_by_player_id: Vec<(u8, PlayerKey)> = Vec::new();
        key_by_player_id.push((0, PlayerKey(0)));
        let mut prev_board_rows: Vec<Option<Vec<u64>>> = Vec::new();
        prev_board_rows.push(Some(zeros(H)));
        NetGameDriver {
            engines,
            local_key: PlayerKey(0),
            key_by_player_id,
            game_start_armed: false,
            prev_board_rows,
            seq: 0,
            last_remote_seq: 0,
            pending_packets: Vec::new(),
            room_code: None,
            host_player_id: 0,
            player_infos: Vec::new(),
            room_settings: RoomSettings::default(),
            room_mode: RoomMode::default(),
        }
    }
}



/// The seed a game starts from, given the whole seconds since the Unix
/// epoch (`None` for a clock set before 1970): those seconds cut to 32
/// bits, or 42.
pub fn start_seed(secs: Option<u64>) -> (r: u32)
    ensures
        r == (match secs {
            Some(s) => s as u32,
            None => 42u32,
        }),
{
    match secs {
        Some(s) => #[verifier::truncate] (s as u32),
        None => 42,
    }
}

/// Whole seconds in `d`, from `Duration::as_secs`.
#[verifier::external_body]
fn duration_as_secs(d: Duration) -> u64 {
    d.as_secs()
}

/// The index of the first player with id `id`; see `info_index`.
fn find_info(infos: &Vec<PlayerInfo>, id: u8) -> (r: Option<usize>)
    ensures
        r matches Some(k) ==> info_index(infos@, id) == Some(k as int) && k < infos@.len(),
        r is None ==> info_index(infos@, id) is None,
{
    let mut i: usize = 0;
    while i < infos.len()
        invariant
            i <= infos@.len(),
            info_index(infos@, id) == info_index_from(infos@, id, i as int),
        decreases infos@.len() - i,
    {
        if infos[i].player_id == id {
            return Some(i);
        }
        i = i + 1;
    }
    None
}

/// Which players a retain keeps: for rule 0 those whose id is mapped in
/// `ids`, for any other rule those whose id is not `id`.
pub open spec fn keep_rule(mode: u8, ids: Seq<(u8, PlayerKey)>, id: u8) -> spec_fn(PlayerInfo) -> bool {
    if mode == 0 {
        |p: PlayerInfo| has_id(ids, p.player_id as int)
    } else {
        |p: PlayerInfo| p.player_id != id
    }
}

/// The players kept by `keep_rule(mode, ids, id)`, in order, moved out of
/// `infos`.
fn retain_infos(infos: Vec<PlayerInfo>, ids: &Vec<(u8, PlayerKey)>, mode: u8, id: u8) -> (r: Vec<PlayerInfo>)
    ensures
        r@ == infos_where(infos@, keep_rule(mode, ids@, id)),
{
    let ghost orig = infos@;
    let ghost keep = keep_rule(mode, ids@, id);
    let n = infos.len();
    let mut rest = infos;
    let mut kept: Vec<PlayerInfo> = Vec::new();
    let mut i: usize = 0;
    while rest.len() > 0
        invariant
            i + rest@.len() == orig.len(),
            orig.len() == n,
            rest@ == orig.skip(i as int),
            keep == keep_rule(mode, ids@, id),
            kept@ == infos_where(orig.take(i as int), keep),
        decreases rest@.len(),
    {
        let info = rest.remove(0);
        let stay = if mode == 0 {
            contains_id(ids, info.player_id)
        } else {
            info.player_id != id
        };
        assert(stay == keep(info));
        assert(orig.take(i + 1).drop_last() =~= orig.take(i as int));
        assert(orig.take(i + 1).last() == info);
        if stay {
            kept.push(info);
        }
        assert(rest@ =~= orig.skip(i + 1));
        i = i + 1;
    }
    assert(orig.take(i as int) =~= orig);
    kept
}

/// Whether some entry maps player `id`.
fn contains_id(pairs: &Vec<(u8, PlayerKey)>, id: u8) -> (r: bool)
    ensures
        r == has_id(pairs@, id as int),
{
    let mut i: usize = 0;
    while i < pairs.len()
        invariant
            i <= pairs@.len(),
            forall|k: int| 0 <= k < i ==> pairs@[k].0 != id,
        decreases pairs@.len() - i,
    {
        if pairs[i].0 == id {
            return true;
        }
        i = i + 1;
    }
    false
}


/// The rows of a board, in a vector.
/// The packet announcing local player `local_player_id`'s action.
pub fn action_packet(local_player_id: u8, action: Action) -> (pkt: PktPlayerAction)
    ensures
        pkt == (PktPlayerAction {
            header: PacketHeader { version: PROTOCOL_VERSION, packet_type: PacketType::PlayerAction, player_id: local_player_id },
            action,
        }),
{
    PktPlayerAction {
        header: PacketHeader { version: PROTOCOL_VERSION, packet_type: PacketType::PlayerAction, player_id: local_player_id },
        action,
    }
}

/// The packet sending `lines` garbage lines with their hole in column
/// `hole_x` from local player `local_player_id`.
pub fn attack_packet(local_player_id: u8, lines: u8, hole_x: u8) -> (pkt: PktPlayerAttack)
    ensures
        pkt == (PktPlayerAttack {
            header: PacketHeader { version: PROTOCOL_VERSION, packet_type: PacketType::PlayerAttack, player_id: local_player_id },
            lines,
            hole_x,
        }),
{
    PktPlayerAttack {
        header: PacketHeader { version: PROTOCOL_VERSION, packet_type: PacketType::PlayerAttack, player_id: local_player_id },
        lines,
        hole_x,
    }
}

/// The packet asking for a resync after the last delta `last_good_seq`
/// that applied.
pub fn resync_request_packet(local_player_id: u8, last_good_seq: u32) -> (pkt: PktResyncRequest)
    ensures
        pkt == (PktResyncRequest {
            header: PacketHeader { version: PROTOCOL_VERSION, packet_type: PacketType::ResyncRequest, player_id: local_player_id },
            last_good_seq,
        }),
{
    PktResyncRequest {
        header: PacketHeader { version: PROTOCOL_VERSION, packet_type: PacketType::ResyncRequest, player_id: local_player_id },
        last_good_seq,
    }
}

fn rows_vec<const W: usize, const H: usize>(b: &crate::board::Board<W, H>) -> (v: Vec<u64>)
    ensures
        v@ == b.rows@,
{
    let mut v: Vec<u64> = Vec::new();
    let mut i: usize = 0;
    while i < H
        invariant
            i <= H,
            v@ == b.rows@.take(i as int),
        decreases H - i,
    {
        v.push(b.rows[i]);
        assert(b.rows@.take(i + 1) =~= b.rows@.take(i as int).push(b.rows[i as int]));
        i = i + 1;
    }
    assert(b.rows@.take(H as int) =~= b.rows@);
    v
}

/// The rows that differ from the cache; see `changed_rows`.
fn diff_rows<const W: usize, const H: usize>(b: &crate::board::Board<W, H>, prev: &Vec<u64>) -> (v: Vec<(u8, u64)>)
    requires
        H <= 64,
    ensures
        v@ == changed_rows(b.rows@, prev@, H as int),
{
    let mut v: Vec<(u8, u64)> = Vec::new();
    let mut i: usize = 0;
    while i < H
        invariant
            i <= H,
            H <= 64,
            v@ == changed_rows(b.rows@, prev@, i as int),
        decreases H - i,
    {
        if i < prev.len() && b.rows[i] != prev[i] {
            v.push((i as u8, b.rows[i]));
        }
        i = i + 1;
    }
    v
}

/// The state with a full sync applied; see `state_synced`.
fn synced_state<const W: usize, const H: usize>(st: State<W, H>, pkt: &PktStateSync) -> (r: State<W, H>)
    ensures
        r == state_synced(st, *pkt),
{
    let mut board = st.board;
    let mut i: usize = 0;
    while i < H
        invariant
            i <= H,
            forall|j: int| 0 <= j < i ==> #[trigger] board.rows[j] == (if j < pkt.board_rows@.len() {
                pkt.board_rows@[j]
            } else {
                st.board.rows[j]
            }),
            forall|j: int| i <= j < H ==> #[trigger] board.rows[j] == st.board.rows[j],
        decreases H - i,
    {
        if i < pkt.board_rows.len() {
            board.rows[i] = pkt.board_rows[i];
        }
        i = i + 1;
    }
    proof {
        let rows = Seq::new(H as nat, |j: int| if j < pkt.board_rows@.len() {
            pkt.board_rows@[j]
        } else {
            st.board.rows[j]
        });
        crate::engine::lemma_board_of(board, rows);
    }
    State {
        board,
        piece: pkt.piece,
        rot: pkt.rot,
        x: pkt.x,
        y: pkt.y,
        hold: pkt.hold,
        hold_used: pkt.hold_used,
        next: [pkt.next[0], pkt.next[1], pkt.next[2], st.next[3], st.next[4]],
        pending_garbage: pkt.pending_garbage,
        rng: pkt.rng_state,
        ..st
    }
}

/// The state with a delta applied; see `state_delta`.
fn delta_state<const W: usize, const H: usize>(st: State<W, H>, pkt: &PktDeltaSync) -> (r: State<W, H>)
    ensures
        r == state_delta(st, *pkt),
{
    let mut board = st.board;
    let mut k: usize = 0;
    while k < pkt.changed_rows.len()
        invariant
            k <= pkt.changed_rows@.len(),
            board.rows@ == rows_delta(st.board.rows@, pkt.changed_rows@.take(k as int)),
        decreases pkt.changed_rows@.len() - k,
    {
        let (row_idx, new_val) = pkt.changed_rows[k];
        assert(pkt.changed_rows@.take(k + 1).drop_last() =~= pkt.changed_rows@.take(k as int));
        proof {
            lemma_rows_delta_len(st.board.rows@, pkt.changed_rows@.take(k as int));
        }
        if (row_idx as usize) < H {
            board.rows[row_idx as usize] = new_val;
        }
        assert(board.rows@ =~= rows_delta(st.board.rows@, pkt.changed_rows@.take(k + 1)));
        k = k + 1;
    }
    assert(pkt.changed_rows@.take(k as int) =~= pkt.changed_rows@);
    proof {
        crate::engine::lemma_board_of(board, rows_delta(st.board.rows@, pkt.changed_rows@));
    }
    State {
        board,
        piece: pkt.piece,
        rot: pkt.rot,
        x: pkt.x,
        y: pkt.y,
        hold: pkt.hold,
        hold_used: pkt.hold_used,
        next: [pkt.next[0], pkt.next[1], pkt.next[2], st.next[3], st.next[4]],
        ..st
    }
}

proof fn lemma_rows_delta_len(rows: Seq<u64>, changes: Seq<(u8, u64)>)
    ensures
        rows_delta(rows, changes).len() == rows.len(),
    decreases changes.len(),
{
    if changes.len() > 0 {
        lemma_rows_delta_len(rows, changes.drop_last());
    }
}

/// A board cache of `n` empty rows.
fn zeros(n: usize) -> (v: Vec<u64>)
    ensures
        zero_rows(v@, n as int),
{
    let mut v: Vec<u64> = Vec::new();
    let mut i: usize = 0;
    while i < n
        invariant
            i <= n,
            zero_rows(v@, i as int),
        decreases n - i,
    {
        v.push(0);
        i = i + 1;
    }
    v
}

} // verus!
