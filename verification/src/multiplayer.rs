use vstd::prelude::*;
use crate::app_state::Key;
use crate::cli::{action_for_key_action, key_action, ConnectionStatus};
use crate::engine::{acted, initial_view, restarted, action_fits, Engine, EngineView};
use crate::hash::{crc32_iso_hdlc, hash_bytes};
use crate::text::{decimal, push_decimal};
use crate::newtypes::{KeyAction, Seed, TickNumber};
use crate::protocol::{
    InputEvent, PacketHeader, PacketType, PktIncomingGarbage, PktReplay, PktServerReplay,
    PktStateHash, PktStateSnapshot, PROTOCOL_VERSION,
};

verus! {

/// Ticks after which buffered input is sent even if few events piled up.
pub const FLUSH_TICK_INTERVAL: u64 = 30;
/// Buffered events that force a send.
pub const MAX_BATCH_EVENTS: usize = 64;
/// Players a peer-to-peer host accepts.
pub const MAX_PLAYERS: u8 = 4;

/// `s` without its trailing slashes.
pub open spec fn trim_slashes(s: Seq<char>) -> Seq<char>
    decreases s.len(),
{
    if s.len() > 0 && s.last() == '/' {
        trim_slashes(s.drop_last())
    } else {
        s
    }
}

/// Whether `s` ends with `suffix`.
pub open spec fn ends_with(s: Seq<char>, suffix: Seq<char>) -> bool {
    suffix.len() <= s.len() && s.subrange(s.len() - suffix.len(), s.len() as int) == suffix
}

/// The address of room `code` on the relay at `url`: the url without
/// trailing slashes, with `/` and the code appended unless it already ends
/// with the code.
pub open spec fn room_url(url: Seq<char>, code: Seq<char>) -> Seq<char> {
    let t = trim_slashes(url);
    if ends_with(t, code) {
        t
    } else {
        t + seq!['/'] + code
    }
}

/// The address of room `room_code` on the relay at `url`; see `room_url`.
pub fn relay_room_url(url: &str, room_code: &str) -> (r: String)
    ensures
        r@ == room_url(url@, room_code@),
{
    let mut n = url.unicode_len();
    assert(url@.subrange(0, n as int) =~= url@);
    while n > 0 && url.get_char(n - 1) == '/'
        invariant
            n <= url@.len(),
            trim_slashes(url@) == trim_slashes(url@.subrange(0, n as int)),
        decreases n,
    {
        assert(url@.subrange(0, n as int).drop_last() =~= url@.subrange(0, n - 1));
        n = n - 1;
    }
    let trimmed = url.substring_char(0, n);
    assert(trimmed@ == trim_slashes(url@));
    let m = room_code.unicode_len();
    let mut ends = m <= n;
    if ends {
        let mut i: usize = 0;
        while i < m
            invariant
                m <= n <= url@.len(),
                m == room_code@.len(),
                trimmed@ == url@.subrange(0, n as int),
                i <= m,
                ends == forall|j: int| 0 <= j < i ==> #[trigger] trimmed@[n - m + j] == room_code@[j],
            decreases m - i,
        {
            if trimmed.get_char(n - m + i) != room_code.get_char(i) {
                ends = false;
            }
            i = i + 1;
        }
        assert(ends == (trimmed@.subrange(n - m, n as int) =~= room_code@)) by {
            if ends {
                assert forall|j: int| 0 <= j < m implies #[trigger] trimmed@.subrange(n - m, n as int)[j] == room_code@[j] by {
                    assert(trimmed@[n - m + j] == room_code@[j]);
                }
                assert(trimmed@.subrange(n - m, n as int) =~= room_code@);
            } else {
                let j = choose|j: int| 0 <= j < m && !(trimmed@[n - m + j] == room_code@[j]);
                assert(trimmed@.subrange(n - m, n as int)[j] != room_code@[j]);
            }
        }
    }
    let mut r = trimmed.to_owned();
    if !ends {
        proof {
            reveal_strlit("/");
        }
        r.append("/");
        r.append(room_code);
    }
    r
}

/// The terminal key a replayed game key is read from: arrows and `WASD`
/// move and rotate, space drops, `z` rotates back, Tab holds; `x` rotates
/// too.
pub open spec fn keycode_action(key: Key) -> Option<KeyAction> {
    match key {
        Key::Left => Some(KeyAction::KeyLeft),
        Key::Right => Some(KeyAction::KeyRight),
        Key::Down => Some(KeyAction::KeySoftDrop),
        Key::Up => Some(KeyAction::KeyRotateCW),
        Key::Tab => Some(KeyAction::KeyHold),
        Key::Char(c) => if c == 'a' {
            Some(KeyAction::KeyLeft)
        } else if c == 'd' {
            Some(KeyAction::KeyRight)
        } else if c == 's' {
            Some(KeyAction::KeySoftDrop)
        } else if c == ' ' {
            Some(KeyAction::KeyHardDrop)
        } else if c == 'w' || c == 'x' {
            Some(KeyAction::KeyRotateCW)
        } else if c == 'z' {
            Some(KeyAction::KeyRotateCCW)
        } else {
            None
        },
        _ => None,
    }
}

/// The game key a terminal key stands for; see `keycode_action`.
pub fn key_action_for_keycode(key: Key) -> (r: Option<KeyAction>)
    ensures
        r == keycode_action(key),
{
    match key {
        Key::Left => Some(KeyAction::KeyLeft),
        Key::Right => Some(KeyAction::KeyRight),
        Key::Down => Some(KeyAction::KeySoftDrop),
        Key::Up => Some(KeyAction::KeyRotateCW),
        Key::Tab => Some(KeyAction::KeyHold),
        Key::Char(c) => if c == 'a' {
            Some(KeyAction::KeyLeft)
        } else if c == 'd' {
            Some(KeyAction::KeyRight)
        } else if c == 's' {
            Some(KeyAction::KeySoftDrop)
        } else if c == ' ' {
            Some(KeyAction::KeyHardDrop)
        } else if c == 'w' || c == 'x' {
            Some(KeyAction::KeyRotateCW)
        } else if c == 'z' {
            Some(KeyAction::KeyRotateCCW)
        } else {
            None
        },
        _ => None,
    }
}

/// The client's input waiting to be sent: the current tick, the tick of the
/// last send, and the events pressed since.
#[derive(Debug, Clone)]
pub struct CliInputBuffer {
    pub current_tick: TickNumber,
    pub last_flush_tick: TickNumber,
    pub pending: Vec<InputEvent>,
}

impl CliInputBuffer {
    /// An empty buffer at tick 0.
    pub fn new() -> (b: Self)
        ensures
            b.current_tick.0 == 0,
            b.last_flush_tick.0 == 0,
            b.pending@.len() == 0,
    {
        CliInputBuffer { current_tick: TickNumber(0), last_flush_tick: TickNumber(0), pending: Vec::new() }
    }

    /// Moves to the next tick (saturating).
    pub fn advance_tick(&mut self)
        ensures
            final(self).current_tick.0 == (if old(self).current_tick.0 == u64::MAX {
                u64::MAX
            } else {
                (old(self).current_tick.0 + 1) as u64
            }),
            final(self).last_flush_tick == old(self).last_flush_tick,
            final(self).pending@ == old(self).pending@,
    {
        self.current_tick = TickNumber(self.current_tick.0.saturating_add(1));
    }

    /// Buffers the event of terminal key `key` at the current tick and
    /// returns it; keys that stand for no game key are ignored.
    pub fn push_key(&mut self, key: Key, pressed: bool, subframe_bits: u32) -> (r: Option<InputEvent>)
        ensures
            match keycode_action(key) {
                None => r is None && final(self).pending@ == old(self).pending@,
                Some(k) => {
                    let e = InputEvent { key: k, pressed, tick: old(self).current_tick, subframe_bits };
                    r == Some(e) && final(self).pending@ == old(self).pending@.push(e)
                },
            },
            final(self).current_tick == old(self).current_tick,
            final(self).last_flush_tick == old(self).last_flush_tick,
    {
        match key_action_for_keycode(key) {
            None => None,
            Some(k) => {
                let e = InputEvent { key: k, pressed, tick: self.current_tick, subframe_bits };
                self.pending.push(e);
                Some(e)
            },
        }
    }

    /// Whether the buffer should be sent now: something is pending, and
    /// either `FLUSH_TICK_INTERVAL` ticks passed since the last send or
    /// `MAX_BATCH_EVENTS` events piled up.
    pub fn should_flush(&self) -> (r: bool)
        ensures
            r == (self.pending@.len() > 0 && ((self.current_tick.0 >= self.last_flush_tick.0
                && self.current_tick.0 - self.last_flush_tick.0 >= FLUSH_TICK_INTERVAL)
                || self.pending@.len() >= MAX_BATCH_EVENTS)),
    {
        self.pending.len() > 0 && (self.current_tick.0.saturating_sub(self.last_flush_tick.0) >= FLUSH_TICK_INTERVAL
            || self.pending.len() >= MAX_BATCH_EVENTS)
    }

    /// Takes the pending events as the replay packet of player
    /// `player_id`, starting at the first event's tick; nothing when none
    /// is pending.
    pub fn flush_replay(&mut self, player_id: u8) -> (r: Option<PktReplay>)
        ensures
            old(self).pending@.len() == 0 ==> r is None && final(self).pending@ == old(self).pending@
                && final(self).last_flush_tick == old(self).last_flush_tick,
            old(self).pending@.len() > 0 ==> ({
                &&& r matches Some(pkt)
                &&& pkt.header == (PacketHeader { version: PROTOCOL_VERSION, packet_type: PacketType::Replay, player_id })
                &&& pkt.events@ == old(self).pending@
                &&& pkt.start_tick == old(self).pending@[0].tick
                &&& final(self).pending@.len() == 0
                &&& final(self).last_flush_tick == old(self).current_tick
            }),
            final(self).current_tick == old(self).current_tick,
    {
        if self.pending.len() == 0 {
            return None;
        }
        let mut events: Vec<InputEvent> = Vec::new();
        std::mem::swap(&mut events, &mut self.pending);
        let start_tick = events[0].tick;
        self.last_flush_tick = self.current_tick;
        Some(
            PktReplay {
                header: PacketHeader { version: PROTOCOL_VERSION, packet_type: PacketType::Replay, player_id },
                events,
                start_tick,
            },
        )
    }
}

impl Default for CliInputBuffer {
    fn default() -> (b: Self)
        ensures
            b.current_tick.0 == 0,
            b.last_flush_tick.0 == 0,
            b.pending@.len() == 0,
    {
        Self::new()
    }
}

/// How the client plays with others: through a relay room, or peer to peer
/// as host or guest. Socket addresses are held as the text they print as.
#[derive(Debug, Clone, PartialEq, Eq)]
pub enum MultiplayerMode {
    JoinRelay { url: String, room_code: String },
    HostP2p { bind_addr: String },
    JoinP2p { addr: String },
}

impl MultiplayerMode {
    /// Joining room `room_code` of the relay at `url`.
    pub fn join_relay(url: &str, room_code: &str) -> (m: Self)
        ensures
            m matches MultiplayerMode::JoinRelay { url: u, room_code: c } && u@ == url@ && c@ == room_code@,
    {
        MultiplayerMode::JoinRelay { url: url.to_owned(), room_code: room_code.to_owned() }
    }
}

/// The key that tells one multiplayer setup from another.
pub open spec fn mode_key_text(mode: MultiplayerMode) -> Seq<char> {
    match mode {
        MultiplayerMode::JoinRelay { url, room_code } => "relay:"@ + url@ + ":"@ + room_code@,
        MultiplayerMode::HostP2p { bind_addr } => "host:"@ + bind_addr@,
        MultiplayerMode::JoinP2p { addr } => "join:"@ + addr@,
    }
}

/// The line the client shows for a multiplayer setup.
pub open spec fn mode_label_text(mode: MultiplayerMode) -> Seq<char> {
    match mode {
        MultiplayerMode::JoinRelay { url, room_code } => "relay "@ + url@ + " room "@ + room_code@,
        MultiplayerMode::HostP2p { bind_addr } => "p2p host "@ + bind_addr@,
        MultiplayerMode::JoinP2p { addr } => "p2p join "@ + addr@,
    }
}

/// The key that tells one multiplayer setup from another; see
/// `mode_key_text`.
pub fn mode_key(mode: &MultiplayerMode) -> (r: String)
    ensures
        r@ == mode_key_text(*mode),
{
    match mode {
        MultiplayerMode::JoinRelay { url, room_code } => {
            let mut r = "relay:".to_owned();
            r.append(url.as_str());
            r.append(":");
            r.append(room_code.as_str());
            r
        },
        MultiplayerMode::HostP2p { bind_addr } => {
            let mut r = "host:".to_owned();
            r.append(bind_addr.as_str());
            r
        },
        MultiplayerMode::JoinP2p { addr } => {
            let mut r = "join:".to_owned();
            r.append(addr.as_str());
            r
        },
    }
}

/// The seed a setup starts with: the host's fixed 42, zero for guests
/// (who take the seed from the game start).
pub fn default_seed_for_mode(mode: &MultiplayerMode) -> (r: Seed)
    ensures
        r.0 == (if mode is HostP2p { 42i32 } else { 0i32 }),
{
    match mode {
        MultiplayerMode::JoinRelay { .. } => Seed(0),
        MultiplayerMode::HostP2p { .. } => Seed(42),
        MultiplayerMode::JoinP2p { .. } => Seed(0),
    }
}

/// The client's side of a multiplayer game: the setup, its player id and
/// connection status, the input buffer, packets waiting to go out, and the
/// last state hash the server sent.
#[derive(Debug, Clone)]
pub struct MultiplayerSession {
    pub mode: MultiplayerMode,
    pub player_id: u8,
    pub status: ConnectionStatus,
    pub input_buffer: CliInputBuffer,
    pub outbox: Vec<Vec<u8>>,
    pub last_server_hash: Option<(TickNumber, u32)>,
}

impl MultiplayerSession {
    /// A session of player `player_id`, online, with nothing buffered.
    pub fn new(mode: MultiplayerMode, player_id: u8) -> (s: Self)
        ensures
            s.mode == mode,
            s.player_id == player_id,
            s.status == ConnectionStatus::Online,
            s.input_buffer.current_tick.0 == 0 && s.input_buffer.last_flush_tick.0 == 0,
            s.input_buffer.pending@.len() == 0,
            s.outbox@.len() == 0,
            s.last_server_hash is None,
    {
        MultiplayerSession {
            mode,
            player_id,
            status: ConnectionStatus::Online,
            input_buffer: CliInputBuffer::new(),
            outbox: Vec::new(),
            last_server_hash: None,
        }
    }

    /// Queues an encoded packet to send; empty ones are dropped.
    pub fn push_packet(&mut self, packet: Vec<u8>)
        ensures
            final(self).outbox@ == (if packet@.len() > 0 {
                old(self).outbox@.push(packet)
            } else {
                old(self).outbox@
            }),
            final(self).mode == old(self).mode,
            final(self).player_id == old(self).player_id,
            final(self).status == old(self).status,
            final(self).last_server_hash == old(self).last_server_hash,
    {
        if packet.len() > 0 {
            self.outbox.push(packet);
        }
    }

    /// The line the client shows for the session's setup; see
    /// `mode_label_text`.
    pub fn mode_label(&self) -> (r: String)
        ensures
            r@ == mode_label_text(self.mode),
    {
        match &self.mode {
            MultiplayerMode::JoinRelay { url, room_code } => {
                let mut r = "relay ".to_owned();
                r.append(url.as_str());
                r.append(" room ");
                r.append(room_code.as_str());
                r
            },
            MultiplayerMode::HostP2p { bind_addr } => {
                let mut r = "p2p host ".to_owned();
                r.append(bind_addr.as_str());
                r
            },
            MultiplayerMode::JoinP2p { addr } => {
                let mut r = "p2p join ".to_owned();
                r.append(addr.as_str());
                r
            },
        }
    }
}

/// An engine after predicting input event `e`: a press acts on the engine
/// unless the lock it makes would overflow a counter (see `action_fits`);
/// releases do nothing.
pub open spec fn predicted(v: EngineView<10, 20>, e: InputEvent) -> EngineView<10, 20> {
    if e.pressed && action_fits(v, key_action(e.key)) {
        acted(v, key_action(e.key)).0
    } else {
        v
    }
}

/// An engine after predicting `events` in order.
pub open spec fn replayed(v: EngineView<10, 20>, events: Seq<InputEvent>) -> EngineView<10, 20>
    decreases events.len(),
{
    if events.len() == 0 {
        v
    } else {
        predicted(replayed(v, events.drop_last()), events.last())
    }
}

/// Acts on `engine` as input event `event` says; see `predicted`.
pub fn apply_input_prediction(engine: &mut Engine<10, 20>, event: &InputEvent)
    requires
        old(engine)@.wf(),
    ensures
        final(engine)@ == predicted(old(engine)@, *event),
        final(engine)@.wf(),
{
    if event.pressed {
        let a = action_for_key_action(event.key);
        if engine.action_would_fit(a) {
            engine.handle_action(a);
        }
    }
}

fn replay_events(engine: &mut Engine<10, 20>, events: &Vec<InputEvent>)
    requires
        old(engine)@.wf(),
    ensures
        final(engine)@ == replayed(old(engine)@, events@),
        final(engine)@.wf(),
{
    let mut i: usize = 0;
    while i < events.len()
        invariant
            i <= events@.len(),
            engine@.wf(),
            engine@ == replayed(old(engine)@, events@.take(i as int)),
        decreases events@.len() - i,
    {
        assert(events@.take(i + 1).drop_last() =~= events@.take(i as int));
        apply_input_prediction(engine, &events[i]);
        i = i + 1;
    }
    assert(events@.take(i as int) =~= events@);
}

/// Another player's engine as the client mirrors it.
#[derive(Debug, Clone)]
pub struct OpponentView {
    pub engine: Engine<10, 20>,
    pub name: String,
    pub status: ConnectionStatus,
    pub incoming_garbage: u8,
    pub alive: bool,
    pub spectating: bool,
}

impl OpponentView {
    /// An online opponent named `name` whose game started with `seed`.
    pub fn new(name: String, seed: u32) -> (o: Self)
        ensures
            o.engine@ == restarted(initial_view::<10, 20>(), seed, 1),
            o.engine@.wf(),
            o.name@ == name@,
            o.status == ConnectionStatus::Online,
            o.incoming_garbage == 0,
            o.alive && !o.spectating,
    {
        let mut engine = Engine::<10, 20>::new();
        engine.reset(seed);
        OpponentView { engine, name, status: ConnectionStatus::Online, incoming_garbage: 0, alive: true, spectating: false }
    }
}

/// Whether every mirrored engine keeps the engine invariant.
pub open spec fn opponents_wf(os: Seq<OpponentView>) -> bool {
    forall|i: int| 0 <= i < os.len() ==> #[trigger] os[i].engine@.wf()
}

/// Whether `o` is the opponent the client makes up for seat `j`: named
/// `P` and the seat number, online, with a game started from seed 0.
pub open spec fn fresh_opponent(o: OpponentView, j: int) -> bool {
    &&& o.name@ == seq!['P'] + decimal(j as nat)
    &&& o.engine@ == restarted(initial_view::<10, 20>(), 0, 1)
    &&& o.status == ConnectionStatus::Online
    &&& o.incoming_garbage == 0
    &&& o.alive && !o.spectating
}

/// Whether `after` is `before` with made-up opponents appended up to seat
/// `idx`.
pub open spec fn grown_to(before: Seq<OpponentView>, after: Seq<OpponentView>, idx: int) -> bool {
    &&& after.len() == (if before.len() > idx { before.len() as int } else { idx + 1 })
    &&& forall|j: int| 0 <= j < before.len() ==> #[trigger] after[j] == before[j]
    &&& forall|j: int| before.len() <= j < after.len() ==> fresh_opponent(#[trigger] after[j], j)
}

/// Makes sure there is an opponent in seat `idx`, making up the missing
/// ones; see `grown_to`.
pub fn ensure_opponent(opponents: &mut Vec<OpponentView>, idx: usize)
    requires
        idx <= 255,
        opponents_wf(old(opponents)@),
    ensures
        grown_to(old(opponents)@, final(opponents)@, idx as int),
        opponents_wf(final(opponents)@),
{
    while opponents.len() <= idx
        invariant
            idx <= 255,
            opponents_wf(opponents@),
            opponents@.len() <= idx + 1 || opponents@.len() == old(opponents)@.len(),
            old(opponents)@.len() <= opponents@.len(),
            forall|j: int| 0 <= j < old(opponents)@.len() ==> #[trigger] opponents@[j] == old(opponents)@[j],
            forall|j: int| old(opponents)@.len() <= j < opponents@.len() ==> fresh_opponent(#[trigger] opponents@[j], j),
        decreases idx + 1 - opponents@.len(),
    {
        let seat = opponents.len() as u64;
        let mut name = "P".to_owned();
        proof {
            reveal_strlit("P");
        }
        assert("P"@ =~= seq!['P']);
        push_decimal(&mut name, seat);
        let ghost before = opponents@;
        let fresh = OpponentView::new(name, 0);
        opponents.push(fresh);
        assert(fresh_opponent(opponents@[before.len() as int], before.len() as int));
        assert(opponents_wf(before));
        assert forall|i: int| 0 <= i < opponents@.len() implies #[trigger] opponents@[i].engine@.wf() by {
            if i < before.len() {
                assert(opponents@[i] == before[i]);
                assert(before[i].engine@.wf());
            }
        }
    }
}

/// The state an engine takes from a server snapshot: the engine restarted
/// from the snapshot's seed, then the snapshot's rows (as many as it has,
/// up to 20), piece, position, hold, preview, random state, combo,
/// back-to-back flag and pending garbage.
pub open spec fn snapshot_taken(base: EngineView<10, 20>, snap: PktStateSnapshot, after: EngineView<10, 20>) -> bool {
    &&& after == (EngineView { state: after.state, has_hold: true, ..base })
    &&& forall|i: int| 0 <= i < 20 ==> #[trigger] after.state.board.rows[i] == (if i < snap.board_rows@.len() {
        snap.board_rows@[i]
    } else {
        base.state.board.rows[i]
    })
    &&& after.state.piece == snap.piece && after.state.rot == snap.rot
    &&& after.state.x == snap.x && after.state.y == snap.y
    &&& after.state.hold == snap.hold && after.state.hold_used == snap.hold_used
    &&& after.state.next == snap.next && after.state.rng == snap.rng_state
    &&& after.state.combo == snap.combo && after.state.b2b == snap.b2b
    &&& after.state.pending_garbage == snap.pending_garbage
    &&& after.state.last_move_was_rotation == base.state.last_move_was_rotation
    &&& after.state.last_clear_mask == base.state.last_clear_mask
    &&& after.state.last_clear_count == base.state.last_clear_count
    &&& after.state.last_harddrop_cols == base.state.last_harddrop_cols
    &&& after.state.last_harddrop_start_y == base.state.last_harddrop_start_y
    &&& after.state.last_harddrop_end_y == base.state.last_harddrop_end_y
    &&& after.state.last_harddrop_piece == base.state.last_harddrop_piece
    &&& after.state.last_harddrop_valid == base.state.last_harddrop_valid
}

/// Whether a snapshot's piece position lies where the engine can hold it.
pub open spec fn snapshot_in_range(snap: PktStateSnapshot) -> bool {
    -3 <= snap.x < 10 && -122 <= snap.y < 20
}

/// Replaces `engine`'s game with a server snapshot (see `snapshot_taken`);
/// a snapshot whose piece lies out of the engine's range is refused and
/// leaves the engine alone.
pub fn apply_state_snapshot(engine: &mut Engine<10, 20>, snapshot: &PktStateSnapshot) -> (applied: bool)
    requires
        old(engine)@.wf(),
    ensures
        applied == snapshot_in_range(*snapshot),
        !applied ==> final(engine)@ == old(engine)@,
        applied ==> snapshot_taken(restarted(old(engine)@, snapshot.seed.0 as u32, 1), *snapshot, final(engine)@),
        final(engine)@.wf(),
{
    if !(-3 <= snapshot.x && snapshot.x < 10 && -122 <= snapshot.y && snapshot.y < 20) {
        return false;
    }
    engine.reset(snapshot.seed.0 as u32);
    let ghost base = engine@;
    let mut st = engine.current_state();
    let mut i: usize = 0;
    while i < 20 && i < snapshot.board_rows.len()
        invariant
            i <= 20,
            st == (crate::state::State { board: st.board, ..base.state }),
            forall|j: int| 0 <= j < 20 ==> #[trigger] st.board.rows[j] == (if j < i && j < snapshot.board_rows@.len() {
                snapshot.board_rows@[j]
            } else {
                base.state.board.rows[j]
            }),
        decreases 20 - i,
    {
        st.board.rows[i] = snapshot.board_rows[i];
        i = i + 1;
    }
    st.piece = snapshot.piece;
    st.rot = snapshot.rot;
    st.x = snapshot.x;
    st.y = snapshot.y;
    st.hold = snapshot.hold;
    st.hold_used = snapshot.hold_used;
    st.next = snapshot.next;
    st.rng = snapshot.rng_state;
    st.combo = snapshot.combo;
    st.b2b = snapshot.b2b;
    st.pending_garbage = snapshot.pending_garbage;
    let over = engine.is_over();
    engine.overwrite_state(st, over);
    engine.set_has_hold(true);
    true
}

/// What a server replay does: the sender's events act on the local engine
/// when they are the local player's own, else on the mirror of their seat
/// (made up if missing), whose incoming garbage becomes the replay's.
pub open spec fn server_replay_applied(
    local_player_id: u8,
    local_before: EngineView<10, 20>,
    opponents_before: Seq<OpponentView>,
    replay: PktServerReplay,
    local_after: EngineView<10, 20>,
    opponents_after: Seq<OpponentView>,
) -> bool {
    let idx = replay.source_player.0 as int;
    if replay.source_player.0 == local_player_id {
        local_after == replayed(local_before, replay.events@) && opponents_after == opponents_before
    } else {
        &&& local_after == local_before
        &&& opponents_after.len() == (if opponents_before.len() > idx { opponents_before.len() as int } else { idx + 1 })
        &&& forall|j: int| 0 <= j < opponents_before.len() && j != idx ==> #[trigger] opponents_after[j] == opponents_before[j]
        &&& forall|j: int| opponents_before.len() <= j < opponents_after.len() && j != idx ==> fresh_opponent(#[trigger] opponents_after[j], j)
        &&& ({
            let o = opponents_after[idx];
            let base_engine = if idx < opponents_before.len() {
                opponents_before[idx].engine@
            } else {
                restarted(initial_view::<10, 20>(), 0, 1)
            };
            &&& o.engine@ == replayed(base_engine, replay.events@)
            &&& o.incoming_garbage == replay.ige_garbage_lines
            &&& if idx < opponents_before.len() {
                let p = opponents_before[idx];
                o.name@ == p.name@ && o.status == p.status && o.alive == p.alive && o.spectating == p.spectating
            } else {
                o.name@ == seq!['P'] + decimal(idx as nat) && o.status == ConnectionStatus::Online && o.alive
                    && !o.spectating
            }
        })
    }
}

/// Applies a server replay; see `server_replay_applied`.
pub fn apply_server_replay(
    local_player_id: u8,
    local_engine: &mut Engine<10, 20>,
    opponents: &mut Vec<OpponentView>,
    replay: &PktServerReplay,
)
    requires
        old(local_engine)@.wf(),
        opponents_wf(old(opponents)@),
    ensures
        server_replay_applied(local_player_id, old(local_engine)@, old(opponents)@, *replay, final(local_engine)@, final(opponents)@),
        final(local_engine)@.wf(),
        opponents_wf(final(opponents)@),
{
    if replay.source_player.0 == local_player_id {
        replay_events(local_engine, &replay.events);
        return;
    }
    let idx = replay.source_player.0 as usize;
    ensure_opponent(opponents, idx);
    let ghost grown = opponents@;
    let mut o = OpponentView::new(String::new(), 0);
    opponents.set_and_swap(idx, &mut o);
    replay_events(&mut o.engine, &replay.events);
    o.incoming_garbage = replay.ige_garbage_lines;
    let ghost placed = o;
    opponents.set_and_swap(idx, &mut o);
    assert(opponents@ =~= grown.update(idx as int, placed));
    assert(opponents_wf(grown));
    assert forall|i: int| 0 <= i < opponents@.len() implies #[trigger] opponents@[i].engine@.wf() by {
        if i != idx {
            assert(opponents@[i] == grown[i]);
            assert(grown[i].engine@.wf());
        }
    }
}

/// A packet the server sends a client during a game, decoded.
pub enum AuthorityPacket {
    ServerReplay(PktServerReplay),
    StateSnapshot(PktStateSnapshot),
    StateHash(PktStateHash),
    IncomingGarbage(PktIncomingGarbage),
    /// Anything else; the client does not act on it here.
    Other,
}

/// Acts on a server packet and says whether it was taken: replays move the
/// engines (see `server_replay_applied`), a snapshot in range replaces the
/// local game and puts the session back online, a state hash is recorded
/// and a mismatch with the local engine's hash marks the session as
/// resyncing, and incoming garbage is added to the local engine.
pub fn apply_authority_packet(
    local_player_id: u8,
    local_engine: &mut Engine<10, 20>,
    opponents: &mut Vec<OpponentView>,
    session: &mut MultiplayerSession,
    pkt: AuthorityPacket,
) -> (taken: bool)
    requires
        old(local_engine)@.wf(),
        opponents_wf(old(opponents)@),
    ensures
        final(local_engine)@.wf(),
        opponents_wf(final(opponents)@),
        final(session).mode == old(session).mode,
        final(session).player_id == old(session).player_id,
        final(session).outbox == old(session).outbox,
        match pkt {
            AuthorityPacket::ServerReplay(r) => {
                &&& taken
                &&& server_replay_applied(local_player_id, old(local_engine)@, old(opponents)@, r, final(local_engine)@, final(opponents)@)
                &&& *final(session) == *old(session)
            },
            AuthorityPacket::StateSnapshot(s) => {
                &&& taken == snapshot_in_range(s)
                &&& final(opponents)@ == old(opponents)@
                &&& !taken ==> final(local_engine)@ == old(local_engine)@ && *final(session) == *old(session)
                &&& taken ==> snapshot_taken(restarted(old(local_engine)@, s.seed.0 as u32, 1), s, final(local_engine)@)
                    && final(session).status == ConnectionStatus::Online
                    && final(session).last_server_hash == old(session).last_server_hash
            },
            AuthorityPacket::StateHash(h) => {
                &&& taken
                &&& final(local_engine)@ == old(local_engine)@ && final(opponents)@ == old(opponents)@
                &&& final(session).last_server_hash == Some((h.tick, h.hash))
                &&& final(session).status == (if crc32_iso_hdlc(hash_bytes(old(local_engine)@)) != h.hash {
                    ConnectionStatus::Resyncing
                } else {
                    old(session).status
                })
            },
            AuthorityPacket::IncomingGarbage(g) => {
                &&& taken
                &&& final(local_engine)@ == (EngineView {
                    state: crate::state::State {
                        pending_garbage: if old(local_engine)@.state.pending_garbage + g.incoming_lines > u8::MAX {
                            u8::MAX
                        } else {
                            (old(local_engine)@.state.pending_garbage + g.incoming_lines) as u8
                        },
                        ..old(local_engine)@.state
                    },
                    ..old(local_engine)@
                })
                &&& final(opponents)@ == old(opponents)@ && *final(session) == *old(session)
            },
            AuthorityPacket::Other => {
                &&& !taken
                &&& final(local_engine)@ == old(local_engine)@ && final(opponents)@ == old(opponents)@
                &&& *final(session) == *old(session)
            },
        },
{
    match pkt {
        AuthorityPacket::ServerReplay(r) => {
            apply_server_replay(local_player_id, local_engine, opponents, &r);
            true
        },
        AuthorityPacket::StateSnapshot(s) => {
            if apply_state_snapshot(local_engine, &s) {
                session.status = ConnectionStatus::Online;
                true
            } else {
                false
            }
        },
        AuthorityPacket::StateHash(h) => {
            session.last_server_hash = Some((h.tick, h.hash));
            if local_engine.state_hash() != h.hash {
                session.status = ConnectionStatus::Resyncing;
            }
            true
        },
        AuthorityPacket::IncomingGarbage(g) => {
            local_engine.add_pending_garbage(g.incoming_lines);
            true
        },
        AuthorityPacket::Other => false,
    }
}

} // verus!
