use vstd::prelude::*;
use crate::cli::key_action;
use crate::engine::{acted, restarted, action_fits, Action, Engine, initial_view};
use crate::hash::{crc32_iso_hdlc, hash_bytes};
use crate::newtypes::{KeyAction, TickNumber};
use crate::protocol::{InputEvent, PacketHeader, PacketType, PktReplay, PROTOCOL_VERSION};

verus! {

/// Ticks a bot waits after planning a placement before it plans again.
pub const BOT_DECIDE_COOLDOWN_TICKS: u32 = 4;

/// The game key that replays an engine action.
pub open spec fn action_key(action: Action) -> KeyAction {
    match action {
        Action::MoveLeft => KeyAction::KeyLeft,
        Action::MoveRight => KeyAction::KeyRight,
        Action::SoftDrop => KeyAction::KeySoftDrop,
        Action::HardDrop => KeyAction::KeyHardDrop,
        Action::RotateCW => KeyAction::KeyRotateCW,
        Action::RotateCCW => KeyAction::KeyRotateCCW,
        Action::Hold => KeyAction::KeyHold,
    }
}

/// The game key that replays an engine action; see `action_key`.
pub fn key_action_for_action(action: Action) -> (k: KeyAction)
    ensures
        k == action_key(action),
{
    match action {
        Action::MoveLeft => KeyAction::KeyLeft,
        Action::MoveRight => KeyAction::KeyRight,
        Action::SoftDrop => KeyAction::KeySoftDrop,
        Action::HardDrop => KeyAction::KeyHardDrop,
        Action::RotateCW => KeyAction::KeyRotateCW,
        Action::RotateCCW => KeyAction::KeyRotateCCW,
        Action::Hold => KeyAction::KeyHold,
    }
}

/// A bot's replayed key stands for the action the bot played: replaying
/// the key of an action acts as that action.
pub proof fn lemma_action_key_round_trip(action: Action)
    ensures
        key_action(action_key(action)) == action,
{
}

/// A computer player: its own copy of the game, the temperature its policy
/// samples with (an IEEE-754 single kept as its bits), the ticks until it
/// plans again, the planned actions still to play, and its tick.
pub struct AiBot {
    pub engine: Engine<10, 20>,
    pub temperature_bits: u32,
    pub decide_cooldown: u32,
    pub pending_actions: Vec<Action>,
    pub current_tick: TickNumber,
}

/// The tick after `t` (saturating).
pub open spec fn next_tick(t: TickNumber) -> TickNumber {
    TickNumber(if t.0 == u64::MAX { u64::MAX } else { (t.0 + 1) as u64 })
}

impl AiBot {
    /// A bot whose game starts from `seed`.
    pub fn new(seed: u32, temperature_bits: u32) -> (b: Self)
        ensures
            b.engine@ == restarted(initial_view::<10, 20>(), seed, 1),
            b.engine@.wf(),
            b.temperature_bits == temperature_bits,
            b.decide_cooldown == 0,
            b.pending_actions@.len() == 0,
            b.current_tick.0 == 0,
    {
        let mut engine = Engine::<10, 20>::new();
        engine.reset(seed);
        AiBot { engine, temperature_bits, decide_cooldown: 0, pending_actions: Vec::new(), current_tick: TickNumber(0) }
    }

    /// Whether the bot asks its policy for a placement now: only with no
    /// action left to play and the cooldown over; while cooling down, the
    /// cooldown counts down instead.
    pub fn wants_decision(&mut self) -> (r: bool)
        ensures
            r == (old(self).pending_actions@.len() == 0 && old(self).decide_cooldown == 0),
            final(self).decide_cooldown == (if old(self).pending_actions@.len() == 0 && old(self).decide_cooldown > 0 {
                (old(self).decide_cooldown - 1) as u32
            } else {
                old(self).decide_cooldown
            }),
            final(self).engine == old(self).engine,
            final(self).pending_actions == old(self).pending_actions,
            final(self).current_tick == old(self).current_tick,
    {
        if self.pending_actions.len() > 0 {
            return false;
        }
        if self.decide_cooldown > 0 {
            self.decide_cooldown = self.decide_cooldown - 1;
            return false;
        }
        true
    }

    /// Takes the actions that reach the placement the policy chose; a
    /// non-empty plan starts the cooldown.
    pub fn take_plan(&mut self, plan: Vec<Action>)
        ensures
            final(self).pending_actions@ == plan@,
            final(self).decide_cooldown == (if plan@.len() > 0 { BOT_DECIDE_COOLDOWN_TICKS } else { old(self).decide_cooldown }),
            final(self).engine == old(self).engine,
            final(self).current_tick == old(self).current_tick,
    {
        let nonempty = plan.len() > 0;
        self.pending_actions = plan;
        if nonempty {
            self.decide_cooldown = BOT_DECIDE_COOLDOWN_TICKS;
        }
    }

    /// Plays the next planned action, if any, on the bot's game and returns
    /// it as a pressed key at the current tick; the tick advances either
    /// way. An action is played on the game unless the lock it makes would
    /// overflow a counter (see `action_fits`).
    pub fn next_inputs(&mut self) -> (events: Vec<InputEvent>)
        requires
            old(self).engine@.wf(),
        ensures
            final(self).engine@.wf(),
            final(self).current_tick == next_tick(old(self).current_tick),
            final(self).decide_cooldown == old(self).decide_cooldown,
            old(self).pending_actions@.len() == 0 ==> events@.len() == 0 && final(self).engine@ == old(self).engine@
                && final(self).pending_actions@ == old(self).pending_actions@,
            old(self).pending_actions@.len() > 0 ==> ({
                let a = old(self).pending_actions@[0];
                &&& events@ == seq![InputEvent { key: action_key(a), pressed: true, tick: old(self).current_tick, subframe_bits: 0 }]
                &&& final(self).pending_actions@ == old(self).pending_actions@.drop_first()
                &&& final(self).engine@ == (if action_fits(old(self).engine@, a) {
                    acted(old(self).engine@, a).0
                } else {
                    old(self).engine@
                })
            }),
    {
        let tick = self.current_tick;
        self.current_tick = TickNumber(self.current_tick.0.saturating_add(1));
        if self.pending_actions.len() == 0 {
            return Vec::new();
        }
        let action = self.pending_actions.remove(0);
        if self.engine.action_would_fit(action) {
            self.engine.handle_action(action);
        }
        let mut events: Vec<InputEvent> = Vec::new();
        events.push(InputEvent { key: key_action_for_action(action), pressed: true, tick, subframe_bits: 0 });
        assert(self.pending_actions@ =~= old(self).pending_actions@.drop_first());
        events
    }

    /// The next inputs (see `next_inputs`) as a replay packet of player
    /// `player_id`; nothing when there is no input.
    pub fn next_replay(&mut self, player_id: u8) -> (r: Option<PktReplay>)
        requires
            old(self).engine@.wf(),
        ensures
            final(self).engine@.wf(),
            final(self).current_tick == next_tick(old(self).current_tick),
            old(self).pending_actions@.len() == 0 ==> r is None,
            old(self).pending_actions@.len() > 0 ==> ({
                let a = old(self).pending_actions@[0];
                &&& r matches Some(pkt)
                &&& pkt.header == (PacketHeader { version: PROTOCOL_VERSION, packet_type: PacketType::Replay, player_id })
                &&& pkt.events@ == seq![InputEvent { key: action_key(a), pressed: true, tick: old(self).current_tick, subframe_bits: 0 }]
                &&& pkt.start_tick == old(self).current_tick
                &&& final(self).pending_actions@ == old(self).pending_actions@.drop_first()
            }),
    {
        let events = self.next_inputs();
        if events.len() == 0 {
            return None;
        }
        let start_tick = events[0].tick;
        Some(PktReplay { header: PacketHeader::new(PacketType::Replay, player_id), events, start_tick })
    }

    /// Takes over the game `engine` (as the server has it) and drops the
    /// plan, so that the bot plans afresh.
    pub fn observe_engine(&mut self, engine: Engine<10, 20>)
        ensures
            final(self).engine == engine,
            final(self).pending_actions@.len() == 0,
            final(self).decide_cooldown == 0,
            final(self).current_tick == old(self).current_tick,
            final(self).temperature_bits == old(self).temperature_bits,
    {
        self.engine = engine;
        self.pending_actions = Vec::new();
        self.decide_cooldown = 0;
    }

    /// The hash of the bot's game (see `Engine::state_hash`).
    pub fn state_hash(&self) -> (r: u32)
        ensures
            r == crc32_iso_hdlc(hash_bytes(self.engine@)),
    {
        self.engine.state_hash()
    }
}

} // verus!
