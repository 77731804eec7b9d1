use tetris_core::bot::{key_action_for_action, AiBot, BOT_DECIDE_COOLDOWN_TICKS};
use tetris_core::engine::{Action, Engine};
use tetris_core::newtypes::{KeyAction, TickNumber};
use tetris_core::protocol::PacketType;

fn planned_bot() -> AiBot {
    let mut bot = AiBot::new(42, 0);
    assert!(bot.wants_decision());
    bot.take_plan(vec![Action::MoveLeft, Action::HardDrop]);
    bot
}

#[test]
fn bot_emits_thin_input_events() {
    let mut bot = planned_bot();
    let inputs = bot.next_inputs();
    assert!(!inputs.is_empty());
    assert!(matches!(
        inputs[0].key,
        KeyAction::KeyLeft | KeyAction::KeyRight | KeyAction::KeyRotateCW | KeyAction::KeyRotateCCW | KeyAction::KeyHardDrop
    ));
    assert!(inputs[0].pressed);
    assert_eq!(inputs[0].tick, TickNumber(0));
}

#[test]
fn bot_replay_uses_protocol_packet() {
    let mut bot = planned_bot();
    let replay = bot.next_replay(1).unwrap();
    assert_eq!(replay.header.packet_type, PacketType::Replay);
    assert_eq!(replay.header.player_id, 1);
    assert_eq!(replay.start_tick, TickNumber(0));
}

#[test]
fn bot_plays_its_plan_then_cools_down() {
    let mut bot = planned_bot();
    let before = bot.state_hash();
    assert_eq!(bot.next_inputs()[0].key, KeyAction::KeyLeft);
    assert!(!bot.wants_decision(), "actions are still planned");
    assert_eq!(bot.next_inputs()[0].key, KeyAction::KeyHardDrop);
    assert_ne!(bot.state_hash(), before);
    for _ in 0..BOT_DECIDE_COOLDOWN_TICKS {
        assert!(!bot.wants_decision());
        assert!(bot.next_inputs().is_empty());
    }
    assert!(bot.wants_decision());
    assert_eq!(bot.current_tick, TickNumber(2 + BOT_DECIDE_COOLDOWN_TICKS as u64));
    assert!(bot.next_replay(0).is_none());
}

#[test]
fn observing_an_engine_drops_the_plan() {
    let mut bot = planned_bot();
    let mut engine = Engine::<10, 20>::new();
    engine.reset(7);
    let hash = engine.state_hash();
    bot.observe_engine(engine);
    assert_eq!(bot.state_hash(), hash);
    assert!(bot.pending_actions.is_empty());
    assert!(bot.wants_decision());
}

#[test]
fn actions_replay_as_their_keys() {
    assert_eq!(key_action_for_action(Action::MoveLeft), KeyAction::KeyLeft);
    assert_eq!(key_action_for_action(Action::MoveRight), KeyAction::KeyRight);
    assert_eq!(key_action_for_action(Action::SoftDrop), KeyAction::KeySoftDrop);
    assert_eq!(key_action_for_action(Action::HardDrop), KeyAction::KeyHardDrop);
    assert_eq!(key_action_for_action(Action::RotateCW), KeyAction::KeyRotateCW);
    assert_eq!(key_action_for_action(Action::RotateCCW), KeyAction::KeyRotateCCW);
    assert_eq!(key_action_for_action(Action::Hold), KeyAction::KeyHold);
}
