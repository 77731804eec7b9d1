use tetris_core::app_state::Key;
use tetris_core::cli::ConnectionStatus;
use tetris_core::engine::Engine;
use tetris_core::multiplayer::{
    apply_authority_packet, apply_input_prediction, apply_server_replay, apply_state_snapshot,
    default_seed_for_mode, ensure_opponent, key_action_for_keycode, mode_key, relay_room_url,
    AuthorityPacket, CliInputBuffer, MultiplayerMode, MultiplayerSession, OpponentView,
};
use tetris_core::newtypes::{KeyAction, PlayerSlot, Seed, TickNumber};
use tetris_core::protocol::{
    InputEvent, PacketHeader, PacketType, PktIncomingGarbage, PktServerReplay, PktStateHash,
    PktStateSnapshot, PROTOCOL_VERSION,
};
use tetris_core::types::{Piece, Rot};

fn snapshot() -> PktStateSnapshot {
    PktStateSnapshot {
        header: PacketHeader { version: PROTOCOL_VERSION, packet_type: PacketType::StateSnapshot, player_id: 0 },
        tick: TickNumber(7),
        board_rows: vec![0; 20],
        piece: Piece::T,
        rot: Rot::R0,
        x: 4,
        y: 5,
        hold: Piece::I,
        hold_used: false,
        next: [Piece::I; 5],
        rng_state: 42,
        combo: 0,
        b2b: false,
        pending_garbage: 0,
        seed: Seed(42),
    }
}

fn hard_drop_event() -> InputEvent {
    InputEvent { key: KeyAction::KeyHardDrop, pressed: true, tick: TickNumber(0), subframe_bits: 0 }
}

#[test]
fn relay_client_parse() {
    let mode = MultiplayerMode::join_relay("ws://127.0.0.1:3000/ws", "ABCD");
    assert_eq!(
        mode,
        MultiplayerMode::JoinRelay { url: "ws://127.0.0.1:3000/ws".into(), room_code: "ABCD".into() }
    );
}

#[test]
fn cli_input_batching() {
    let mut buffer = CliInputBuffer::new();
    buffer.push_key(Key::Left, true, 0).unwrap();
    assert!(!buffer.should_flush());
    for _ in 0..30 {
        buffer.advance_tick();
    }
    assert!(buffer.should_flush());

    let replay = buffer.flush_replay(2).unwrap();
    assert_eq!(replay.header.player_id, 2);
    assert_eq!(replay.start_tick, TickNumber(0));
    assert_eq!(replay.events.len(), 1);
    assert!(buffer.flush_replay(2).is_none());
    assert!(!buffer.should_flush());
}

#[test]
fn input_buffer_flushes_on_a_full_batch() {
    let mut buffer = CliInputBuffer::default();
    assert!(buffer.push_key(Key::Enter, true, 0).is_none());
    for _ in 0..63 {
        buffer.push_key(Key::Char(' '), true, 0).unwrap();
    }
    assert!(!buffer.should_flush());
    buffer.push_key(Key::Char(' '), false, 0).unwrap();
    assert!(buffer.should_flush());
}

#[test]
fn keycodes_map_to_game_keys() {
    assert_eq!(key_action_for_keycode(Key::Left), Some(KeyAction::KeyLeft));
    assert_eq!(key_action_for_keycode(Key::Char('a')), Some(KeyAction::KeyLeft));
    assert_eq!(key_action_for_keycode(Key::Char('d')), Some(KeyAction::KeyRight));
    assert_eq!(key_action_for_keycode(Key::Down), Some(KeyAction::KeySoftDrop));
    assert_eq!(key_action_for_keycode(Key::Char(' ')), Some(KeyAction::KeyHardDrop));
    assert_eq!(key_action_for_keycode(Key::Char('x')), Some(KeyAction::KeyRotateCW));
    assert_eq!(key_action_for_keycode(Key::Up), Some(KeyAction::KeyRotateCW));
    assert_eq!(key_action_for_keycode(Key::Char('z')), Some(KeyAction::KeyRotateCCW));
    assert_eq!(key_action_for_keycode(Key::Tab), Some(KeyAction::KeyHold));
    assert_eq!(key_action_for_keycode(Key::Char('q')), None);
    assert_eq!(key_action_for_keycode(Key::Enter), None);
}

#[test]
fn relay_urls_gain_the_room_once() {
    assert_eq!(relay_room_url("ws://host/ws", "ABCD"), "ws://host/ws/ABCD");
    assert_eq!(relay_room_url("ws://host/ws///", "ABCD"), "ws://host/ws/ABCD");
    assert_eq!(relay_room_url("ws://host/ws/ABCD/", "ABCD"), "ws://host/ws/ABCD");
    assert_eq!(relay_room_url("", "ABCD"), "/ABCD");
    assert_eq!(relay_room_url("ws://h/", ""), "ws://h");
}

#[test]
fn mode_keys_labels_and_seeds() {
    let relay = MultiplayerMode::join_relay("ws://h", "ABCD");
    assert_eq!(mode_key(&relay), "relay:ws://h:ABCD");
    let host = MultiplayerMode::HostP2p { bind_addr: "127.0.0.1:5000".to_string() };
    assert_eq!(mode_key(&host), "host:127.0.0.1:5000");
    let join = MultiplayerMode::JoinP2p { addr: "10.0.0.2:5000".to_string() };
    assert_eq!(mode_key(&join), "join:10.0.0.2:5000");
    assert_eq!(default_seed_for_mode(&relay), Seed(0));
    assert_eq!(default_seed_for_mode(&host), Seed(42));
    assert_eq!(default_seed_for_mode(&join), Seed(0));
    assert_eq!(MultiplayerSession::new(relay, 1).mode_label(), "relay ws://h room ABCD");
    assert_eq!(MultiplayerSession::new(host, 0).mode_label(), "p2p host 127.0.0.1:5000");
    let mut session = MultiplayerSession::new(join, 3);
    assert_eq!(session.mode_label(), "p2p join 10.0.0.2:5000");
    session.push_packet(vec![]);
    session.push_packet(vec![1, 2]);
    assert_eq!(session.outbox, vec![vec![1, 2]]);
}

#[test]
fn cli_reconcile() {
    let mut engine = Engine::<10, 20>::new();
    engine.reset(42);
    let mut snapshot = snapshot();
    snapshot.board_rows[19] = 0x3ff;
    assert!(apply_state_snapshot(&mut engine, &snapshot));

    assert_eq!(engine.state.y, 5);
    assert_eq!(engine.state.board.rows[19], 0x3ff);
    assert!(engine.has_hold);
}

#[test]
fn snapshot_out_of_range_is_refused() {
    let mut engine = Engine::<10, 20>::new();
    engine.reset(42);
    let before = engine.state_hash();
    let mut snap = snapshot();
    snap.x = 40;
    assert!(!apply_state_snapshot(&mut engine, &snap));
    assert_eq!(engine.state_hash(), before);
}

#[test]
fn server_replay_updates_remote_engine() {
    let mut local = Engine::<10, 20>::new();
    local.reset(42);
    let mut opponents = vec![OpponentView::new("P0".to_string(), 42), OpponentView::new("P1".to_string(), 42)];
    let before_hash = opponents[1].engine.state_hash();
    let replay = PktServerReplay {
        header: PacketHeader { version: PROTOCOL_VERSION, packet_type: PacketType::ServerReplay, player_id: 0 },
        source_player: PlayerSlot(1),
        events: vec![hard_drop_event()],
        ige_garbage_lines: 2,
        ige_hole_x: 4,
    };

    apply_server_replay(0, &mut local, &mut opponents, &replay);

    assert_ne!(opponents[1].engine.state_hash(), before_hash);
    assert_eq!(opponents[1].incoming_garbage, 2);
}

#[test]
fn server_replay_of_own_slot_moves_the_local_engine() {
    let mut local = Engine::<10, 20>::new();
    local.reset(42);
    let before = local.state_hash();
    let mut opponents: Vec<OpponentView> = Vec::new();
    let replay = PktServerReplay {
        header: PacketHeader::new(PacketType::ServerReplay, 0),
        source_player: PlayerSlot(2),
        events: vec![hard_drop_event()],
        ige_garbage_lines: 5,
        ige_hole_x: 0,
    };
    apply_server_replay(2, &mut local, &mut opponents, &replay);
    assert_ne!(local.state_hash(), before);
    assert!(opponents.is_empty());
}

#[test]
fn missing_opponents_are_made_up() {
    let mut opponents: Vec<OpponentView> = Vec::new();
    ensure_opponent(&mut opponents, 2);
    assert_eq!(opponents.len(), 3);
    assert_eq!(opponents[0].name, "P0");
    assert_eq!(opponents[2].name, "P2");
    assert_eq!(opponents[2].status, ConnectionStatus::Online);
    ensure_opponent(&mut opponents, 1);
    assert_eq!(opponents.len(), 3);
    let mut many: Vec<OpponentView> = Vec::new();
    ensure_opponent(&mut many, 123);
    assert_eq!(many[123].name, "P123");
    assert_eq!(many[45].name, "P45");
}

#[test]
fn releases_do_not_act() {
    let mut engine = Engine::<10, 20>::new();
    engine.reset(7);
    let before = engine.state_hash();
    let mut ev = hard_drop_event();
    ev.pressed = false;
    apply_input_prediction(&mut engine, &ev);
    assert_eq!(engine.state_hash(), before);
    ev.pressed = true;
    apply_input_prediction(&mut engine, &ev);
    assert_ne!(engine.state_hash(), before);
}

#[test]
fn authority_packets_update_session_and_engine() {
    let mut local = Engine::<10, 20>::new();
    local.reset(42);
    let mut opponents: Vec<OpponentView> = Vec::new();
    let mut session = MultiplayerSession::new(MultiplayerMode::join_relay("ws://h", "ABCD"), 0);
    let own = local.state_hash();
    let hash = |h: u32| {
        AuthorityPacket::StateHash(PktStateHash { header: PacketHeader::new(PacketType::StateHash, 0), tick: TickNumber(5), hash: h })
    };
    assert!(apply_authority_packet(0, &mut local, &mut opponents, &mut session, hash(own)));
    assert_eq!(session.status, ConnectionStatus::Online);
    assert_eq!(session.last_server_hash, Some((TickNumber(5), own)));
    assert!(apply_authority_packet(0, &mut local, &mut opponents, &mut session, hash(own ^ 1)));
    assert_eq!(session.status, ConnectionStatus::Resyncing);
    assert!(apply_authority_packet(0, &mut local, &mut opponents, &mut session, AuthorityPacket::StateSnapshot(snapshot())));
    assert_eq!(session.status, ConnectionStatus::Online);
    let garbage = AuthorityPacket::IncomingGarbage(PktIncomingGarbage {
        header: PacketHeader::new(PacketType::IncomingGarbage, 0),
        incoming_lines: 3,
    });
    assert!(apply_authority_packet(0, &mut local, &mut opponents, &mut session, garbage));
    assert_eq!(local.state.pending_garbage, 3);
    assert!(!apply_authority_packet(0, &mut local, &mut opponents, &mut session, AuthorityPacket::Other));
}
