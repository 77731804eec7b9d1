use tetris_core::engine::{Action, Engine};
use tetris_core::errors::NetError;
use tetris_core::net_driver::{action_packet, attack_packet, resync_request_packet, NetGameDriver, NetPacket, PlayerKey, RoomSettings};
use tetris_core::net_protocol::{PacketHeader, PacketType, PktBatch, PktDeltaSync, PROTOCOL_VERSION};
use tetris_core::rooms::RoomMode;
use tetris_core::types::{Piece, Rot};

fn header(packet_type: PacketType, player_id: u8) -> PacketHeader {
    PacketHeader { version: PROTOCOL_VERSION, packet_type, player_id }
}

fn delta(player_id: u8, seq: u32, changed_rows: Vec<(u8, u64)>) -> PktDeltaSync {
    PktDeltaSync {
        header: header(PacketType::DeltaSync, player_id),
        seq,
        changed_rows,
        piece: Piece::T,
        rot: Rot::R0,
        x: 3,
        y: 0,
        hold: Piece::I,
        hold_used: false,
        next: [Piece::I; 3],
    }
}

#[test]
fn test_slotmap_multi_player_routing() {
    let local_engine = Engine::<10, 20>::new();
    let mut driver = NetGameDriver::new(local_engine);

    let remote_engine = Engine::<10, 20>::new();
    let remote_key = driver.add_player(remote_engine);

    assert_eq!(driver.player_key_from_id(0), Some(driver.local_key));
    assert_eq!(driver.player_key_from_id(1), Some(remote_key));
    assert_eq!(driver.player_key_from_id(2), None);

    let r = driver.handle_packet(header(PacketType::PlayerAction, 1), NetPacket::PlayerAction { action: Action::MoveLeft });
    assert!(r.is_ok());
}

#[test]
fn test_player_attack_routes_to_local() {
    let local_engine = Engine::<10, 20>::new();
    let mut driver = NetGameDriver::new(local_engine);

    let remote_engine = Engine::<10, 20>::new();
    driver.add_player(remote_engine);

    let initial_garbage = driver.engines[driver.local_key.0].unwrap().state.pending_garbage;
    // Attack with player_id=0 targets local engine
    driver
        .handle_packet(header(PacketType::PlayerAttack, 0), NetPacket::PlayerAttack { lines: 3, hole_x: 5 })
        .unwrap();
    assert_eq!(driver.engines[driver.local_key.0].unwrap().state.pending_garbage, initial_garbage + 3);
}

#[test]
fn test_remove_player() {
    let local_engine = Engine::<10, 20>::new();
    let mut driver = NetGameDriver::new(local_engine);

    let remote_engine = Engine::<10, 20>::new();
    let remote_key = driver.add_player(remote_engine);

    assert!(driver.engines[remote_key.0].is_some());
    driver.remove_player(remote_key);
    assert!(driver.engines[remote_key.0].is_none());
    assert!(driver.engines[driver.local_key.0].is_some());
}

#[test]
fn test_delta_encode_no_change() {
    let local_engine = Engine::<10, 20>::new();
    let mut driver = NetGameDriver::new(local_engine);

    let first = driver.delta_encode(driver.local_key, 0);
    assert!(first.is_some());
    assert_eq!(first.unwrap().seq, 0);

    let second = driver.delta_encode(driver.local_key, 0);
    assert!(second.is_some());
    assert!(second.as_ref().unwrap().changed_rows.is_empty());
}

#[test]
fn test_delta_encode_single_row() {
    let local_engine = Engine::<10, 20>::new();
    let mut driver = NetGameDriver::new(local_engine);

    let _ = driver.delta_encode(driver.local_key, 0);

    let mut e = driver.engines[driver.local_key.0].unwrap();
    e.state.board.rows[19] = 0x3FF;
    driver.engines[driver.local_key.0] = Some(e);

    let delta = driver.delta_encode(driver.local_key, 0).unwrap();
    assert_eq!(delta.changed_rows.len(), 1);
    assert_eq!(delta.changed_rows[0], (19, 0x3FF));
}

#[test]
fn test_seq_increment() {
    let local_engine = Engine::<10, 20>::new();
    let mut driver = NetGameDriver::new(local_engine);

    assert_eq!(driver.seq, 0);
    driver.delta_encode(driver.local_key, 0);
    assert_eq!(driver.seq, 1);
    driver.delta_encode(driver.local_key, 0);
    assert_eq!(driver.seq, 2);
}

#[test]
fn test_handle_delta_sync_apply() {
    let local_engine = Engine::<10, 20>::new();
    let mut driver = NetGameDriver::new(local_engine);
    let remote_engine = Engine::<10, 20>::new();
    driver.add_player(remote_engine);

    let pkt = delta(1, 0, vec![(19, 0x3FF)]);
    driver.handle_packet(pkt.header, NetPacket::DeltaSync(pkt.clone())).unwrap();

    let remote_key = driver.player_key_from_id(1).unwrap();
    assert_eq!(driver.engines[remote_key.0].unwrap().state.board.rows[19], 0x3FF);
}

#[test]
fn test_tick_all_deterministic() {
    let mut driver = NetGameDriver::<10, 20>::new(Engine::new());
    for i in 0..7 {
        let mut engine = Engine::<10, 20>::new();
        engine.reset((42 + i * 100) as u32);
        driver.add_player(engine);
    }
    assert_eq!(driver.engines.len(), 8);

    let mut driver2 = NetGameDriver::<10, 20>::new(Engine::new());
    for i in 0..7 {
        let mut engine = Engine::<10, 20>::new();
        engine.reset((42 + i * 100) as u32);
        driver2.add_player(engine);
    }

    driver.tick_all(16);
    driver.tick_all(16);
    driver.tick_all(16);
    driver2.tick_all(16);
    driver2.tick_all(16);
    driver2.tick_all(16);

    for key in 0..driver.engines.len() {
        assert_eq!(
            driver.engines[key].unwrap().state_hash(),
            driver2.engines[key].unwrap().state_hash(),
            "engine state hash mismatch for player {:?}",
            key
        );
    }
}

#[test]
fn test_queue_and_flush() {
    let mut driver = NetGameDriver::<10, 20>::new(Engine::new());
    driver.queue_packet(vec![1, 2, 3]);
    driver.queue_packet(vec![4, 5, 6]);
    assert_eq!(driver.pending_packets.len(), 2);

    let batch = PktBatch { packets: std::mem::take(&mut driver.pending_packets) };
    assert_eq!(batch.packets.len(), 2);
    assert!(driver.pending_packets.is_empty());
}

#[test]
fn test_handle_delta_sync_seq_gap() {
    let local_engine = Engine::<10, 20>::new();
    let mut driver = NetGameDriver::new(local_engine);
    let remote_engine = Engine::<10, 20>::new();
    driver.add_player(remote_engine);

    let pkt = delta(1, 0, vec![]);
    driver.handle_packet(pkt.header, NetPacket::DeltaSync(pkt.clone())).unwrap();

    let seq_before = driver.last_remote_seq;
    let gap_pkt = delta(1, 5, vec![]);
    let result = driver.handle_packet(gap_pkt.header, NetPacket::DeltaSync(gap_pkt.clone()));
    assert!(result.is_err());
    match result.unwrap_err() {
        NetError::Protocol(msg) => assert!(msg.contains("seq gap")),
        other => panic!("unexpected error {other:?}"),
    }
    assert_eq!(driver.last_remote_seq, seq_before);
}

#[test]
fn room_lobby_flow() {
    let mut driver = NetGameDriver::<10, 20>::new(Engine::new());
    driver.create_room(RoomSettings { max_players: 2, ..RoomSettings::default() }, "host", "u0");
    assert_eq!(driver.player_infos.len(), 1);
    assert!(driver.join_room(1, "guest", "u1").is_ok());
    assert!(driver.join_room(2, "late", "u2").is_err());
    driver.set_ready(0, true);
    assert_eq!(driver.room_mode, RoomMode::Lobby);
    driver.set_ready(1, true);
    assert_eq!(driver.room_mode, RoomMode::Countdown(3));
    assert_eq!(driver.tick_countdown(), Some(2));
    assert_eq!(driver.tick_countdown(), Some(1));
    assert_eq!(driver.tick_countdown(), Some(0));
    assert_eq!(driver.room_mode, RoomMode::Countdown(0));
    assert_eq!(driver.tick_countdown(), Some(0));
    assert_eq!(driver.room_mode, RoomMode::Playing);
    assert!(driver.player_infos.iter().all(|p| p.alive && !p.ready));
    assert_eq!(driver.route_attack(4, 0), Some(1));
    assert_eq!(driver.route_attack(4, 1), Some(0));
    driver.mark_dead(1);
    assert_eq!(driver.room_mode, RoomMode::GameOver);
    assert_eq!(driver.route_attack(4, 0), None);
    driver.reset_to_lobby();
    assert_eq!(driver.room_mode, RoomMode::Lobby);
    driver.handle_player_leave(0);
    assert_eq!(driver.host_player_id, 1);
    assert_eq!(driver.player_infos.len(), 1);
}

#[test]
fn game_start_seed_is_handed_out_once() {
    let mut driver = NetGameDriver::<10, 20>::new(Engine::new());
    let h = header(PacketType::GameStart, 0);
    assert_eq!(driver.handle_packet(h, NetPacket::GameStart { random_seed: 9 }).unwrap(), None);
    driver.set_on_game_start();
    assert_eq!(driver.handle_packet(h, NetPacket::GameStart { random_seed: 9 }).unwrap(), Some(9));
    assert_eq!(driver.handle_packet(h, NetPacket::GameStart { random_seed: 9 }).unwrap(), None);
    let bad = PacketHeader { version: 0x11, ..h };
    assert!(driver.handle_packet(bad, NetPacket::Ignored).is_err());
}

#[test]
fn removed_player_ids_are_reused_lowest_first() {
    let mut driver = NetGameDriver::<10, 20>::new(Engine::new());
    let k1 = driver.add_player(Engine::new());
    let k2 = driver.add_player(Engine::new());
    assert_eq!(driver.player_key_from_id(2), Some(k2));
    driver.remove_player(k1);
    assert_eq!(driver.player_key_from_id(1), None);
    let k3 = driver.add_player(Engine::new());
    assert_eq!(driver.player_key_from_id(1), Some(k3));
}

#[test]
fn batches_take_the_queue() {
    let mut driver = NetGameDriver::<10, 20>::new(Engine::new());
    assert!(driver.take_batch().is_none());
    driver.queue_packet(vec![1, 2, 3]);
    driver.queue_packet(vec![4]);
    let batch = driver.take_batch().unwrap();
    assert_eq!(batch.packets, vec![vec![1, 2, 3], vec![4]]);
    assert!(driver.pending_packets.is_empty());
    assert!(driver.take_batch().is_none());
}

#[test]
fn outgoing_packets_carry_the_local_player() {
    let a = action_packet(3, Action::HardDrop);
    assert_eq!(a.header, header(PacketType::PlayerAction, 3));
    assert_eq!(a.action, Action::HardDrop);
    let g = attack_packet(1, 4, 7);
    assert_eq!(g.header, header(PacketType::PlayerAttack, 1));
    assert_eq!((g.lines, g.hole_x), (4, 7));
    let r = resync_request_packet(2, 99);
    assert_eq!(r.header, header(PacketType::ResyncRequest, 2));
    assert_eq!(r.last_good_seq, 99);
}

#[test]
fn state_sync_packet_mirrors_the_engine() {
    let mut engine = Engine::<10, 20>::new();
    engine.reset(42);
    let st = engine.state;
    let driver = NetGameDriver::<10, 20>::new(engine);
    let pkt = driver.state_sync_packet(driver.local_key, 0).unwrap();
    assert_eq!(pkt.header, header(PacketType::StateSync, 0));
    assert_eq!(pkt.board_rows, st.board.rows.to_vec());
    assert_eq!((pkt.piece, pkt.rot, pkt.x, pkt.y), (st.piece, st.rot, st.x, st.y));
    assert_eq!(pkt.next, [st.next[0], st.next[1], st.next[2]]);
    assert_eq!(pkt.rng_state, st.rng);
    match driver.state_sync_packet(PlayerKey(9), 0) {
        Err(NetError::Protocol(m)) => assert_eq!(m, "invalid player key"),
        _ => panic!("an unknown key is refused"),
    }
}

#[test]
fn test_send_action_header() {
    let pkt = action_packet(0, Action::MoveLeft);
    assert_eq!(pkt.header.version, PROTOCOL_VERSION);
    assert_eq!(pkt.header.packet_type, PacketType::PlayerAction);
    assert_eq!(pkt.header.player_id, 0);
    assert_eq!(pkt.action, Action::MoveLeft);
}

#[test]
fn protocol_errors_say_what_went_wrong() {
    let mut driver = NetGameDriver::<10, 20>::new(Engine::new());
    driver.add_player(Engine::new());
    let old = PacketHeader { version: PROTOCOL_VERSION - 1, packet_type: PacketType::PlayerAction, player_id: 1 };
    match driver.handle_packet(old, NetPacket::PlayerAction { action: Action::MoveLeft }) {
        Err(NetError::Protocol(m)) => assert_eq!(m, format!("protocol version mismatch: got {}, expected {}", PROTOCOL_VERSION - 1, PROTOCOL_VERSION)),
        _ => panic!("an old version is refused"),
    }
    let first = delta(1, 0, vec![]);
    driver.handle_packet(first.header, NetPacket::DeltaSync(first.clone())).unwrap();
    let gap = delta(1, 1234567, vec![]);
    match driver.handle_packet(gap.header, NetPacket::DeltaSync(gap.clone())) {
        Err(NetError::Protocol(m)) => assert_eq!(m, "seq gap: expected 1, got 1234567 (resync needed)"),
        _ => panic!("a gap is refused"),
    }
    let mut far = delta(1, 1, vec![]);
    far.x = 100;
    match driver.handle_packet(far.header, NetPacket::DeltaSync(far.clone())) {
        Err(NetError::Protocol(m)) => assert_eq!(m, "position out of range"),
        _ => panic!("a piece off the board is refused"),
    }
}

#[test]
fn batches_are_handled_in_order_and_stop_at_the_first_error() {
    let mut driver = NetGameDriver::<10, 20>::new(Engine::new());
    driver.add_player(Engine::new());
    let d0 = delta(1, 0, vec![]);
    let d1 = delta(1, 1, vec![(19, 0b1)]);
    let batch = NetPacket::Batch(vec![
        (d0.header, NetPacket::DeltaSync(d0.clone())),
        (d1.header, NetPacket::DeltaSync(d1.clone())),
    ]);
    assert_eq!(driver.handle_packet(header(PacketType::DeltaSync, 1), batch).unwrap(), None);
    assert_eq!(driver.last_remote_seq, 1);
    // The third delta applies, the gap after it stops the batch.
    let d2 = delta(1, 2, vec![]);
    let gap = delta(1, 9, vec![]);
    let after = delta(1, 3, vec![]);
    let batch = NetPacket::Batch(vec![
        (d2.header, NetPacket::DeltaSync(d2.clone())),
        (gap.header, NetPacket::DeltaSync(gap.clone())),
        (after.header, NetPacket::DeltaSync(after.clone())),
    ]);
    match driver.handle_packet(header(PacketType::DeltaSync, 1), batch) {
        Err(NetError::Protocol(msg)) => assert!(msg.contains("seq gap")),
        _ => panic!("the gap must stop the batch"),
    }
    assert_eq!(driver.last_remote_seq, 2);
}

#[test]
fn batched_game_start_and_nested_batches() {
    let mut driver = NetGameDriver::<10, 20>::new(Engine::new());
    driver.set_on_game_start();
    let gs = header(PacketType::GameStart, 0);
    let inner = NetPacket::Batch(vec![
        (gs, NetPacket::GameStart { random_seed: 5 }),
        (gs, NetPacket::GameStart { random_seed: 6 }),
    ]);
    let outer = NetPacket::Batch(vec![
        (gs, inner),
        (gs, NetPacket::GameStart { random_seed: 7 }),
    ]);
    assert_eq!(driver.handle_packet(gs, outer).unwrap(), Some(5));
    assert!(!driver.game_start_armed);
}

#[test]
fn undecodable_and_foreign_batches_are_refused() {
    let mut driver = NetGameDriver::<10, 20>::new(Engine::new());
    let bad = NetPacket::Batch(vec![(header(PacketType::PlayerAction, 0), NetPacket::Undecodable("eof".to_string()))]);
    match driver.handle_packet(header(PacketType::PlayerAction, 0), bad) {
        Err(NetError::Decode(msg)) => assert_eq!(msg, "eof"),
        _ => panic!("a body that did not decode is a decode error"),
    }
    let foreign = PacketHeader { version: PROTOCOL_VERSION + 1, ..header(PacketType::PlayerAction, 0) };
    match driver.handle_packet(foreign, NetPacket::Batch(vec![])) {
        Err(NetError::Protocol(msg)) => assert!(msg.contains("protocol version mismatch")),
        _ => panic!("another version is refused"),
    }
}

#[test]
fn a_batch_of_one_acts_as_its_packet() {
    let mut alone = NetGameDriver::<10, 20>::new(Engine::new());
    let mut batched = NetGameDriver::<10, 20>::new(Engine::new());
    let h = header(PacketType::PlayerAction, 0);
    let r1 = alone.handle_packet(h, NetPacket::PlayerAction { action: Action::HardDrop });
    let r2 = batched.handle_packet(h, NetPacket::Batch(vec![(h, NetPacket::PlayerAction { action: Action::HardDrop })]));
    assert_eq!(r1.unwrap(), r2.unwrap());
    let a = alone.engines[0].as_ref().unwrap().state_hash();
    let b = batched.engines[0].as_ref().unwrap().state_hash();
    assert_eq!(a, b);
}

#[test]
fn seeded_start_restarts_every_engine_alike() {
    assert_eq!(tetris_core::net_driver::start_seed(None), 42);
    assert_eq!(tetris_core::net_driver::start_seed(Some(0x1_0000_0007)), 7);
    let mut driver = NetGameDriver::<10, 20>::new(Engine::new());
    driver.add_player(Engine::new());
    driver.start_game_seeded(9);
    let mut e = Engine::<10, 20>::new();
    e.reset_with_level(9, driver.room_settings.start_level as u32);
    for slot in driver.engines.iter() {
        assert_eq!(slot.as_ref().unwrap().state_hash(), e.state_hash());
    }
    assert_eq!(driver.room_mode, RoomMode::Playing);
}
