use tetris_core::errors::RelayError;
use tetris_core::protocol::{PacketType, PROTOCOL_VERSION};
use tetris_core::relay_room::{alloc_player_slot, PeerInfo, RoomManager, RoomState, Session};

fn peer(id: u64, slot: u8, token: &str) -> PeerInfo {
    PeerInfo { id, ready: false, session: Session::new(slot, format!("Player {}", slot + 1), false, 0, token.to_string()) }
}

#[test]
fn slot_allocation_reuses_lowest_free_slot() {
    assert_eq!(alloc_player_slot(&[]), 0);
    let first = peer(1, 0, "a");
    let second = peer(2, 1, "b");
    assert_eq!(alloc_player_slot(&[first.clone(), second.clone()]), 2);
    // The first player leaves: slot 0 is free again.
    assert_eq!(alloc_player_slot(&[second.clone()]), 0);
    let all = [peer(1, 0, "a"), peer(2, 1, "b"), peer(3, 2, "c"), peer(4, 3, "d")];
    assert_eq!(alloc_player_slot(&all), 3);
}

#[test]
fn reclaim_needs_away_human_and_exact_token() {
    let mut s = Session::new(0, "Player 1".to_string(), false, 0, "5f2c9e0d".to_string());
    assert!(!s.reclaimable_by("5f2c9e0d"), "a connected session cannot be reclaimed");
    s.mark_away();
    assert!(s.reclaimable_by("5f2c9e0d"));
    assert!(!s.reclaimable_by("0"), "a forged player id is not the token");
    assert!(!s.reclaimable_by(""), "an empty token is refused");
    s.unmark_away();
    assert!(!s.reclaimable_by("5f2c9e0d"));
    let mut bot = Session::new(1, "Bot".to_string(), true, 0x3f00_0000, String::new());
    bot.mark_away();
    assert!(!bot.reclaimable_by(""));
}

fn two_peer_room() -> RoomState {
    let mut room = RoomState::new("ABCD".to_string());
    room.add_peer(1, "tok-one".to_string()).unwrap();
    room.add_peer(2, "tok-two".to_string()).unwrap();
    room
}

#[test]
fn two_player_room_survives_one_leave() {
    let mut manager = RoomManager::new(4);
    manager.get_or_create_room("ABCD").unwrap();
    manager.join_room("ABCD").unwrap();
    let k = manager.room_index("ABCD").unwrap();
    manager.rooms[k].add_peer(1, "tok-one".to_string()).unwrap();
    manager.join_room("ABCD").unwrap();
    manager.rooms[k].add_peer(2, "tok-two".to_string()).unwrap();

    // One leaves: removing the peer and leaving must not close the room.
    manager.rooms[k].remove_peer(1);
    assert!(!manager.leave_room("ABCD"));

    assert_eq!(manager.room_peers("ABCD").unwrap().len(), 1);
    assert_eq!(manager.rooms[k].peers[0].id, 2);
    // The host left: the remaining peer takes over.
    assert_eq!(manager.rooms[k].host_peer_id, Some(2));
}

#[test]
fn manager_limits_rooms_and_closes_empty_ones() {
    let mut manager = RoomManager::new(1);
    assert_eq!(manager.get_or_create_room("ABCD").unwrap(), "ABCD");
    assert_eq!(manager.get_or_create_room("ABCD").unwrap(), "ABCD");
    assert_eq!(manager.rooms.len(), 1);
    assert!(matches!(manager.get_or_create_room("WXYZ"), Err(RelayError::RoomFull(m)) if m == "server at max room capacity"));
    assert!(matches!(manager.join_room("WXYZ"), Err(RelayError::RoomNotFound(c)) if c == "WXYZ"));
    assert!(matches!(manager.room_peers("WXYZ"), Err(RelayError::RoomNotFound(_))));
    for id in 1..=4u64 {
        manager.rooms[0].add_peer(id, format!("t{id}")).unwrap();
    }
    assert!(matches!(manager.join_room("ABCD"), Err(RelayError::RoomFull(c)) if c == "ABCD"));
    assert!(!manager.leave_room("ABCD"));
    for id in 1..=4u64 {
        manager.rooms[0].remove_peer(id);
    }
    assert!(manager.leave_room("ABCD"));
    assert!(manager.rooms.is_empty());
    assert!(!manager.leave_room("ABCD"));
    assert_eq!(manager.get_or_create_room("WXYZ").unwrap(), "WXYZ");
}

#[test]
fn all_peers_ready_returns_false_after_ready_revoked() {
    let mut room = two_peer_room();
    room.set_peer_ready(1, true).unwrap();
    room.set_peer_ready(2, true).unwrap();
    assert!(room.all_peers_ready());
    room.set_peer_ready(2, false).unwrap();
    assert!(!room.all_peers_ready());
}

#[test]
fn player_slot_allocation_reuses_lowest_free_slot() {
    let mut room = two_peer_room();
    room.remove_peer(1);
    assert_eq!(room.peers[0].session.player_id, 1);
    room.add_peer(3, "tok-three".to_string()).unwrap();
    let mut slots: Vec<u8> = room.peers.iter().map(|p| p.session.player_id).collect();
    slots.sort_unstable();
    assert_eq!(slots, vec![0, 1]);
    assert_eq!(room.peers[1].session.name, "Player 1");
}

#[test]
fn add_bot_peer_uses_normal_room_slot() {
    let mut room = RoomState::new("ABCD".to_string());
    room.add_peer(1, "tok-one".to_string()).unwrap();
    let half: f32 = 0.5;
    let slot = room.add_bot_peer(7, half.to_bits()).unwrap();
    let bot = room.peers.last().unwrap();
    assert_eq!(slot, 1);
    assert_eq!(bot.session.player_id, 1);
    assert!(bot.session.is_bot);
    assert!(bot.ready);
    assert_eq!(f32::from_bits(bot.session.temperature_bits), 0.5);
    assert_eq!(bot.session.name, "AI 1");
    assert_eq!(room.peers.len(), 2);
}

#[test]
fn reclaim_away_peer_restores_same_slot_on_matching_token() {
    let mut room = RoomState::new("ABCD".to_string());
    room.add_peer(1, "5f2c9e0d".to_string()).unwrap();
    let slot = room.peers[0].session.player_id;
    let token = room.peers[0].session.resume_token.clone();
    assert!(!token.is_empty());
    assert!(room.mark_peer_away(1));
    assert!(room.peer_is_away(1));
    let reclaimed = room.reclaim_away_peer(9, &token).expect("matching token must reclaim the away slot");
    assert_eq!(reclaimed, slot, "reclaim keeps original slot");
    assert!(!room.peers[0].session.away);
    assert_eq!(room.peers[0].id, 9, "peer rebound to new connection");
}

#[test]
fn reclaim_away_peer_rejects_forged_player_id_token() {
    let mut room = RoomState::new("ABCD".to_string());
    room.add_peer(1, "5f2c9e0d".to_string()).unwrap();
    let slot = room.peers[0].session.player_id;
    assert!(room.mark_peer_away(1));
    let forged = slot.to_string();
    assert!(room.reclaim_away_peer(9, &forged).is_none(), "forged player_id token must not reclaim the slot");
    assert!(room.reclaim_away_peer(9, "").is_none());
    assert_eq!(room.peers[0].id, 1);
}

#[test]
fn full_room_refuses_newcomers() {
    let mut room = RoomState::new("ABCD".to_string());
    for id in 1..=4u64 {
        room.add_peer(id, format!("t{id}")).unwrap();
    }
    assert!(matches!(room.add_peer(5, "t5".to_string()), Err(RelayError::RoomFull(_))));
    assert!(matches!(room.add_bot_peer(6, 0), Err(RelayError::RoomFull(_))));
    assert_eq!(room.peers.len(), 4);
}

#[test]
fn unknown_peer_is_reported() {
    let mut room = two_peer_room();
    assert!(matches!(room.set_peer_ready(42, true), Err(RelayError::PeerNotFound)));
    assert!(matches!(room.rename_peer(42, "x".to_string()), Err(RelayError::PeerNotFound)));
    assert!(!room.mark_peer_away(42));
    room.rename_peer(2, "Zed".to_string()).unwrap();
    assert_eq!(room.peers[1].session.name, "Zed");
}

#[test]
fn countdown_generations_detect_stale_starts() {
    let mut room = two_peer_room();
    let g = room.try_start_countdown().unwrap();
    assert_eq!(g, 1);
    assert!(room.try_start_countdown().is_none());
    assert!(room.countdown_generation_matches(g));
    room.set_peer_ready(1, true).unwrap();
    assert!(room.countdown_generation_matches(g));
    room.set_peer_ready(1, false).unwrap();
    assert!(!room.countdown_generation_matches(g));
    let g2 = room.try_start_countdown().unwrap();
    assert_eq!(g2, 3);
    room.cancel_countdown();
    assert!(!room.countdown_generation_matches(g2));
}

#[test]
fn snapshot_lists_every_peer() {
    let mut room = two_peer_room();
    room.add_bot_peer(3, 0).unwrap();
    room.set_peer_ready(2, true).unwrap();
    room.mark_peer_away(2);
    let pkt = room.snapshot();
    assert_eq!(pkt.header.version, PROTOCOL_VERSION);
    assert_eq!(pkt.header.packet_type, PacketType::RoomSnapshot);
    assert_eq!(pkt.room_code, "ABCD");
    assert_eq!(pkt.players.len(), 3);
    assert!(pkt.players[0].is_host && !pkt.players[1].is_host);
    assert!(pkt.players[1].ready && pkt.players[1].away);
    assert!(pkt.players[2].is_bot && pkt.players[2].ready);
    assert!(pkt.players.iter().all(|p| p.alive));
    room.reset_ready_states();
    assert!(room.peers.iter().all(|p| !p.ready));
}

#[test]
fn rename_cuts_to_name_limit() {
    let mut room = two_peer_room();
    room.rename_peer(1, "x".repeat(33)).unwrap();
    assert_eq!(room.peers[0].session.name, "x".repeat(32));
    room.rename_peer(1, "short".to_string()).unwrap();
    assert_eq!(room.peers[0].session.name, "short");
}

#[test]
fn one_room_per_code() {
    let mut m = RoomManager::new(4);
    m.get_or_create_room("ABCD").unwrap();
    m.get_or_create_room("ABCD").unwrap();
    m.get_or_create_room("WXYZ").unwrap();
    assert_eq!(m.rooms.len(), 2);
    assert!(m.leave_room("ABCD"));
    m.get_or_create_room("ABCD").unwrap();
    assert_eq!(m.rooms.iter().filter(|r| r.code == "ABCD").count(), 1);
}
