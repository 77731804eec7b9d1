use tetris_core::newtypes::{KeyAction, TickNumber};
use tetris_core::protocol::{
    InputEvent, PacketHeader, PacketType, PktAddBot, PktChatMessage, PktJoinRoom, PktKickPlayer,
    PktPlayerReady, PktReconnect, PktRemoveBot, PktReplay, PktResume, PktRoomSettings, PROTOCOL_VERSION,
};
use tetris_core::relay_handler::{
    accept_connection, conclude_countdown, countdown_step, handle_client_packet, header_is_replay,
    on_disconnect, on_grace_expired, packet_admissible, replay_packet_is_valid, room_code_from_path,
    settings_from_packet, valid_room_code,
    ClientPacket, DisconnectOutcome, MessageWindow, RelayAction, RoomRules, MAX_PACKET_BYTES,
};
use tetris_core::relay_room::RoomState;

fn make_event(tick: u64) -> InputEvent {
    let half: f32 = 0.5;
    InputEvent { key: KeyAction::KeyHardDrop, pressed: true, tick: TickNumber(tick), subframe_bits: half.to_bits() }
}

fn make_replay(player_id: u8, events: Vec<InputEvent>) -> PktReplay {
    PktReplay { header: PacketHeader::new(PacketType::Replay, player_id), events, start_tick: TickNumber(10) }
}

fn room_of_two() -> RoomState {
    let mut room = RoomState::new("ABCD".to_string());
    room.add_peer(1, "tok-host".to_string()).unwrap();
    room.add_peer(2, "tok-other".to_string()).unwrap();
    room
}

fn kick(target: u8) -> ClientPacket {
    ClientPacket::KickPlayer(PktKickPlayer { header: PacketHeader::new(PacketType::KickPlayer, 0), target_player_id: target })
}

fn ready(flag: bool) -> ClientPacket {
    ClientPacket::PlayerReady(PktPlayerReady { header: PacketHeader::new(PacketType::PlayerReady, 0), ready: flag })
}

#[test]
fn replay_packet_rejects_invalid_tick_window() {
    let pkt = make_replay(0, vec![make_event(131)]);
    assert!(!replay_packet_is_valid(&pkt));
}

#[test]
fn replay_window_edges() {
    assert!(replay_packet_is_valid(&make_replay(0, vec![make_event(10), make_event(130)])));
    assert!(!replay_packet_is_valid(&make_replay(0, vec![make_event(9)])));
    assert!(!replay_packet_is_valid(&make_replay(0, vec![])));
    assert!(!replay_packet_is_valid(&make_replay(0, vec![make_event(10); 121])));
    assert!(replay_packet_is_valid(&make_replay(0, vec![make_event(10); 120])));
}

#[test]
fn replay_subframe_must_lie_in_unit_interval() {
    let with = |x: f32| {
        let mut e = make_event(10);
        e.subframe_bits = x.to_bits();
        replay_packet_is_valid(&make_replay(0, vec![e]))
    };
    assert!(with(0.0));
    assert!(with(-0.0));
    assert!(with(0.999_999));
    assert!(with(f32::MIN_POSITIVE));
    assert!(!with(1.0));
    assert!(!with(-0.25));
    assert!(!with(f32::NAN));
    assert!(!with(f32::INFINITY));
    assert!(!with(2.0));
}

#[test]
fn replay_input_routes_by_connection_slot() {
    let mut room = room_of_two();
    let pkt = make_replay(99, vec![make_event(10)]);
    let acts = handle_client_packet(&mut room, 1, ClientPacket::Replay(pkt), 50);
    assert_eq!(acts.len(), 1);
    match &acts[0] {
        RelayAction::ForwardInputs(evs) => assert_eq!(evs[0].key, KeyAction::KeyHardDrop),
        _ => panic!("replay must be forwarded"),
    }
}

#[test]
fn replay_rate_limit_exempts_replay_packet_from_message_drop() {
    let header = PacketHeader::new(PacketType::Replay, 0);
    assert!(header_is_replay(&header));
    assert!(!header_is_replay(&PacketHeader::new(PacketType::ChatMessage, 0)));
    let mut window = MessageWindow::new(0);
    for _ in 0..60 {
        assert!(window.count_message(10, false));
    }
    assert!(!window.count_message(20, false), "the 61st message in a second drops");
    assert!(window.count_message(30, true), "replays pass the limit");
    // A new window opens after more than a second.
    assert!(window.count_message(1_000_000_031, false));
    assert_eq!(window.count, 1);
    assert_eq!(window.window_start_nanos, 1_000_000_031);
}

#[test]
fn packet_size_and_version_gate() {
    let header = PacketHeader::new(PacketType::JoinRoom, 0);
    assert!(packet_admissible(100, &header));
    assert!(packet_admissible(MAX_PACKET_BYTES, &header));
    assert!(!packet_admissible(MAX_PACKET_BYTES + 1, &header));
    let old = PacketHeader { version: PROTOCOL_VERSION - 1, packet_type: PacketType::JoinRoom, player_id: 0 };
    assert!(!packet_admissible(100, &old));
}

#[test]
fn countdown_cancel_invalidates_started_generation() {
    let mut room = room_of_two();
    let acts = handle_client_packet(&mut room, 1, ready(true), 50);
    assert!(matches!(acts.as_slice(), [RelayAction::BroadcastSnapshot, RelayAction::BroadcastCountdownCancel]));
    let acts = handle_client_packet(&mut room, 2, ready(true), 50);
    let generation = match acts.as_slice() {
        [RelayAction::BroadcastSnapshot, RelayAction::StartCountdown(g)] => *g,
        _ => panic!("all ready must start the countdown"),
    };
    assert!(room.countdown_generation_matches(generation));
    handle_client_packet(&mut room, 2, ready(false), 50);
    assert!(!room.countdown_generation_matches(generation));
    assert!(!countdown_step(&mut room, generation));
}

#[test]
fn countdown_runs_while_everyone_stays_ready() {
    let mut room = room_of_two();
    handle_client_packet(&mut room, 1, ready(true), 50);
    let acts = handle_client_packet(&mut room, 2, ready(true), 50);
    let generation = match acts.as_slice() {
        [_, RelayAction::StartCountdown(g)] => *g,
        _ => panic!("countdown expected"),
    };
    // A second all-ready message does not start a second countdown.
    let again = handle_client_packet(&mut room, 1, ready(true), 50);
    assert_eq!(again.len(), 1);
    for _ in 0..4 {
        assert!(countdown_step(&mut room, generation));
    }
    assert!(conclude_countdown(&mut room, true));
    assert!(room.peers.iter().all(|p| !p.ready));
    assert!(!room.countdown_active);
}

#[test]
fn countdown_without_players_is_called_off() {
    let mut room = room_of_two();
    handle_client_packet(&mut room, 1, ready(true), 50);
    handle_client_packet(&mut room, 2, ready(true), 50);
    assert!(!conclude_countdown(&mut room, false));
    assert!(room.peers.iter().all(|p| p.ready));
    assert!(!room.countdown_active);
}

#[test]
fn kick_player_rejected_for_non_host() {
    let mut room = room_of_two();
    let host_slot = room.peers[0].session.player_id;
    let acts = handle_client_packet(&mut room, 2, kick(host_slot), 50);
    assert!(acts.is_empty());
    assert_eq!(room.peers.len(), 2);
}

#[test]
fn kick_player_removes_target_for_host() {
    let mut room = room_of_two();
    let target_slot = room.peers.iter().find(|p| p.id == 2).unwrap().session.player_id;
    let acts = handle_client_packet(&mut room, 1, kick(target_slot), 50);
    assert!(matches!(
        acts.as_slice(),
        [RelayAction::Rebroadcast, RelayAction::ActorPlayerLeave { slot }, RelayAction::BroadcastSnapshot] if *slot == target_slot
    ));
    assert_eq!(room.peers.len(), 1);
    assert_eq!(room.peers[0].id, 1);
}

#[test]
fn host_cannot_kick_itself() {
    let mut room = room_of_two();
    let acts = handle_client_packet(&mut room, 1, kick(0), 50);
    assert!(acts.is_empty());
    assert_eq!(room.peers.len(), 2);
}

#[test]
fn bots_join_and_only_bots_are_removed_as_bots() {
    let mut room = room_of_two();
    let quarter: f32 = 0.25;
    let add = ClientPacket::AddBot(PktAddBot { header: PacketHeader::new(PacketType::AddBot, 0), temperature_bits: quarter.to_bits() });
    let acts = handle_client_packet(&mut room, 2, add, 77);
    assert!(matches!(
        acts.as_slice(),
        [RelayAction::BroadcastSnapshot, RelayAction::ActorAddBot { slot: 2, temperature_bits }] if *temperature_bits == quarter.to_bits()
    ));
    assert_eq!(room.peers[2].id, 77);
    let remove = |slot: u8| ClientPacket::RemoveBot(PktRemoveBot { header: PacketHeader::new(PacketType::RemoveBot, 0), target_player_id: slot });
    // Not the host: refused.
    assert!(handle_client_packet(&mut room, 2, remove(2), 0).is_empty());
    // A human is no bot: refused.
    assert!(handle_client_packet(&mut room, 1, remove(1), 0).is_empty());
    let acts = handle_client_packet(&mut room, 1, remove(2), 0);
    assert!(matches!(acts.as_slice(), [RelayAction::ActorPlayerLeave { slot: 2 }, RelayAction::BroadcastSnapshot]));
    assert_eq!(room.peers.len(), 2);
}

#[test]
fn settings_are_host_only_and_clamped() {
    let mut room = room_of_two();
    let pkt = PktRoomSettings {
        header: PacketHeader::new(PacketType::RoomSettings, 0),
        max_players: 4,
        start_level: 40,
        attack_mult_bits: 0,
        garbage_delay_secs: 30,
        allow_hold: false,
        initial_garbage_lines: 50,
    };
    let s = settings_from_packet(&pkt);
    assert_eq!(s.rules, RoomRules { start_level: 15, hold_enabled: false, initial_garbage_lines: 12 });
    assert_eq!(s.garbage_delay_ticks, 600);
    let low = PktRoomSettings { start_level: 0, garbage_delay_secs: 2, initial_garbage_lines: 3, ..pkt.clone() };
    let s = settings_from_packet(&low);
    assert_eq!(s.rules.start_level, 1);
    assert_eq!(s.rules.initial_garbage_lines, 3);
    assert_eq!(s.garbage_delay_ticks, 120);
    assert!(handle_client_packet(&mut room, 2, ClientPacket::RoomSettings(pkt.clone()), 0).is_empty());
    let acts = handle_client_packet(&mut room, 1, ClientPacket::RoomSettings(pkt), 0);
    assert!(matches!(acts.as_slice(), [RelayAction::StoreSettings(_), RelayAction::Rebroadcast]));
}

#[test]
fn chat_rename_reconnect_and_resume() {
    let mut room = room_of_two();
    let chat = ClientPacket::ChatMessage(PktChatMessage {
        header: PacketHeader::new(PacketType::ChatMessage, 9),
        message: "gg".to_string(),
        timestamp: "12:00".to_string(),
    });
    let acts = handle_client_packet(&mut room, 2, chat, 0);
    match acts.as_slice() {
        [RelayAction::BroadcastChat(c)] => {
            assert_eq!(c.header.player_id, 1, "the sender's slot, not the claimed one");
            assert_eq!(c.message, "gg");
            assert_eq!(c.timestamp, "12:00");
        },
        _ => panic!("chat must be broadcast"),
    }
    let join = ClientPacket::JoinRoom(PktJoinRoom {
        header: PacketHeader::new(PacketType::JoinRoom, 0),
        room_code: "ABCD".to_string(),
        player_name: "Ann".to_string(),
    });
    let acts = handle_client_packet(&mut room, 1, join, 0);
    assert!(matches!(acts.as_slice(), [RelayAction::BroadcastSnapshot]));
    assert_eq!(room.peers[0].session.name, "Ann");
    let reconnect = ClientPacket::Reconnect(PktReconnect {
        header: PacketHeader::new(PacketType::Reconnect, 0),
        last_good_tick: TickNumber(100),
        client_hashes: vec![(TickNumber(100), 0xDEAD_BEEF)],
    });
    let acts = handle_client_packet(&mut room, 2, reconnect, 0);
    match acts.as_slice() {
        [RelayAction::ActorReconnect { slot, client_hashes }] => {
            assert_eq!(*slot, 1);
            assert_eq!(client_hashes, &vec![(TickNumber(100), 0xDEAD_BEEF)]);
        },
        _ => panic!("reconnect must reach the game"),
    }
    let resume = ClientPacket::Resume(PktResume {
        header: PacketHeader::new(PacketType::Resume, 0),
        socket_id: "s".to_string(),
        resume_token: "tok-other".to_string(),
    });
    assert!(handle_client_packet(&mut room, 2, resume, 0).is_empty());
    // Unknown connections get nothing.
    let chat = ClientPacket::ChatMessage(PktChatMessage {
        header: PacketHeader::new(PacketType::ChatMessage, 0),
        message: "x".to_string(),
        timestamp: String::new(),
    });
    assert!(handle_client_packet(&mut room, 42, chat, 0).is_empty());
    assert!(handle_client_packet(&mut room, 1, ClientPacket::Other, 0).is_empty());
}

#[test]
fn handshake_joins_reclaims_and_refuses() {
    let mut room = RoomState::new("ABCD".to_string());
    let (ok, accept) = accept_connection(&mut room, 1, "", "tok-1".to_string());
    assert!(ok);
    assert_eq!(accept.header.packet_type, PacketType::ServerAccept);
    assert_eq!(accept.assigned_player_id, 0);
    assert_eq!(accept.max_players, 4);
    assert_eq!(accept.resume_token, "tok-1");
    // The player drops in a running game and comes back with its token.
    assert_eq!(on_disconnect(&mut room, 1, true), DisconnectOutcome::Away { slot: 0 });
    let (ok, accept) = accept_connection(&mut room, 5, "tok-1", "tok-new".to_string());
    assert!(ok);
    assert_eq!(accept.assigned_player_id, 0);
    assert_eq!(accept.resume_token, "tok-1");
    assert_eq!(room.peers.len(), 1);
    assert_eq!(room.peers[0].id, 5);
    // A forged token joins anew instead.
    let (ok, accept) = accept_connection(&mut room, 6, "0", "tok-6".to_string());
    assert!(ok);
    assert_eq!(accept.assigned_player_id, 1);
    accept_connection(&mut room, 7, "", "tok-7".to_string());
    accept_connection(&mut room, 8, "", "tok-8".to_string());
    let (ok, reject) = accept_connection(&mut room, 9, "", "tok-9".to_string());
    assert!(!ok);
    assert_eq!(reject.assigned_player_id, u8::MAX);
    assert_eq!(reject.max_players, 0);
    assert!(reject.resume_token.is_empty());
    assert_eq!(room.peers.len(), 4);
}

#[test]
fn disconnects_in_lobby_and_grace_expiry() {
    let mut room = room_of_two();
    assert_eq!(on_disconnect(&mut room, 1, false), DisconnectOutcome::Removed { broadcast: true });
    assert_eq!(room.host_peer_id, Some(2));
    assert_eq!(on_disconnect(&mut room, 2, true), DisconnectOutcome::Away { slot: 1 });
    assert_eq!(on_grace_expired(&mut room, 2), Some(false));
    assert!(room.peers.is_empty());
    // A reclaimed session is left alone when its grace window ends.
    let mut room = room_of_two();
    on_disconnect(&mut room, 2, true);
    accept_connection(&mut room, 3, "tok-other", String::new());
    assert_eq!(on_grace_expired(&mut room, 2), None);
    assert_eq!(room.peers.len(), 2);
}

#[test]
fn room_shape_is_kept_whatever_clients_send() {
    let mut room = room_of_two();
    let bot = |bits: u32| ClientPacket::AddBot(PktAddBot { header: PacketHeader::new(PacketType::AddBot, 0), temperature_bits: bits });
    for i in 0..6u64 {
        handle_client_packet(&mut room, 2, bot(0), 100 + i);
    }
    assert_eq!(room.peers.len(), 4);
    handle_client_packet(&mut room, 1, kick(2), 0);
    handle_client_packet(&mut room, 1, bot(1), 200);
    assert_eq!(room.peers.len(), 4);
    let mut slots: Vec<u8> = room.peers.iter().map(|p| p.session.player_id).collect();
    slots.sort_unstable();
    slots.dedup();
    assert_eq!(slots.len(), room.peers.len());
}

#[test]
fn long_chat_and_names_are_cut() {
    let mut room = room_of_two();
    let chat = ClientPacket::ChatMessage(PktChatMessage {
        header: PacketHeader::new(PacketType::ChatMessage, 0),
        message: "a".repeat(300),
        timestamp: String::new(),
    });
    match handle_client_packet(&mut room, 1, chat, 0).as_slice() {
        [RelayAction::BroadcastChat(c)] => assert_eq!(c.message, "a".repeat(256)),
        _ => panic!("chat must be broadcast"),
    }
    let exact = ClientPacket::ChatMessage(PktChatMessage {
        header: PacketHeader::new(PacketType::ChatMessage, 0),
        message: "b".repeat(256),
        timestamp: String::new(),
    });
    match handle_client_packet(&mut room, 1, exact, 0).as_slice() {
        [RelayAction::BroadcastChat(c)] => assert_eq!(c.message, "b".repeat(256)),
        _ => panic!("chat must be broadcast"),
    }
    let join = ClientPacket::JoinRoom(PktJoinRoom {
        header: PacketHeader::new(PacketType::JoinRoom, 0),
        room_code: "ABCD".to_string(),
        player_name: "N".repeat(40),
    });
    handle_client_packet(&mut room, 2, join, 0);
    assert_eq!(room.peers[1].session.name, "N".repeat(32));
    // Two-byte characters: 16 of them fill the 32 bytes exactly.
    let join = ClientPacket::JoinRoom(PktJoinRoom {
        header: PacketHeader::new(PacketType::JoinRoom, 0),
        room_code: "ABCD".to_string(),
        player_name: "é".repeat(20),
    });
    handle_client_packet(&mut room, 1, join, 0);
    assert_eq!(room.peers[0].session.name, "é".repeat(16));
}

#[test]
fn room_codes_are_four_ascii_letters_or_digits_in_upper_case() {
    assert!(valid_room_code("AB12"));
    assert!(valid_room_code("abcd"));
    assert!(!valid_room_code("ABC"));
    assert!(!valid_room_code("ABCDE"));
    assert!(!valid_room_code("AB-D"));
    assert!(!valid_room_code("ÄBC"));
    assert_eq!(room_code_from_path("ab1z"), Some("AB1Z".to_string()));
    assert_eq!(room_code_from_path("ABCD"), Some("ABCD".to_string()));
    assert_eq!(room_code_from_path("ab!d"), None);
    assert_eq!(room_code_from_path("abcde"), None);
    // Upper-casing comes first: the sharp s becomes two letters.
    assert_eq!(room_code_from_path("ßab"), Some("SSAB".to_string()));
}
