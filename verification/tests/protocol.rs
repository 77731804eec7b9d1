use tetris_core::net_protocol;
use tetris_core::protocol::{PacketHeader, PacketType, PROTOCOL_VERSION};

#[test]
fn protocol_test_protocol_version() {
    assert_eq!(PROTOCOL_VERSION, 0x11);
    assert_eq!(net_protocol::PROTOCOL_VERSION, 0x10);
}

#[test]
fn protocol_test_client_join_type() {
    assert_eq!(PacketType::ClientJoin.to_u8(), 1);
    assert_eq!(net_protocol::PacketType::ClientJoin.to_u8(), 1);
}

#[test]
fn test_room_packet_types() {
    assert_eq!(PacketType::CreateRoom.to_u8(), 12);
    assert_eq!(PacketType::SpectateSwitch.to_u8(), 21);
    assert_eq!(PacketType::RoomSnapshot.to_u8(), 22);
}

#[test]
fn test_protocol_version_0x11() {
    assert_eq!(PROTOCOL_VERSION, 0x11);
}

#[test]
fn test_new_packet_types() {
    assert_eq!(PacketType::Replay.to_u8(), 23);
    assert_eq!(PacketType::ServerReplay.to_u8(), 24);
    assert_eq!(PacketType::StateHash.to_u8(), 25);
    assert_eq!(PacketType::StateSnapshot.to_u8(), 26);
    assert_eq!(PacketType::Reconnect.to_u8(), 27);
    assert_eq!(PacketType::ReconnectAck.to_u8(), 28);
    assert_eq!(PacketType::Resume.to_u8(), 29);
    assert_eq!(PacketType::IncomingGarbage.to_u8(), 31);
    assert_eq!(PacketType::AddBot.to_u8(), 34);
    assert_eq!(PacketType::CountdownCancel.to_u8(), 35);
}

#[test]
fn test_kick_remove_packet_types() {
    assert_eq!(PacketType::KickPlayer.to_u8(), 36);
    assert_eq!(PacketType::RemoveBot.to_u8(), 37);
}

#[test]
fn test_delta_sync_packet_type() {
    assert_eq!(net_protocol::PacketType::DeltaSync.to_u8(), 10);
    assert_eq!(net_protocol::PacketType::ResyncRequest.to_u8(), 11);
}

#[test]
fn packet_header_new_uses_current_version() {
    let h = PacketHeader::new(PacketType::Standings, 3);
    assert_eq!(h.version, 0x11);
    assert_eq!(h.packet_type, PacketType::Standings);
    assert_eq!(h.player_id, 3);
    assert_eq!(PacketType::Standings.to_u8(), 38);
}
