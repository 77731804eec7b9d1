use tetris_core::network_manager::NetworkManager;
use tetris_core::rooms::Role;

#[test]
fn host_records_clients_with_rolling_ids() {
    let mut net = NetworkManager::new();
    assert_eq!(net.role(), Role::Unassigned);
    assert!(!net.is_connected());
    net.start_server(4);
    assert_eq!(net.role(), Role::Host);
    assert!(net.is_connected());
    assert_eq!(net.local_player_id(), 0);
    assert_eq!(net.max_players(), 4);
    net.on_client_connected(100);
    net.on_client_connected(200);
    assert_eq!(net.connected_count(), 2);
    assert_eq!(net.connected_clients[&100], 1);
    assert_eq!(net.connected_clients[&200], 2);
    net.on_client_disconnected(100);
    assert_eq!(net.connected_count(), 1);
    net.on_client_connected(300);
    assert_eq!(net.connected_clients[&300], 3);
}

#[test]
fn host_keeps_at_most_eight_clients() {
    let mut net = NetworkManager::new();
    net.start_server(8);
    for id in 0..10u64 {
        net.on_client_connected(id);
    }
    assert_eq!(net.connected_count(), 8);
    assert!(!net.connected_clients.contains_key(&8));
    assert_eq!(net.next_client_id, 9);
}

#[test]
fn ids_wrap_at_256_and_disconnect_clears() {
    let mut net = NetworkManager::new();
    net.start_server(2);
    net.next_client_id = 255;
    net.on_client_connected(1);
    net.on_client_connected(2);
    assert_eq!(net.connected_clients[&1], 255);
    assert_eq!(net.connected_clients[&2], 0);
    net.connect_to_server();
    assert_eq!(net.role(), Role::Client);
    net.disconnect();
    assert_eq!(net.role(), Role::Unassigned);
    assert!(!net.is_connected());
    assert_eq!(net.connected_count(), 0);
}
