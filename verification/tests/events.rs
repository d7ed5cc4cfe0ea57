use steam_p2p::client::{AppEvent, ChannelPacket, SteamP2PClient};
use steam_p2p::networked_events::{networked_event_system, Networked, NetworkedEventRegister};
use steam_p2p::{LobbyId, SteamId};

const PING_KEY: u64 = 0xB1E55ED;

fn join(client: &mut SteamP2PClient, members: &[u64]) {
    let members: Vec<SteamId> = members.iter().map(|m| SteamId(*m)).collect();
    client.apply_channel_packet(ChannelPacket::LobbyJoined(LobbyId(3), SteamId(1), members));
    client.take_outbound();
    client.take_app_events();
}

fn ping_payload(n: u32) -> Vec<u8> {
    n.to_le_bytes().to_vec()
}

#[test]
fn registration_order_assigns_sequential_indices() {
    let mut register = NetworkedEventRegister::new();
    assert_eq!(register.register(10), 0);
    assert_eq!(register.register(20), 1);
    assert_eq!(register.register(30), 2);
    assert_eq!(register.index_of(10), Some(0));
    assert_eq!(register.index_of(30), Some(2));
    assert_eq!(register.index_of(40), None);
}

#[test]
fn broadcast_delivers_locally_once_and_remotely_once() {
    // both peers register Ping first, so it is index 0 everywhere
    let mut register_a = NetworkedEventRegister::new();
    let mut register_b = NetworkedEventRegister::new();
    register_a.register(PING_KEY);
    register_b.register(PING_KEY);

    let mut a = SteamP2PClient::new(SteamId(1));
    let mut b = SteamP2PClient::new(SteamId(2));
    join(&mut a, &[1, 2]);
    join(&mut b, &[1, 2]);

    networked_event_system(&mut a, &register_a, Networked::new(ping_payload(7), PING_KEY)).unwrap();

    // A observes Ping{7} immediately, without a serialization round trip
    let a_events = a.take_app_events();
    assert_eq!(a_events.len(), 1);
    assert!(matches!(
        &a_events[0],
        AppEvent::Event(key, data) if *key == PING_KEY && *data == ping_payload(7)
    ));

    // the network copy goes to B only
    let staged = a.take_outbound();
    assert_eq!(staged.len(), 1);
    assert_eq!(staged[0].target, SteamId(2));
    b.receive_packet(SteamId(1), &staged[0].payload);
    b.run_tick(&register_b, 1, 2);
    let b_events = b.take_app_events();
    assert_eq!(b_events.len(), 1);
    assert!(matches!(
        &b_events[0],
        AppEvent::Event(key, data) if *key == PING_KEY && *data == ping_payload(7)
    ));

    // A gets nothing back over the wire: emit_locally already delivered it
    a.run_tick(&register_a, 1, 2);
    assert!(a.take_app_events().is_empty());
}

#[test]
fn only_others_broadcast_skips_local_delivery() {
    let mut register = NetworkedEventRegister::new();
    register.register(PING_KEY);
    let mut a = SteamP2PClient::new(SteamId(1));
    join(&mut a, &[1, 2]);
    networked_event_system(&mut a, &register, Networked::new_only_others(ping_payload(1), PING_KEY))
        .unwrap();
    assert!(a.take_app_events().is_empty());
    assert_eq!(a.take_outbound().len(), 1);
}

#[test]
fn unregistered_type_is_delivered_locally_but_never_sent() {
    let register = NetworkedEventRegister::new();
    let mut a = SteamP2PClient::new(SteamId(1));
    join(&mut a, &[1, 2]);
    networked_event_system(&mut a, &register, Networked::new(ping_payload(2), PING_KEY)).unwrap();
    assert_eq!(a.take_app_events().len(), 1);
    assert!(a.take_outbound().is_empty());
}

#[test]
fn unregistered_inbound_index_is_dropped() {
    let mut register = NetworkedEventRegister::new();
    register.register(PING_KEY);
    let mut b = SteamP2PClient::new(SteamId(2));
    join(&mut b, &[1, 2]);
    let stray = steam_p2p::codec::encode_network_data(&steam_p2p::NetworkData::Event(
        ping_payload(3),
        200,
    ));
    b.receive_packet(SteamId(1), &stray);
    b.run_tick(&register, 1, 2);
    assert!(b.take_app_events().is_empty());
}
