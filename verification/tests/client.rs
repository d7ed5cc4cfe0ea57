use steam_p2p::client::{
    AppEvent, ChannelPacket, LobbyRequest, LobbyStatus, SteamP2PClient,
};
use steam_p2p::codec::decode_network_data;
use steam_p2p::networked_transform::{QuatFixed, Transform, Vec3Fixed};
use steam_p2p::{FilePath, LobbyId, NetworkData, NetworkId, SteamId};

fn flat_transform() -> Transform {
    Transform {
        translation: Vec3Fixed { x: 0, y: 2000, z: 0 },
        rotation: QuatFixed { x: 0, y: 0, z: 0, w: 1000 },
        scale: Vec3Fixed { x: 1000, y: 1000, z: 1000 },
    }
}

fn join(client: &mut SteamP2PClient, lobby: u64, owner: u64, members: &[u64]) {
    let members: Vec<SteamId> = members.iter().map(|m| SteamId(*m)).collect();
    client.apply_channel_packet(ChannelPacket::LobbyJoined(LobbyId(lobby), SteamId(owner), members));
}

#[test]
fn allocation_is_distinct_and_increasing() {
    let mut client = SteamP2PClient::new(SteamId(11));
    let mut seen: Vec<u32> = Vec::new();
    for _ in 0..100 {
        let identity = client.generate_new_network_identity(FilePath::new("x"), None);
        assert_eq!(identity.id.owner, SteamId(11));
        if let Some(last) = seen.last() {
            assert!(identity.id.index > *last);
        }
        assert!(!seen.contains(&identity.id.index));
        seen.push(identity.id.index);
    }
    assert_eq!(seen[0], 0);
    assert_eq!(seen[99], 99);
}

#[test]
fn lobby_getters_track_status() {
    let mut client = SteamP2PClient::new(SteamId(1));
    assert!(!client.is_in_lobby());
    assert!(client.get_lobby_id().is_err());
    assert!(client.get_lobby_owner().is_err());
    assert!(client.is_lobby_owner().is_err());

    join(&mut client, 77, 2, &[2, 1]);
    assert!(client.is_in_lobby());
    assert_eq!(client.get_lobby_id().unwrap(), LobbyId(77));
    assert_eq!(client.get_lobby_owner().unwrap(), SteamId(2));
    assert_eq!(client.is_lobby_owner().unwrap(), false);
    assert_eq!(client.lobby_status, LobbyStatus::InLobby(LobbyId(77)));
}

#[test]
fn send_message_fails_out_of_lobby() {
    let mut client = SteamP2PClient::new(SteamId(1));
    let err = client
        .send_message(&NetworkData::DebugMessage(String::from("hi")), SteamId(2), steam_p2p::SendFlags::Reliable)
        .unwrap_err();
    assert_eq!(err, "Not in a lobby");
    assert!(client.take_outbound().is_empty());
}

#[test]
fn send_message_stages_encoded_datagram() {
    let mut client = SteamP2PClient::new(SteamId(1));
    join(&mut client, 5, 1, &[1, 2]);
    client.take_outbound(); // drop the join announcement
    client
        .send_message(&NetworkData::DebugMessage(String::from("ping")), SteamId(2), steam_p2p::SendFlags::Reliable)
        .unwrap();
    let staged = client.take_outbound();
    assert_eq!(staged.len(), 1);
    assert_eq!(staged[0].target, SteamId(2));
    match decode_network_data(&staged[0].payload) {
        Some(NetworkData::DebugMessage(text)) => assert_eq!(text, "ping"),
        other => panic!("wrong payload: {:?}", other),
    }
}

#[test]
fn send_message_others_skips_self() {
    let mut client = SteamP2PClient::new(SteamId(1));
    join(&mut client, 5, 1, &[1, 2, 3]);
    client.take_outbound();
    client
        .send_message_others(NetworkData::DebugMessage(String::from("x")), steam_p2p::SendFlags::Reliable)
        .unwrap();
    let staged = client.take_outbound();
    let targets: Vec<SteamId> = staged.iter().map(|m| m.target).collect();
    assert_eq!(targets, vec![SteamId(2), SteamId(3)]);
}

#[test]
fn join_announces_presence_to_existing_members() {
    let mut client = SteamP2PClient::new(SteamId(9));
    join(&mut client, 5, 1, &[1, 2, 9]);
    let staged = client.take_outbound();
    assert_eq!(staged.len(), 2);
    for message in &staged {
        match decode_network_data(&message.payload) {
            Some(NetworkData::OtherJoined(id)) => assert_eq!(id, SteamId(9)),
            other => panic!("wrong announcement: {:?}", other),
        }
    }
    let events = client.take_app_events();
    assert_eq!(events.len(), 1);
    assert!(matches!(events[0], AppEvent::LobbyJoined(j) if j.lobby_id == LobbyId(5)));
}

#[test]
fn create_lobby_is_noop_while_in_lobby() {
    let mut client = SteamP2PClient::new(SteamId(1));
    client.create_lobby(8);
    assert_eq!(client.take_lobby_requests(), vec![LobbyRequest::CreateLobby(8)]);
    join(&mut client, 5, 1, &[1]);
    client.create_lobby(8);
    assert!(client.take_lobby_requests().is_empty());
}

#[test]
fn leave_lobby_clears_session_and_tears_down_next_tick() {
    let mut client = SteamP2PClient::new(SteamId(1));
    join(&mut client, 5, 1, &[1]);
    client.register_path(FilePath::new("Box"));
    client.instantiate(FilePath::new("Box"), None, flat_transform()).unwrap();
    client.handle_channels(); // bridge echo of the instantiate
    let register = steam_p2p::networked_events::NetworkedEventRegister::new();
    client.run_tick(&register, 1, 2);
    assert_eq!(client.objects.len(), 1);

    client.leave_lobby();
    assert!(!client.is_in_lobby());
    assert_eq!(client.take_lobby_requests(), vec![LobbyRequest::LeaveLobby(LobbyId(5))]);
    // teardown rides through the bridge
    client.handle_channels();
    assert_eq!(client.objects.len(), 0);
}

#[test]
fn receive_packet_drops_malformed_datagrams() {
    let mut client = SteamP2PClient::new(SteamId(1));
    client.receive_packet(SteamId(2), &vec![99u8, 1, 2]);
    assert_eq!(client.inbound_packets.len(), 0);
    let good = steam_p2p::codec::encode_network_data(&NetworkData::DebugMessage(String::from("ok")));
    client.receive_packet(SteamId(2), &good);
    assert_eq!(client.inbound_packets.len(), 1);
    assert_eq!(client.inbound_packets[0].sender, SteamId(2));
}

#[test]
fn instantiate_out_of_lobby_is_an_error() {
    let mut client = SteamP2PClient::new(SteamId(1));
    let err = client.instantiate(FilePath::new("Box"), None, flat_transform()).unwrap_err();
    assert_eq!(err, "Not in a lobby");
}

#[test]
fn instantiate_broadcasts_to_others_and_echoes_locally() {
    let mut client = SteamP2PClient::new(SteamId(1));
    join(&mut client, 5, 1, &[1, 2]);
    client.take_outbound();
    let identity = client.instantiate(FilePath::new("Box"), None, flat_transform()).unwrap();
    assert_eq!(identity.id, NetworkId { owner: SteamId(1), index: 0 });
    assert!(identity.instantiation_path == "Box");

    let staged = client.take_outbound();
    assert_eq!(staged.len(), 1);
    assert_eq!(staged[0].target, SteamId(2));
    match decode_network_data(&staged[0].payload) {
        Some(NetworkData::Instantiate(data)) => {
            assert_eq!(data.network_identity.id, identity.id);
            assert_eq!(data.starting_transform, flat_transform());
        }
        other => panic!("wrong payload: {:?}", other),
    }

    // the local echo arrives through the bridge
    client.handle_channels();
    assert_eq!(client.inbound_packets.len(), 1);
}

#[test]
fn bridge_carries_packets_from_cloned_senders() {
    let mut client = SteamP2PClient::new(SteamId(1));
    let sender = client.sender();
    sender
        .send(ChannelPacket::NetworkPacket(steam_p2p::NetworkPacket {
            data: NetworkData::DebugMessage(String::from("from afar")),
            sender: SteamId(3),
        }))
        .unwrap();
    client.handle_channels();
    assert_eq!(client.inbound_packets.len(), 1);
    assert_eq!(client.inbound_packets[0].sender, SteamId(3));
    // nothing queued: the next drain is a no-op
    client.handle_channels();
    assert_eq!(client.inbound_packets.len(), 1);
}

#[test]
fn presence_announcements_do_not_duplicate_members() {
    let register = steam_p2p::networked_events::NetworkedEventRegister::new();
    let mut client = SteamP2PClient::new(SteamId(1));
    join(&mut client, 5, 1, &[1, 2]);
    let announce = steam_p2p::codec::encode_network_data(&NetworkData::OtherJoined(SteamId(2)));
    client.receive_packet(SteamId(2), &announce);
    client.receive_packet(SteamId(2), &announce);
    client.run_tick(&register, 1, 2);
    let count = client.lobby_members.iter().filter(|m| **m == SteamId(2)).count();
    assert_eq!(count, 1);
}

#[test]
fn network_message_envelope_is_dropped_silently() {
    let register = steam_p2p::networked_events::NetworkedEventRegister::new();
    let mut client = SteamP2PClient::new(SteamId(1));
    join(&mut client, 5, 1, &[1, 2]);
    client.take_app_events();
    client.take_outbound();
    let bytes = steam_p2p::codec::encode_network_data(&NetworkData::NetworkMessage(String::from(
        "dev only",
    )));
    client.receive_packet(SteamId(2), &bytes);
    client.run_tick(&register, 1, 2);
    assert!(client.take_app_events().is_empty());
    assert!(client.take_outbound().is_empty());
}

#[test]
fn out_of_lobby_error_text_is_exact() {
    let client = SteamP2PClient::new(SteamId(1));
    assert_eq!(client.get_lobby_id().unwrap_err(), "Out of lobby");
}

#[test]
fn join_lobby_is_noop_while_in_lobby() {
    let mut client = SteamP2PClient::new(SteamId(1));
    client.join_lobby(LobbyId(6));
    assert_eq!(client.take_lobby_requests(), vec![LobbyRequest::JoinLobby(LobbyId(6))]);
    join(&mut client, 6, 1, &[1]);
    client.join_lobby(LobbyId(7));
    assert!(client.take_lobby_requests().is_empty());
}

#[test]
fn one_drain_empties_the_whole_bridge() {
    let mut client = SteamP2PClient::new(SteamId(1));
    let sender = client.sender();
    for n in 0..3u64 {
        sender
            .send(ChannelPacket::NetworkPacket(steam_p2p::NetworkPacket {
                data: NetworkData::DebugMessage(format!("msg {}", n)),
                sender: SteamId(2 + n),
            }))
            .unwrap();
    }
    client.handle_channels();
    assert_eq!(client.inbound_packets.len(), 3);
    assert_eq!(client.inbound_packets[0].sender, SteamId(2));
    assert_eq!(client.inbound_packets[2].sender, SteamId(4));
}
