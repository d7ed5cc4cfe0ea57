use steam_p2p::client::{AppEvent, ChannelPacket, SteamP2PClient};
use steam_p2p::networked_events::NetworkedEventRegister;
use steam_p2p::networked_transform::{QuatFixed, Transform, Vec3Fixed};
use steam_p2p::{
    FilePath, InstantiationData, LobbyId, NetworkData, NetworkId, NetworkIdentity, SteamId,
};

fn pose(y: i32) -> Transform {
    Transform {
        translation: Vec3Fixed { x: 0, y, z: 0 },
        rotation: QuatFixed { x: 0, y: 0, z: 0, w: 1000 },
        scale: Vec3Fixed { x: 1000, y: 1000, z: 1000 },
    }
}

fn join(client: &mut SteamP2PClient, lobby: u64, owner: u64, members: &[u64]) {
    let members: Vec<SteamId> = members.iter().map(|m| SteamId(*m)).collect();
    client.apply_channel_packet(ChannelPacket::LobbyJoined(LobbyId(lobby), SteamId(owner), members));
}

fn instantiation(owner: u64, index: u32, parent: Option<NetworkId>, path: &str, y: i32) -> InstantiationData {
    InstantiationData {
        network_identity: NetworkIdentity {
            id: NetworkId { owner: SteamId(owner), index },
            parent_id: parent,
            instantiation_path: FilePath::new(path),
        },
        starting_transform: pose(y),
    }
}

/// Deliver every staged datagram of `from` into `to`, as the transport would.
fn pump(from: &mut SteamP2PClient, to: &mut SteamP2PClient) {
    let sender = from.id;
    for message in from.take_outbound() {
        assert_eq!(message.target, to.id);
        to.receive_packet(sender, &message.payload);
    }
}

#[test]
fn duplicate_instantiation_is_ignored() {
    let mut client = SteamP2PClient::new(SteamId(1));
    client.register_path(FilePath::new("Box"));
    client.apply_instantiation(instantiation(2, 0, None, "Box", 1));
    assert_eq!(client.objects.len(), 1);
    // the same identity again, even with a different pose, must not duplicate
    client.apply_instantiation(instantiation(2, 0, None, "Box", 999));
    assert_eq!(client.objects.len(), 1);
    assert_eq!(client.objects[0].transform, pose(1));
}

#[test]
fn unknown_path_surfaces_as_unhandled() {
    let mut client = SteamP2PClient::new(SteamId(1));
    client.register_path(FilePath::new("Box"));
    client.apply_instantiation(instantiation(2, 0, None, "Mystery", 1));
    assert_eq!(client.objects.len(), 0);
    let events = client.take_app_events();
    assert_eq!(events.len(), 1);
    assert!(matches!(
        &events[0],
        AppEvent::UnhandledInstantiation(u) if u.0.network_identity.id.index == 0
    ));
}

#[test]
fn child_waits_for_parent_then_materializes_within_one_tick() {
    let mut client = SteamP2PClient::new(SteamId(1));
    client.register_path(FilePath::new("Box"));
    let parent_id = NetworkId { owner: SteamId(2), index: 0 };
    let child = instantiation(2, 1, Some(parent_id), "Box", 5);
    let parent = instantiation(2, 0, None, "Box", 4);

    // child strictly before parent: deferred, not materialized
    client.apply_instantiation(child);
    assert_eq!(client.objects.len(), 0);
    assert_eq!(client.get_instantiation_queue().len(), 1);

    // parent arrives and materializes; the child is still only queued
    client.apply_instantiation(parent);
    assert_eq!(client.objects.len(), 1);
    assert_eq!(client.get_instantiation_queue().len(), 1);

    // the per-tick retry pass resolves the child
    client.handle_queued_instantiations();
    assert_eq!(client.objects.len(), 2);
    assert_eq!(client.get_instantiation_queue().len(), 0);
    assert!(client.objects.iter().any(|o| o.identity.id == parent_id));
    assert!(client.objects.iter().any(|o| o.identity.id.index == 1));
}

#[test]
fn grandchild_chain_resolves_one_level_per_pass() {
    let mut client = SteamP2PClient::new(SteamId(1));
    client.register_path(FilePath::new("Box"));
    let root_id = NetworkId { owner: SteamId(2), index: 0 };
    let mid_id = NetworkId { owner: SteamId(2), index: 1 };
    client.apply_instantiation(instantiation(2, 2, Some(mid_id), "Box", 3));
    client.apply_instantiation(instantiation(2, 1, Some(root_id), "Box", 2));
    assert_eq!(client.objects.len(), 0);
    client.apply_instantiation(instantiation(2, 0, None, "Box", 1));
    assert_eq!(client.objects.len(), 1);
    client.handle_queued_instantiations();
    assert_eq!(client.objects.len(), 2);
    client.handle_queued_instantiations();
    assert_eq!(client.objects.len(), 3);
}

#[test]
fn session_scenario_both_peers_materialize_the_same_object() {
    let register = NetworkedEventRegister::new();
    let mut a = SteamP2PClient::new(SteamId(1));
    let mut b = SteamP2PClient::new(SteamId(2));
    a.register_path(FilePath::new("Box"));
    b.register_path(FilePath::new("Box"));

    // A creates a session of two, B joins it
    a.create_lobby(2);
    assert_eq!(a.take_lobby_requests().len(), 1);
    join(&mut a, 40, 1, &[1]);
    join(&mut b, 40, 1, &[1, 2]);
    pump(&mut b, &mut a); // B's presence announcement
    a.run_tick(&register, 1, 2);
    assert!(a.lobby_members.contains(&SteamId(2)));

    // A instantiates a Box at (A, 0)
    let identity = a.instantiate(FilePath::new("Box"), None, pose(7)).unwrap();
    assert_eq!(identity.id, NetworkId { owner: SteamId(1), index: 0 });
    pump(&mut a, &mut b);

    // both peers finish the tick with exactly that one object
    a.run_tick(&register, 1, 2); // A: through its local echo
    b.run_tick(&register, 1, 2); // B: through the wire copy
    assert_eq!(a.objects.len(), 1);
    assert_eq!(b.objects.len(), 1);
    assert_eq!(a.objects[0].identity.id, identity.id);
    assert_eq!(b.objects[0].identity.id, identity.id);
    assert_eq!(a.objects[0].transform, pose(7));
    assert_eq!(b.objects[0].transform, pose(7));
}

#[test]
fn owner_replays_state_to_joiner() {
    let mut a = SteamP2PClient::new(SteamId(1));
    a.register_path(FilePath::new("Box"));
    join(&mut a, 40, 1, &[1]);
    a.take_outbound();
    a.apply_instantiation(instantiation(1, 0, None, "Box", 1));
    a.apply_instantiation(instantiation(1, 1, None, "Box", 2));

    a.handle_joiner(SteamId(9));
    assert!(a.lobby_members.contains(&SteamId(9)));
    let staged = a.take_outbound();
    assert_eq!(staged.len(), 2);
    for (k, message) in staged.iter().enumerate() {
        assert_eq!(message.target, SteamId(9));
        match steam_p2p::codec::decode_network_data(&message.payload) {
            Some(NetworkData::Instantiate(data)) => {
                assert_eq!(data.network_identity.id.index, k as u32);
                assert_eq!(data.starting_transform, pose(k as i32 + 1));
            }
            other => panic!("wrong replay payload: {:?}", other),
        }
    }
}

#[test]
fn non_owner_does_not_replay_to_joiner() {
    let mut b = SteamP2PClient::new(SteamId(2));
    b.register_path(FilePath::new("Box"));
    join(&mut b, 40, 1, &[1, 2]);
    b.take_outbound();
    b.apply_instantiation(instantiation(1, 0, None, "Box", 1));
    b.handle_joiner(SteamId(9));
    assert!(b.take_outbound().is_empty());
}

#[test]
fn peer_leave_destroys_exactly_its_objects() {
    let mut a = SteamP2PClient::new(SteamId(1));
    a.register_path(FilePath::new("Box"));
    join(&mut a, 40, 1, &[1, 2]);
    a.take_outbound();
    a.take_app_events();
    // two objects owned by B, one by A
    a.apply_instantiation(instantiation(2, 0, None, "Box", 1));
    a.apply_instantiation(instantiation(2, 1, None, "Box", 2));
    a.apply_instantiation(instantiation(1, 0, None, "Box", 3));
    assert_eq!(a.objects.len(), 3);
    a.take_app_events();

    a.handle_peer_left(SteamId(2));
    assert_eq!(a.objects.len(), 1);
    assert_eq!(a.objects[0].identity.id, NetworkId { owner: SteamId(1), index: 0 });
    assert!(!a.lobby_members.contains(&SteamId(2)));
    let events = a.take_app_events();
    assert_eq!(events.len(), 2);
    assert!(matches!(&events[0], AppEvent::Destroyed(i) if i.id == NetworkId { owner: SteamId(2), index: 0 }));
    assert!(matches!(&events[1], AppEvent::Destroyed(i) if i.id == NetworkId { owner: SteamId(2), index: 1 }));
}

#[test]
fn destroy_envelope_removes_one_object() {
    let register = NetworkedEventRegister::new();
    let mut a = SteamP2PClient::new(SteamId(1));
    a.register_path(FilePath::new("Box"));
    join(&mut a, 40, 1, &[1]);
    a.apply_instantiation(instantiation(2, 0, None, "Box", 1));
    a.apply_instantiation(instantiation(2, 1, None, "Box", 2));
    a.take_app_events();

    let doomed = NetworkIdentity {
        id: NetworkId { owner: SteamId(2), index: 0 },
        parent_id: None,
        instantiation_path: FilePath::new("Box"),
    };
    let bytes = steam_p2p::codec::encode_network_data(&NetworkData::Destroy(doomed));
    a.receive_packet(SteamId(2), &bytes);
    a.run_tick(&register, 1, 2);
    assert_eq!(a.objects.len(), 1);
    assert_eq!(a.objects[0].identity.id, NetworkId { owner: SteamId(2), index: 1 });
    let events = a.take_app_events();
    assert!(events.iter().any(|e| matches!(e, AppEvent::Destroyed(i) if i.id.index == 0)));
}
