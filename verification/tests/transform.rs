use steam_p2p::client::{ChannelPacket, SteamP2PClient};
use steam_p2p::networked_events::NetworkedEventRegister;
use steam_p2p::networked_transform::{
    lerp_i32, NetworkedTransform, QuatFixed, Transform, Vec3Fixed,
};
use steam_p2p::{FilePath, InstantiationData, LobbyId, NetworkData, NetworkId, NetworkIdentity, SteamId};

fn vec3(x: i32, y: i32, z: i32) -> Vec3Fixed {
    Vec3Fixed { x, y, z }
}

fn quat(x: i32, y: i32, z: i32, w: i32) -> QuatFixed {
    QuatFixed { x, y, z, w }
}

fn pose(t: Vec3Fixed) -> Transform {
    Transform { translation: t, rotation: quat(0, 0, 0, 1000), scale: vec3(1000, 1000, 1000) }
}

fn identity_of(owner: u64, index: u32) -> NetworkIdentity {
    NetworkIdentity {
        id: NetworkId { owner: SteamId(owner), index },
        parent_id: None,
        instantiation_path: FilePath::new("Box"),
    }
}

fn join(client: &mut SteamP2PClient, owner: u64, members: &[u64]) {
    let members: Vec<SteamId> = members.iter().map(|m| SteamId(*m)).collect();
    client.apply_channel_packet(ChannelPacket::LobbyJoined(LobbyId(4), SteamId(owner), members));
}

fn materialize(client: &mut SteamP2PClient, owner: u64, index: u32, at: Vec3Fixed) {
    client.apply_instantiation(InstantiationData {
        network_identity: identity_of(owner, index),
        starting_transform: pose(at),
    });
}

#[test]
fn lerp_moves_halfway_and_lands_exactly() {
    assert_eq!(lerp_i32(0, 100, 1, 2), 50);
    assert_eq!(lerp_i32(0, -100, 1, 2), -50);
    assert_eq!(lerp_i32(-10, 10, 1, 4), -5);
    assert_eq!(lerp_i32(3, 3, 1, 2), 3);
    assert_eq!(lerp_i32(0, 7, 1, 3), 2); // truncating toward the start
    assert_eq!(lerp_i32(42, -999, 1000, 1000), -999); // full rate snaps
    assert_eq!(lerp_i32(i32::MIN, i32::MAX, 1, 2), -1);
}

#[test]
fn partial_update_leaves_other_targets_alone() {
    let mut nt = NetworkedTransform::default();
    nt.target_position = vec3(1, 1, 1);
    nt.target_rotation = quat(2, 2, 2, 2);
    nt.target_scale = vec3(3, 3, 3);
    nt.apply_update(Some(vec3(9, 9, 9)), None, None);
    assert_eq!(nt.target_position, vec3(9, 9, 9));
    assert_eq!(nt.target_rotation, quat(2, 2, 2, 2));
    assert_eq!(nt.target_scale, vec3(3, 3, 3));
}

#[test]
fn remote_update_keeps_rotation_and_scale_targets() {
    let register = NetworkedEventRegister::new();
    let mut b = SteamP2PClient::new(SteamId(2));
    b.register_path(FilePath::new("Box"));
    join(&mut b, 1, &[1, 2]);
    materialize(&mut b, 1, 0, vec3(0, 0, 0));
    let seeded = b.objects[0].networked_transform;

    // the owner sends only a position channel
    let update = NetworkData::TransformUpdate(
        identity_of(1, 0),
        Some(vec3(800, 0, 0)),
        None,
        None,
    );
    let bytes = steam_p2p::codec::encode_network_data(&update);
    b.receive_packet(SteamId(1), &bytes);
    b.run_tick(&register, 1, 2);

    let nt = b.objects[0].networked_transform;
    assert_eq!(nt.target_position, vec3(800, 0, 0));
    assert_eq!(nt.target_rotation, seeded.target_rotation);
    assert_eq!(nt.target_scale, seeded.target_scale);
    // and the live pose smoothed halfway toward the new position target
    assert_eq!(b.objects[0].transform.translation, vec3(400, 0, 0));
}

#[test]
fn remote_pose_converges_over_ticks() {
    let register = NetworkedEventRegister::new();
    let mut b = SteamP2PClient::new(SteamId(2));
    b.register_path(FilePath::new("Box"));
    join(&mut b, 1, &[1, 2]);
    materialize(&mut b, 1, 0, vec3(0, 0, 0));
    let update = NetworkData::TransformUpdate(identity_of(1, 0), Some(vec3(64, 0, 0)), None, None);
    let bytes = steam_p2p::codec::encode_network_data(&update);
    b.receive_packet(SteamId(1), &bytes);
    b.run_tick(&register, 1, 2);
    assert_eq!(b.objects[0].transform.translation.x, 32);
    b.run_tick(&register, 1, 2);
    assert_eq!(b.objects[0].transform.translation.x, 48);
    b.run_tick(&register, 1, 2);
    assert_eq!(b.objects[0].transform.translation.x, 56);
}

#[test]
fn owner_broadcasts_and_does_not_interpolate() {
    let register = NetworkedEventRegister::new();
    let mut a = SteamP2PClient::new(SteamId(1));
    a.register_path(FilePath::new("Box"));
    join(&mut a, 1, &[1, 2]);
    a.take_outbound();
    materialize(&mut a, 1, 0, vec3(123, 456, 789));
    a.run_tick(&register, 1, 2);

    // the owner's live pose stays put
    assert_eq!(a.objects[0].transform.translation, vec3(123, 456, 789));
    let staged = a.take_outbound();
    assert_eq!(staged.len(), 1);
    assert_eq!(staged[0].target, SteamId(2));
    assert_eq!(staged[0].flags, steam_p2p::SendFlags::Unreliable);
    match steam_p2p::codec::decode_network_data(&staged[0].payload) {
        Some(NetworkData::TransformUpdate(identity, p, r, s)) => {
            assert_eq!(identity.id, NetworkId { owner: SteamId(1), index: 0 });
            assert_eq!(p, Some(vec3(123, 456, 789)));
            assert_eq!(r, Some(quat(0, 0, 0, 1000)));
            assert_eq!(s, Some(vec3(1000, 1000, 1000)));
        }
        other => panic!("wrong broadcast: {:?}", other),
    }
}

#[test]
fn disabled_channels_are_sent_absent() {
    let register = NetworkedEventRegister::new();
    let mut a = SteamP2PClient::new(SteamId(1));
    a.register_path(FilePath::new("Box"));
    join(&mut a, 1, &[1, 2]);
    a.take_outbound();
    materialize(&mut a, 1, 0, vec3(5, 5, 5));
    a.objects[0].networked_transform.sync_rotation = false;
    a.objects[0].networked_transform.sync_scale = false;
    a.run_tick(&register, 1, 2);
    let staged = a.take_outbound();
    match steam_p2p::codec::decode_network_data(&staged[0].payload) {
        Some(NetworkData::TransformUpdate(_, p, r, s)) => {
            assert_eq!(p, Some(vec3(5, 5, 5)));
            assert_eq!(r, None);
            assert_eq!(s, None);
        }
        other => panic!("wrong broadcast: {:?}", other),
    }
}

#[test]
fn default_targets_are_seeded_at_materialization() {
    let mut b = SteamP2PClient::new(SteamId(2));
    b.register_path(FilePath::new("Box"));
    materialize(&mut b, 1, 0, vec3(70, 80, 90));
    let nt = b.objects[0].networked_transform;
    assert_eq!(nt.target_position, vec3(70, 80, 90));
    assert_eq!(nt.target_rotation, quat(0, 0, 0, 1000));
    assert_eq!(nt.target_scale, vec3(1000, 1000, 1000));
    assert!(nt.sync_position && nt.sync_rotation && nt.sync_scale);
}
