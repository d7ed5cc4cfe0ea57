use steam_p2p::codec::{decode_network_data, encode_network_data};
use steam_p2p::networked_transform::{QuatFixed, Transform, Vec3Fixed};
use steam_p2p::{FilePath, InstantiationData, NetworkData, NetworkId, NetworkIdentity, SteamId};

fn vec3(x: i32, y: i32, z: i32) -> Vec3Fixed {
    Vec3Fixed { x, y, z }
}

fn quat(x: i32, y: i32, z: i32, w: i32) -> QuatFixed {
    QuatFixed { x, y, z, w }
}

fn transform(seed: i32) -> Transform {
    Transform {
        translation: vec3(seed, -seed, seed + 1),
        rotation: quat(0, 0, 0, 1000),
        scale: vec3(1000, 1000, 1000),
    }
}

fn identity(owner: u64, index: u32, parent: Option<NetworkId>, path: &str) -> NetworkIdentity {
    NetworkIdentity {
        id: NetworkId { owner: SteamId(owner), index },
        parent_id: parent,
        instantiation_path: FilePath::new(path),
    }
}

fn roundtrip(data: &NetworkData) -> NetworkData {
    let bytes = encode_network_data(data);
    decode_network_data(&bytes).expect("round trip must decode")
}

#[test]
fn roundtrip_other_joined() {
    match roundtrip(&NetworkData::OtherJoined(SteamId(0xDEAD_BEEF_0042))) {
        NetworkData::OtherJoined(id) => assert_eq!(id, SteamId(0xDEAD_BEEF_0042)),
        other => panic!("wrong variant: {:?}", other),
    }
}

#[test]
fn roundtrip_event() {
    match roundtrip(&NetworkData::Event(vec![1, 2, 3, 255], 7)) {
        NetworkData::Event(bytes, index) => {
            assert_eq!(bytes, vec![1, 2, 3, 255]);
            assert_eq!(index, 7);
        }
        other => panic!("wrong variant: {:?}", other),
    }
}

#[test]
fn roundtrip_networked_action() {
    let ident = identity(9, 4, Some(NetworkId { owner: SteamId(9), index: 0 }), "Crate/Action");
    match roundtrip(&NetworkData::NetworkedAction(ident, 250, vec![0, 0, 9])) {
        NetworkData::NetworkedAction(got, action, data) => {
            assert_eq!(got.id, NetworkId { owner: SteamId(9), index: 4 });
            assert_eq!(got.parent_id, Some(NetworkId { owner: SteamId(9), index: 0 }));
            assert!(got.instantiation_path == "Crate/Action");
            assert_eq!(action, 250);
            assert_eq!(data, vec![0, 0, 9]);
        }
        other => panic!("wrong variant: {:?}", other),
    }
}

#[test]
fn roundtrip_instantiate() {
    let data = InstantiationData {
        network_identity: identity(3, 17, None, "Box"),
        starting_transform: transform(-2_000_000_000),
    };
    match roundtrip(&NetworkData::Instantiate(data)) {
        NetworkData::Instantiate(got) => {
            assert_eq!(got.network_identity.id, NetworkId { owner: SteamId(3), index: 17 });
            assert_eq!(got.network_identity.parent_id, None);
            assert!(got.network_identity.instantiation_path == "Box");
            assert_eq!(got.starting_transform, transform(-2_000_000_000));
        }
        other => panic!("wrong variant: {:?}", other),
    }
}

#[test]
fn roundtrip_transform_update_full() {
    let ident = identity(1, 1, None, "a");
    let msg = NetworkData::TransformUpdate(
        ident,
        Some(vec3(i32::MIN, i32::MAX, 0)),
        Some(quat(1, -1, 2, -2)),
        Some(vec3(5, 5, 5)),
    );
    match roundtrip(&msg) {
        NetworkData::TransformUpdate(_, p, r, s) => {
            assert_eq!(p, Some(vec3(i32::MIN, i32::MAX, 0)));
            assert_eq!(r, Some(quat(1, -1, 2, -2)));
            assert_eq!(s, Some(vec3(5, 5, 5)));
        }
        other => panic!("wrong variant: {:?}", other),
    }
}

#[test]
fn roundtrip_transform_update_absent_channels() {
    let ident = identity(1, 2, None, "a");
    let msg = NetworkData::TransformUpdate(ident, Some(vec3(7, 8, 9)), None, None);
    match roundtrip(&msg) {
        NetworkData::TransformUpdate(_, p, r, s) => {
            assert_eq!(p, Some(vec3(7, 8, 9)));
            assert_eq!(r, None);
            assert_eq!(s, None);
        }
        other => panic!("wrong variant: {:?}", other),
    }
}

#[test]
fn roundtrip_destroy() {
    match roundtrip(&NetworkData::Destroy(identity(8, 21, None, "gone"))) {
        NetworkData::Destroy(got) => {
            assert_eq!(got.id, NetworkId { owner: SteamId(8), index: 21 });
        }
        other => panic!("wrong variant: {:?}", other),
    }
}

#[test]
fn roundtrip_network_message() {
    match roundtrip(&NetworkData::NetworkMessage(String::from("free form"))) {
        NetworkData::NetworkMessage(text) => assert_eq!(text, "free form"),
        other => panic!("wrong variant: {:?}", other),
    }
}

#[test]
fn roundtrip_debug_message_non_ascii() {
    match roundtrip(&NetworkData::DebugMessage(String::from("héllo → wörld ✓"))) {
        NetworkData::DebugMessage(text) => assert_eq!(text, "héllo → wörld ✓"),
        other => panic!("wrong variant: {:?}", other),
    }
}

#[test]
fn exact_bytes_of_other_joined() {
    let bytes = encode_network_data(&NetworkData::OtherJoined(SteamId(0x0102_0304_0506_0708)));
    assert_eq!(bytes, vec![0u8, 0x08, 0x07, 0x06, 0x05, 0x04, 0x03, 0x02, 0x01]);
}

#[test]
fn exact_bytes_of_event() {
    let bytes = encode_network_data(&NetworkData::Event(vec![0xAA, 0xBB], 3));
    // tag, 8-byte little-endian length, payload, index
    assert_eq!(bytes, vec![1u8, 2, 0, 0, 0, 0, 0, 0, 0, 0xAA, 0xBB, 3]);
}

#[test]
fn decode_tolerates_trailing_bytes() {
    let mut bytes = encode_network_data(&NetworkData::OtherJoined(SteamId(12)));
    bytes.extend_from_slice(&[0u8; 64]);
    match decode_network_data(&bytes) {
        Some(NetworkData::OtherJoined(id)) => assert_eq!(id, SteamId(12)),
        other => panic!("wrong decode: {:?}", other),
    }
}

#[test]
fn decode_rejects_empty_and_bad_tag() {
    assert!(decode_network_data(&Vec::new()).is_none());
    assert!(decode_network_data(&vec![99u8, 0, 0, 0]).is_none());
}

#[test]
fn decode_rejects_truncated_payload() {
    let bytes = encode_network_data(&NetworkData::OtherJoined(SteamId(12)));
    let truncated: Vec<u8> = bytes[..bytes.len() - 1].to_vec();
    assert!(decode_network_data(&truncated).is_none());
}

#[test]
fn decode_rejects_invalid_utf8_text() {
    // tag 7 (debug message), length 2, then an invalid UTF-8 sequence
    let bytes = vec![7u8, 2, 0, 0, 0, 0, 0, 0, 0, 0xFF, 0xFE];
    assert!(decode_network_data(&bytes).is_none());
}

#[test]
fn file_path_compares_to_str() {
    let path = FilePath::new("Assets/Box");
    assert!(path == "Assets/Box");
    assert!(!(path == "Assets/Sphere"));
    assert!(!(path == "Assets/Bo"));
}
