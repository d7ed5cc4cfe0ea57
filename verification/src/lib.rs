//! A peer-to-peer state-replication core for small-group real-time sessions.
//!
//! Peers in a lobby agree on a shared set of networked objects, propagate
//! their creation, destruction and transforms, and exchange typed application
//! messages over an unreliable/reliable transport. The transport itself
//! (session discovery, datagram delivery) is an external collaborator: this
//! crate computes which bytes go to which peer and how inbound bytes change
//! the replicated state.

use vstd::prelude::*;
use vstd::string::StringSliceAdditionalSpecFns;

pub mod channel;
pub mod client;
pub mod codec;
pub mod networked_events;
pub mod networked_transform;
pub mod prelude;

pub use client::SteamP2PClient;

use crate::networked_transform::QuatFixed;
use crate::networked_transform::Transform;
use crate::networked_transform::Vec3Fixed;

verus! {

/// Identifier for a connected participant, assigned by the transport layer.
#[derive(PartialEq, Eq, Structural, Clone, Copy, Debug, Hash)]
pub struct SteamId(pub u64);

/// Identifier for a session/lobby, created by exactly one peer (the host).
#[derive(PartialEq, Eq, Structural, Clone, Copy, Debug, Hash)]
pub struct LobbyId(pub u64);

/// Owner-qualified identifier for a replicated object.
///
/// `index` is a per-owner monotonically increasing counter assigned by the
/// owning peer; `(owner, index)` is globally unique.
#[derive(PartialEq, Eq, Structural, Clone, Copy, Debug, Hash)]
pub struct NetworkId {
    pub owner: SteamId,
    pub index: u32,
}

/// Names the local template/factory used to materialize an object.
#[derive(Debug)]
pub struct FilePath(pub String);

impl View for FilePath {
    type V = Seq<char>;

    open spec fn view(&self) -> Seq<char> {
        self.0@
    }
}

impl FilePath {
    pub fn new(path: &str) -> (r: FilePath)
        ensures
            r@ == path@,
    {
        FilePath(path.to_owned())
    }
}

impl PartialEq for FilePath {
    fn eq(&self, other: &FilePath) -> (r: bool) {
        self.0 == other.0
    }
}

impl vstd::std_specs::cmp::PartialEqSpecImpl for FilePath {
    open spec fn obeys_eq_spec() -> bool {
        true
    }

    open spec fn eq_spec(&self, other: &FilePath) -> bool {
        self@ == other@
    }
}

impl PartialEq<&str> for FilePath {
    /// Path equality against a bare string literal.
    fn eq(&self, other: &&str) -> (r: bool) {
        proof {
            vstd::utf8::encode_utf8_decode_utf8(self@);
            vstd::utf8::encode_utf8_decode_utf8(other@);
        }
        let a = self.0.as_str().as_bytes();
        let b = other.as_bytes();
        if a.len() != b.len() {
            return false;
        }
        let n = a.len();
        let mut i: usize = 0;
        while i < n
            invariant
                i <= n,
                n == a@.len(),
                n == b@.len(),
                a@ == vstd::utf8::encode_utf8(self@),
                b@ == vstd::utf8::encode_utf8(other@),
                forall|j: int| 0 <= j < i ==> a@[j] == b@[j],
            decreases n - i,
        {
            if a[i] != b[i] {
                return false;
            }
            i = i + 1;
        }
        proof {
            assert(a@ =~= b@);
        }
        true
    }
}

impl vstd::std_specs::cmp::PartialEqSpecImpl<&str> for FilePath {
    open spec fn obeys_eq_spec() -> bool {
        true
    }

    open spec fn eq_spec(&self, other: &&str) -> bool {
        self@ == other@
    }
}

impl Clone for FilePath {
    fn clone(&self) -> (r: FilePath)
        ensures
            r == *self,
    {
        FilePath(self.0.clone())
    }
}

/// Identity record attached to every replicated object: its id, an optional
/// one-level dependency edge to a parent object, and the factory path used to
/// materialize it.
#[derive(Debug)]
pub struct NetworkIdentity {
    pub id: NetworkId,
    pub parent_id: Option<NetworkId>,
    pub instantiation_path: FilePath,
}

/// Mathematical image of a [`NetworkIdentity`]: the path as a char sequence.
#[verifier::ext_equal]
pub struct NetworkIdentityView {
    pub id: NetworkId,
    pub parent_id: Option<NetworkId>,
    pub instantiation_path: Seq<char>,
}

impl View for NetworkIdentity {
    type V = NetworkIdentityView;

    open spec fn view(&self) -> NetworkIdentityView {
        NetworkIdentityView {
            id: self.id,
            parent_id: self.parent_id,
            instantiation_path: self.instantiation_path@,
        }
    }
}

/// Payload of an `Instantiate` message: the new object's identity and its
/// starting pose.
#[derive(Debug)]
pub struct InstantiationData {
    pub network_identity: NetworkIdentity,
    pub starting_transform: Transform,
}

/// Mathematical image of an [`InstantiationData`].
#[verifier::ext_equal]
pub struct InstantiationDataView {
    pub network_identity: NetworkIdentityView,
    pub starting_transform: Transform,
}

impl View for InstantiationData {
    type V = InstantiationDataView;

    open spec fn view(&self) -> InstantiationDataView {
        InstantiationDataView {
            network_identity: self.network_identity@,
            starting_transform: self.starting_transform,
        }
    }
}

/// Reliability hint handed to the transport for each outbound datagram.
#[derive(PartialEq, Eq, Structural, Clone, Copy, Debug)]
pub enum SendFlags {
    Reliable,
    Unreliable,
}

/// The wire envelope: every datagram carries exactly one of these variants,
/// serialized by [`codec::encode_network_data`].
#[derive(Debug)]
pub enum NetworkData {
    /// Presence announcement broadcast by a peer that entered the lobby.
    OtherJoined(SteamId),
    /// A registered application event: payload bytes plus its registry index.
    Event(Vec<u8>, u8),
    /// An application-defined action on one replicated object.
    NetworkedAction(NetworkIdentity, u8, Vec<u8>),
    /// Request to materialize a new replicated object.
    Instantiate(InstantiationData),
    /// Owner-authoritative pose sample; absent channels mean "unchanged".
    TransformUpdate(NetworkIdentity, Option<Vec3Fixed>, Option<QuatFixed>, Option<Vec3Fixed>),
    /// Owner-originated destruction of one replicated object.
    Destroy(NetworkIdentity),
    /// Free-form development traffic.
    NetworkMessage(String),
    /// Make the receiving client surface the message.
    DebugMessage(String),
}

/// Mathematical image of a [`NetworkData`] envelope.
#[verifier::ext_equal]
pub enum NetworkDataView {
    OtherJoined(SteamId),
    Event(Seq<u8>, u8),
    NetworkedAction(NetworkIdentityView, u8, Seq<u8>),
    Instantiate(InstantiationDataView),
    TransformUpdate(NetworkIdentityView, Option<Vec3Fixed>, Option<QuatFixed>, Option<Vec3Fixed>),
    Destroy(NetworkIdentityView),
    NetworkMessage(Seq<char>),
    DebugMessage(Seq<char>),
}

impl View for NetworkData {
    type V = NetworkDataView;

    open spec fn view(&self) -> NetworkDataView {
        match self {
            NetworkData::OtherJoined(id) => NetworkDataView::OtherJoined(*id),
            NetworkData::Event(bytes, index) => NetworkDataView::Event(bytes@, *index),
            NetworkData::NetworkedAction(identity, action, bytes) => NetworkDataView::NetworkedAction(
                identity@,
                *action,
                bytes@,
            ),
            NetworkData::Instantiate(data) => NetworkDataView::Instantiate(data@),
            NetworkData::TransformUpdate(identity, p, r, s) => NetworkDataView::TransformUpdate(
                identity@,
                *p,
                *r,
                *s,
            ),
            NetworkData::Destroy(identity) => NetworkDataView::Destroy(identity@),
            NetworkData::NetworkMessage(message) => NetworkDataView::NetworkMessage(message@),
            NetworkData::DebugMessage(message) => NetworkDataView::DebugMessage(message@),
        }
    }
}

impl Clone for NetworkIdentity {
    fn clone(&self) -> (r: NetworkIdentity)
        ensures
            r == *self,
    {
        NetworkIdentity {
            id: self.id,
            parent_id: self.parent_id,
            instantiation_path: self.instantiation_path.clone(),
        }
    }
}

impl Clone for InstantiationData {
    fn clone(&self) -> (r: InstantiationData)
        ensures
            r == *self,
    {
        InstantiationData {
            network_identity: self.network_identity.clone(),
            starting_transform: self.starting_transform,
        }
    }
}

impl Clone for NetworkData {
    fn clone(&self) -> (r: NetworkData)
        ensures
            r@ == self@,
    {
        match self {
            NetworkData::OtherJoined(id) => NetworkData::OtherJoined(*id),
            NetworkData::Event(bytes, index) => NetworkData::Event(bytes.clone(), *index),
            NetworkData::NetworkedAction(identity, action, bytes) => NetworkData::NetworkedAction(
                identity.clone(),
                *action,
                bytes.clone(),
            ),
            NetworkData::Instantiate(data) => NetworkData::Instantiate(data.clone()),
            NetworkData::TransformUpdate(identity, p, r, s) => NetworkData::TransformUpdate(
                identity.clone(),
                *p,
                *r,
                *s,
            ),
            NetworkData::Destroy(identity) => NetworkData::Destroy(identity.clone()),
            NetworkData::NetworkMessage(message) => NetworkData::NetworkMessage(message.clone()),
            NetworkData::DebugMessage(message) => NetworkData::DebugMessage(message.clone()),
        }
    }
}

/// One decoded envelope together with the peer it came from.
#[derive(Clone, Debug)]
pub struct NetworkPacket {
    pub data: NetworkData,
    pub sender: SteamId,
}

/// Surfaced to the application when the local peer has entered a lobby.
#[derive(PartialEq, Eq, Structural, Clone, Copy, Debug)]
pub struct LobbyJoined {
    pub lobby_id: LobbyId,
}

/// Surfaced to the application when another peer announced its presence.
#[derive(PartialEq, Eq, Structural, Clone, Copy, Debug)]
pub struct OtherJoined(pub SteamId);

/// Surfaced to the application when the local peer has left its lobby.
#[derive(PartialEq, Eq, Structural, Clone, Copy, Debug)]
pub struct LobbyLeft;

/// Surfaced to the application for each received `NetworkedAction` envelope.
#[derive(Clone, Debug)]
pub struct NetworkedAction {
    pub network_identity: NetworkIdentity,
    pub action_id: u8,
    pub action_data: Vec<u8>,
}

/// An `Instantiate` request on its way to the resolver.
#[derive(Clone, Debug)]
pub struct NetworkInstantiation(pub InstantiationData);

/// Surfaced to the application when no registered factory path matched.
#[derive(Clone, Debug)]
pub struct UnhandledInstantiation(pub InstantiationData);

} // verus!

