//! The typed-event replication registry.
//!
//! Application payload types are registered in a fixed order; the position in
//! that order is the only identifier carried on the wire, so every peer in a
//! session must register the same types in the same order. Payloads cross
//! this layer already serialized: the host application owns their concrete
//! types and their serialization, the registry owns the index table and the
//! dispatch decision.

use vstd::prelude::*;

use crate::client::others_of;
use crate::client::sends_to_each;
use crate::client::AppEvent;
use crate::client::SteamP2PClient;
use crate::codec::enc_data;
use crate::NetworkData;
use crate::SendFlags;

verus! {

/// One application event bound for the network, with its payload already
/// serialized and the registry key of its type.
pub struct Networked {
    pub event: Vec<u8>,
    pub type_key: u64,
    pub emit_locally: bool,
}

impl Networked {
    /// Broadcast and also deliver to the local event stream immediately.
    pub fn new(event: Vec<u8>, type_key: u64) -> (r: Networked)
        ensures
            r.event@ == event@,
            r.type_key == type_key,
            r.emit_locally,
    {
        Networked { event, type_key, emit_locally: true }
    }

    /// Broadcast to the other peers only.
    pub fn new_only_others(event: Vec<u8>, type_key: u64) -> (r: Networked)
        ensures
            r.event@ == event@,
            r.type_key == type_key,
            !r.emit_locally,
    {
        Networked { event, type_key, emit_locally: false }
    }
}

/// The registration-order-indexed table: `entries[i]` is the application's
/// key for the payload type registered at wire index `i`.
pub struct NetworkedEventRegister {
    pub entries: Vec<u64>,
    pub counter: u8,
}

impl NetworkedEventRegister {
    /// The counter always equals the number of registered types.
    pub open spec fn wf(&self) -> bool {
        self.counter == self.entries@.len()
    }

    pub fn new() -> (r: NetworkedEventRegister)
        ensures
            r.wf(),
            r.entries@.len() == 0,
            r.counter == 0,
    {
        NetworkedEventRegister { entries: Vec::new(), counter: 0 }
    }

    /// Register the next payload type: indices are handed out sequentially
    /// in call order, starting at zero.
    pub fn register(&mut self, type_key: u64) -> (index: u8)
        requires
            old(self).wf(),
            old(self).counter < u8::MAX,
        ensures
            final(self).wf(),
            index == old(self).counter,
            final(self).entries@ == old(self).entries@.push(type_key),
            final(self).counter == old(self).counter + 1,
    {
        let index = self.counter;
        self.entries.push(type_key);
        self.counter = self.counter + 1;
        index
    }

    /// The wire index of the first registration of `type_key`, if any.
    pub fn index_of(&self, type_key: u64) -> (r: Option<u8>)
        requires
            self.wf(),
        ensures
            r matches Some(i) ==> i < self.entries@.len() && self.entries@[i as int] == type_key
                && (forall|j: int| 0 <= j < i ==> self.entries@[j] != type_key),
            r is None ==> forall|j: int| 0 <= j < self.entries@.len() ==> self.entries@[j]
                != type_key,
    {
        let n = self.entries.len();
        let mut i: usize = 0;
        while i < n
            invariant
                i <= n,
                n == self.entries@.len(),
                n <= u8::MAX,
                forall|j: int| 0 <= j < i ==> self.entries@[j] != type_key,
            decreases n - i,
        {
            if self.entries[i] == type_key {
                return Some(i as u8);
            }
            i = i + 1;
        }
        None
    }
}

/// Process application events bound for the network, in order: one marked
/// `emit_locally` reaches the local event stream at once, without a
/// serialization round trip; each one of a registered type is broadcast to
/// the other lobby members as an `Event` envelope under its wire index; one
/// of an unregistered type is only delivered locally, never sent.
pub fn networked_event_system(
    client: &mut SteamP2PClient,
    register: &NetworkedEventRegister,
    networked: Networked,
) -> (r: Result<(), String>)
    requires
        old(client).wf(),
        register.wf(),
    ensures
        final(client).wf(),
        SteamP2PClient::same_session(*old(client), *final(client)),
        SteamP2PClient::same_replication(*old(client), *final(client)),
        SteamP2PClient::same_inboxes(*old(client), *final(client)),
        final(client).lobby_requests@ == old(client).lobby_requests@,
        ({
            let delivered = if networked.emit_locally {
                old(client).app_events@.push(AppEvent::Event(networked.type_key, networked.event))
            } else {
                old(client).app_events@
            };
            final(client).app_events@ == delivered
        }),
        ({
            let known = exists|j: int|
                0 <= j < register.entries@.len() && register.entries@[j] == networked.type_key;
            &&& (known && old(client).lobby_status is InLobby) ==> (r is Ok
                && exists|i: u8|
                #![auto]
                {
                    &&& i < register.entries@.len()
                    &&& register.entries@[i as int] == networked.type_key
                    &&& sends_to_each(
                        old(client).outbound@,
                        final(client).outbound@,
                        others_of(old(client).lobby_members@, old(client).id),
                        enc_data(crate::NetworkDataView::Event(networked.event@, i)),
                        SendFlags::Reliable,
                    )
                })
            &&& !known ==> final(client).outbound@ == old(client).outbound@
            &&& (known && old(client).lobby_status is OutOfLobby) ==> (r is Err
                && final(client).outbound@ == old(client).outbound@)
        }),
{
    let Networked { event, type_key, emit_locally } = networked;
    let index = register.index_of(type_key);
    let wire_copy = event.clone();
    if emit_locally {
        client.app_events.push(AppEvent::Event(type_key, event));
    }
    match index {
        Some(i) => {
            let r = client.send_message_others(NetworkData::Event(wire_copy, i), SendFlags::Reliable);
            proof {
                if old(client).lobby_status is InLobby {
                    assert(i < register.entries@.len() && register.entries@[i as int] == type_key
                        && sends_to_each(
                        old(client).outbound@,
                        client.outbound@,
                        others_of(old(client).lobby_members@, old(client).id),
                        enc_data(crate::NetworkDataView::Event(networked.event@, i)),
                        SendFlags::Reliable,
                    ));
                }
            }
            r
        },
        None => Ok(()),
    }
}

} // verus!
