//! Declarations for the thread-safe channel bridging asynchronous transport
//! callbacks into the tick loop.
//!
//! Inbound datagrams and session callbacks arrive on other threads; they are
//! queued through a `flume` channel and drained once per tick, so replication
//! state is only ever touched by the tick thread.

use vstd::prelude::*;

verus! {

#[verifier::external_type_specification]
#[verifier::external_body]
#[verifier::reject_recursive_types(T)]
pub struct ExSender<T>(flume::Sender<T>);

#[verifier::external_type_specification]
#[verifier::external_body]
#[verifier::reject_recursive_types(T)]
pub struct ExReceiver<T>(flume::Receiver<T>);

} // verus!
