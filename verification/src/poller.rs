//! The decision logic of one poll cycle. The surrounding program fetches a
//! fresh configuration from the upstream source on a fixed timer and hands
//! the outcome here: on success the shared slot is overwritten first and the
//! broadcast to every live session is planned second; on failure nothing
//! changes, nothing is broadcast, and the next cycle proceeds independently.

use vstd::prelude::*;
use crate::appstate::AppState;
use crate::config::Config;
use crate::websocket::{delivery_addrs, Delivery, GenericWsMessage, WsManager};

verus! {

/// Applies the outcome of one fetch: `Some` is a successfully fetched
/// configuration, `None` a failed cycle (network or decode error).
pub fn poll_cycle(shared: &mut AppState, hub: &WsManager, fetched: Option<Config>) -> (deliveries:
    Option<Vec<Delivery>>)
    requires
        hub.wf(),
    ensures
        fetched matches Some(c) ==> (deliveries matches Some(ds) && final(shared).config == Some(c)
            && delivery_addrs(ds@).no_duplicates() && delivery_addrs(ds@).to_set() == hub.live()
            && (forall|i: int| 0 <= i < ds@.len() ==> ds@[i].msg.config == c)),
        fetched is None ==> *final(shared) == *old(shared) && deliveries is None,
{
    match fetched {
        Some(c) => {
            let msg = GenericWsMessage { config: c.clone() };
            shared.write(c);
            Some(hub.broadcast(&msg))
        },
        None => None,
    }
}

} // verus!
