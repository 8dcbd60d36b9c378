//! Lifecycle events published to the opaque UI event sink, and the name of
//! the inbound disconnect signal the core listens for.  The library only
//! decides which event to emit and with what payload; the host delivers it.

use vstd::prelude::*;

verus! {

/// Which lifecycle transition an event reports.
#[derive(Clone, Copy, Debug, PartialEq, Eq, Structural)]
pub enum EventKind {
    /// A connect attempt has started.
    ClientConnecting,
    /// A session was installed in the slot.
    ClientConnected,
}

/// An outbound, fire-and-forget lifecycle event carrying the application id
/// of the connect attempt it belongs to.
#[derive(Clone, Copy, Debug, PartialEq, Eq, Structural)]
pub struct Event {
    pub kind: EventKind,
    pub application_id: u64,
}

impl Event {
    /// The name under which the host publishes this event.
    pub fn name(&self) -> (r: &'static str)
        ensures
            self.kind is ClientConnecting ==> r@ == "client_connecting"@,
            self.kind is ClientConnected ==> r@ == "client_connected"@,
    {
        match self.kind {
            EventKind::ClientConnecting => "client_connecting",
            EventKind::ClientConnected => "client_connected",
        }
    }
}

/// The name of the inbound signal that requests a disconnect.  Both
/// lifecycle listeners react to this one trigger.
pub fn disconnect_signal_name() -> (r: &'static str)
    ensures
        r@ == "event_disconnect"@,
{
    "event_disconnect"
}

} // verus!
