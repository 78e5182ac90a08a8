//! The events the connection emits.

use crate::events::{Cancelable, Event};
use crate::network::packets::status_builder::StatusBuilder;
use vstd::prelude::*;

verus! {

/// A client asks for the server's status. Handlers may change the status
/// before it is sent, and may cancel the event for the handlers after them.
pub struct ServerListPingEvent {
    pub status: StatusBuilder,
    pub is_canceled: bool,
}

impl ServerListPingEvent {
    /// The event for `status`, not canceled.
    pub fn new(status: StatusBuilder) -> (event: ServerListPingEvent)
        ensures
            event.status == status,
            !event.is_canceled,
    {
        ServerListPingEvent { status, is_canceled: false }
    }
}

impl Event for ServerListPingEvent {
    fn name(&self) -> (name: &'static str)
        ensures
            name@ == "ServerListPingEvent"@,
    {
        "ServerListPingEvent"
    }
}

impl Cancelable for ServerListPingEvent {
    open spec fn canceled(&self) -> bool {
        self.is_canceled
    }

    fn is_canceled(&self) -> (canceled: bool) {
        self.is_canceled
    }

    fn set_canceled(&mut self, canceled: bool)
        ensures
            final(self).status == old(self).status,
    {
        self.is_canceled = canceled;
    }
}

} // verus!
