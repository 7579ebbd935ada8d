use vstd::prelude::*;

use crate::commands::Echo;
use crate::events::ConnectionOpenedEvent;

verus! {

/// What an event of the command layer carries.
#[derive(Debug, Clone)]
pub enum EventPayload {
    Echo(Echo),
    ConnectionOpened(ConnectionOpenedEvent),
}

/// An event of the command layer, for one connection or for all.
#[derive(Debug, Clone)]
pub struct Event {
    pub target: Option<usize>,
    pub payload: EventPayload,
}

impl Event {
    /// An event for one connection.
    pub fn new(target: usize, payload: EventPayload) -> (r: Self)
        ensures
            r.target == Some(target),
            r.payload == payload,
    {
        Event { target: Some(target), payload }
    }
}

} // verus!
