use vstd::prelude::*;

use crate::commands::Echo;
use crate::engine::state::State;
use crate::error::Error;

verus! {

/// Tells a connection that it is open.
#[derive(Debug, Clone, PartialEq, Eq)]
pub struct ConnectionOpenedEvent();

/// Carries an error back to the connection whose message caused it.
#[derive(Debug, Clone)]
pub struct ErrorEvent(pub Error);

/// Carries the engine state after a tick.
#[derive(Debug, Clone)]
pub struct StateChangeEvent(pub State);

/// What an event says.
#[derive(Debug, Clone)]
pub enum EventBody {
    Echo(Echo),
    ConnectionOpened(ConnectionOpenedEvent),
    StateChanged(StateChangeEvent),
    Error(ErrorEvent),
}

/// An event for one connection (`target`) or for all of them (`None`).
#[derive(Debug, Clone)]
pub struct Event {
    pub target: Option<usize>,
    pub body: EventBody,
}

impl Event {
    /// An event for one connection.
    pub fn new(target: usize, payload: EventBody) -> (r: Self)
        ensures
            r.target == Some(target),
            r.body == payload,
    {
        Event { target: Some(target), body: payload }
    }
}

impl ErrorEvent {
    /// The event that carries an error.
    pub fn from_error(error: Error) -> (r: Self)
        ensures
            r.0 == error,
    {
        ErrorEvent(error)
    }
}

} // verus!
