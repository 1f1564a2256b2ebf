//! The accept loop of the remote tool server, as a state machine.

use vstd::prelude::*;

verus! {

/// The loopback address `127.0.0.1`, as a 32-bit number.
pub const LOOPBACK: u32 = 0x7f00_0001;

/// The port of the remote tool server.
pub const SERVER_PORT: u16 = 30331;

/// What the caller has to do next for the server.
#[derive(Clone, Copy, Debug, PartialEq, Eq, Structural)]
pub enum ListenerAction {
    /// Bind a TCP listener to this address and port.
    Bind { address: u32, port: u16 },
    /// Wait for the next connection.
    Accept,
    /// Hand the connection that came in to a handler of its own, and wait
    /// for the next connection.
    Serve,
    /// Give the listener up: the server is over.
    Stop,
}

/// What happened to the listener.
#[derive(Clone, Copy, Debug, PartialEq, Eq, Structural)]
pub enum ListenerEvent {
    Bound,
    BindFailed,
    Accepted,
    AcceptFailed,
}

/// Where the server stands.
#[derive(Clone, Copy, Debug, PartialEq, Eq, Structural)]
pub enum Listener {
    Binding,
    Accepting,
    Stopped,
}

/// An event that the listener does not survive.
pub open spec fn is_fatal(event: ListenerEvent) -> bool {
    event is BindFailed || event is AcceptFailed
}

/// The transition of the server. An event that does not answer what is
/// awaited changes nothing and asks for nothing.
pub open spec fn listener_step(state: Listener, event: ListenerEvent) -> (
    Listener,
    Option<ListenerAction>,
) {
    match (state, event) {
        (Listener::Binding, ListenerEvent::Bound) => (
            Listener::Accepting,
            Some(ListenerAction::Accept),
        ),
        (Listener::Binding, ListenerEvent::BindFailed) => (
            Listener::Stopped,
            Some(ListenerAction::Stop),
        ),
        (Listener::Accepting, ListenerEvent::Accepted) => (
            Listener::Accepting,
            Some(ListenerAction::Serve),
        ),
        (Listener::Accepting, ListenerEvent::AcceptFailed) => (
            Listener::Stopped,
            Some(ListenerAction::Stop),
        ),
        _ => (state, None),
    }
}

/// The server after a sequence of events.
pub open spec fn listener_after(events: Seq<ListenerEvent>) -> Listener
    decreases events.len(),
{
    if events.len() == 0 {
        Listener::Binding
    } else {
        listener_step(listener_after(events.drop_last()), events.last()).0
    }
}

/// How many connections were handed to a handler over a sequence of events.
pub open spec fn served(events: Seq<ListenerEvent>) -> nat
    decreases events.len(),
{
    if events.len() == 0 {
        0
    } else {
        served(events.drop_last()) + if listener_step(
            listener_after(events.drop_last()),
            events.last(),
        ).1 == Some(ListenerAction::Serve) {
            1nat
        } else {
            0nat
        }
    }
}

/// How many times an event occurs in a sequence.
pub open spec fn occurrences(events: Seq<ListenerEvent>, event: ListenerEvent) -> nat
    decreases events.len(),
{
    if events.len() == 0 {
        0
    } else {
        occurrences(events.drop_last(), event) + if events.last() == event {
            1nat
        } else {
            0nat
        }
    }
}

/// Starts the server: the first thing to do is to bind the loopback
/// address at the server's port.
pub fn start_mcp_server() -> (start: (Listener, ListenerAction))
    ensures
        start.0 == Listener::Binding,
        start.1 == (ListenerAction::Bind { address: LOOPBACK, port: SERVER_PORT }),
{
    (Listener::Binding, ListenerAction::Bind { address: LOOPBACK, port: SERVER_PORT })
}

impl Listener {
    /// Takes what happened to the listener and says what to do next.
    pub fn step(self, event: ListenerEvent) -> (next: (Listener, Option<ListenerAction>))
        ensures
            next == listener_step(self, event),
    {
        match (self, event) {
            (Listener::Binding, ListenerEvent::Bound) => (
                Listener::Accepting,
                Some(ListenerAction::Accept),
            ),
            (Listener::Binding, ListenerEvent::BindFailed) => (
                Listener::Stopped,
                Some(ListenerAction::Stop),
            ),
            (Listener::Accepting, ListenerEvent::Accepted) => (
                Listener::Accepting,
                Some(ListenerAction::Serve),
            ),
            (Listener::Accepting, ListenerEvent::AcceptFailed) => (
                Listener::Stopped,
                Some(ListenerAction::Stop),
            ),
            (state, _) => (state, None),
        }
    }

    /// Whether the server is over.
    pub fn is_stopped(&self) -> (stopped: bool)
        ensures
            stopped == (*self == Listener::Stopped),
    {
        match self {
            Listener::Stopped => true,
            _ => false,
        }
    }
}

/// The server goes on for as long as the listener itself does not fail:
/// over events of which none is a failure to bind or to accept it never
/// stops, and once it is bound every connection that comes in is handed to
/// a handler.
pub proof fn lemma_listener_survives(events: Seq<ListenerEvent>)
    requires
        forall|k: int| 0 <= k < events.len() ==> !is_fatal(#[trigger] events[k]),
    ensures
        listener_after(events) != Listener::Stopped,
        listener_after(events) == Listener::Binding ==> served(events) == 0,
        events.len() > 0 && events[0] == ListenerEvent::Bound ==> served(events) == occurrences(
            events,
            ListenerEvent::Accepted,
        ) && listener_after(events) == Listener::Accepting,
    decreases events.len(),
{
    if events.len() > 0 {
        let earlier = events.drop_last();
        lemma_listener_survives(earlier);
        if earlier.len() == 0 {
            assert(occurrences(earlier, ListenerEvent::Accepted) == 0);
        } else {
            assert(earlier[0] == events[0]);
        }
    }
}

/// A server that has stopped stays stopped and serves no more connections.
pub proof fn lemma_listener_stays_stopped(events: Seq<ListenerEvent>, event: ListenerEvent)
    requires
        listener_after(events) == Listener::Stopped,
    ensures
        listener_after(events.push(event)) == Listener::Stopped,
        served(events.push(event)) == served(events),
{
    assert(events.push(event).drop_last() == events);
}

} // verus!
