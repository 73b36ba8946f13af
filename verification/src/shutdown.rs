//! Stopping the server. Once shutdown is signalled no connection is
//! accepted any more; those that are open may finish, and the process
//! waits for them, but not for ever.

use vstd::prelude::*;

verus! {

/// Where the server as a whole stands.
#[derive(Clone, Copy, Debug, PartialEq, Eq)]
pub enum ServerState {
    /// Listening; `open` connections are being served.
    Accepting { open: usize },
    /// Shutdown was signalled. Nothing is accepted; `open` connections
    /// are still being served.
    Draining { open: usize },
    /// The process is to exit.
    Stopped,
}

/// What the listener reports.
#[derive(Clone, Copy, Debug, PartialEq, Eq)]
pub enum ServerEvent {
    /// A connection was accepted.
    Accepted,
    /// The task of a connection ended.
    ConnectionClosed,
    /// An interrupt or terminate signal arrived.
    ShutdownSignal,
    /// The time allowed for open connections to finish ran out.
    DrainTimeout,
}

/// What the listener is to do next.
#[derive(Clone, Copy, Debug, PartialEq, Eq)]
pub enum ServerAction {
    /// Serve the connection that was accepted, and go on.
    Serve,
    /// Drop the connection that was accepted, and go on.
    Refuse,
    /// Go on.
    Continue,
    /// Raise the shutdown flag, stop listening, and wait for the open
    /// connections within the time allowed.
    Drain,
    /// Exit. `forced` says that connections were still open.
    Exit { forced: bool },
}

/// The next state and the next action, for every state and event.
///
/// While accepting, every connection is served and counted. A shutdown
/// signal ends the accepting: with no connection open the process exits
/// at once, else it waits until the last one closes, or exits by force
/// when the time allowed runs out.
pub open spec fn server_transition(state: ServerState, event: ServerEvent) -> (
    ServerState,
    ServerAction,
) {
    match state {
        ServerState::Accepting { open } => match event {
            ServerEvent::Accepted => if open < usize::MAX {
                (ServerState::Accepting { open: (open + 1) as usize }, ServerAction::Serve)
            } else {
                (state, ServerAction::Refuse)
            },
            ServerEvent::ConnectionClosed => if open > 0 {
                (ServerState::Accepting { open: (open - 1) as usize }, ServerAction::Continue)
            } else {
                (state, ServerAction::Continue)
            },
            ServerEvent::ShutdownSignal => if open == 0 {
                (ServerState::Stopped, ServerAction::Exit { forced: false })
            } else {
                (ServerState::Draining { open }, ServerAction::Drain)
            },
            ServerEvent::DrainTimeout => (state, ServerAction::Continue),
        },
        ServerState::Draining { open } => match event {
            ServerEvent::Accepted => (state, ServerAction::Refuse),
            ServerEvent::ConnectionClosed => if open <= 1 {
                (ServerState::Stopped, ServerAction::Exit { forced: false })
            } else {
                (ServerState::Draining { open: (open - 1) as usize }, ServerAction::Continue)
            },
            ServerEvent::ShutdownSignal => (state, ServerAction::Continue),
            ServerEvent::DrainTimeout => (ServerState::Stopped, ServerAction::Exit { forced: true }),
        },
        ServerState::Stopped => (
            ServerState::Stopped,
            match event {
                ServerEvent::Accepted => ServerAction::Refuse,
                _ => ServerAction::Continue,
            },
        ),
    }
}

impl ServerState {
    /// The state of a server that has just begun to listen.
    pub fn start() -> (state: ServerState)
        ensures
            state == (ServerState::Accepting { open: 0 }),
    {
        ServerState::Accepting { open: 0 }
    }

    /// Takes one event and answers with the next state and what to do
    /// next.
    pub fn step(self, event: ServerEvent) -> (next: (ServerState, ServerAction))
        ensures
            next == server_transition(self, event),
    {
        match self {
            ServerState::Accepting { open } => match event {
                ServerEvent::Accepted => if open < usize::MAX {
                    (ServerState::Accepting { open: open + 1 }, ServerAction::Serve)
                } else {
                    (self, ServerAction::Refuse)
                },
                ServerEvent::ConnectionClosed => if open > 0 {
                    (ServerState::Accepting { open: open - 1 }, ServerAction::Continue)
                } else {
                    (self, ServerAction::Continue)
                },
                ServerEvent::ShutdownSignal => if open == 0 {
                    (ServerState::Stopped, ServerAction::Exit { forced: false })
                } else {
                    (ServerState::Draining { open }, ServerAction::Drain)
                },
                ServerEvent::DrainTimeout => (self, ServerAction::Continue),
            },
            ServerState::Draining { open } => match event {
                ServerEvent::Accepted => (self, ServerAction::Refuse),
                ServerEvent::ConnectionClosed => if open <= 1 {
                    (ServerState::Stopped, ServerAction::Exit { forced: false })
                } else {
                    (ServerState::Draining { open: open - 1 }, ServerAction::Continue)
                },
                ServerEvent::ShutdownSignal => (self, ServerAction::Continue),
                ServerEvent::DrainTimeout => (
                    ServerState::Stopped,
                    ServerAction::Exit { forced: true },
                ),
            },
            ServerState::Stopped => (
                ServerState::Stopped,
                match event {
                    ServerEvent::Accepted => ServerAction::Refuse,
                    _ => ServerAction::Continue,
                },
            ),
        }
    }
}

/// Whether shutdown was signalled by the time a state is reached.
pub open spec fn is_shutting_down(state: ServerState) -> bool {
    !(state is Accepting)
}

/// Once shutdown is signalled it stays so, and no connection is served
/// any more.
pub proof fn law_nothing_is_accepted_after_shutdown(state: ServerState, event: ServerEvent)
    requires
        is_shutting_down(state) || event == ServerEvent::ShutdownSignal,
    ensures
        is_shutting_down(server_transition(state, event).0),
        server_transition(state, event).1 != ServerAction::Serve,
{
}

/// The process exits without force only when no connection is open any
/// more, and by force only when the time allowed ran out.
pub proof fn law_exit_waits_for_connections(state: ServerState, event: ServerEvent)
    ensures
        server_transition(state, event).1 == (ServerAction::Exit { forced: false }) ==> {
            ||| state == (ServerState::Accepting { open: 0 }) && event
                == ServerEvent::ShutdownSignal
            ||| state matches ServerState::Draining { open } && open <= 1 && event
                == ServerEvent::ConnectionClosed
        },
        server_transition(state, event).1 == (ServerAction::Exit { forced: true }) ==> state
            is Draining && event == ServerEvent::DrainTimeout,
{
}

} // verus!
