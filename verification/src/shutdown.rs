//! The shutdown signal, and the decisions of the loop that accepts
//! connections: when to take a new one, when to tell all of them to stop, and
//! when the process may exit.

use crate::event::Outcome;
use vstd::prelude::*;

verus! {

/// The signal that tells the proxy to stop. It is raised at most once and
/// never reset: raising it again changes nothing.
#[derive(Debug, Clone, Copy, PartialEq, Eq, Structural)]
pub struct CancellationSignal {
    pub raised: bool,
}

impl CancellationSignal {
    /// A signal that has not been raised.
    pub fn new() -> (s: Self)
        ensures
            !s.raised,
    {
        CancellationSignal { raised: false }
    }

    /// Raises the signal. Says whether this call was the one that raised it.
    pub fn trigger(&mut self) -> (first: bool)
        ensures
            final(self).raised,
            first == !old(self).raised,
    {
        let first = !self.raised;
        self.raised = true;
        first
    }

    /// Whether the signal has been raised.
    pub fn is_triggered(&self) -> (r: bool)
        ensures
            r == self.raised,
    {
        self.raised
    }
}

/// Where the listener stands.
#[derive(Debug, Clone, Copy, PartialEq, Eq, Structural)]
pub enum ListenerState {
    /// The local address is being bound.
    Starting,
    /// The local address is bound.
    Listening,
    /// The local address could not be bound: the one fatal failure.
    Aborted,
}

/// Something that the accept loop has to decide on.
#[derive(Debug, Clone, Copy, PartialEq, Eq, Structural)]
pub enum ListenerEvent {
    /// The local address was bound.
    Bound,
    /// The local address could not be bound.
    BindFailed,
    /// A client connected.
    Accepted,
    /// A connection that was taken on has ended and released its sockets.
    ConnectionEnded(Outcome),
    /// Shutdown was asked for.
    Shutdown,
}

/// What the accept loop is to do.
#[derive(Debug, Clone, Copy, PartialEq, Eq, Structural)]
pub enum Directive {
    /// Nothing.
    Nothing,
    /// Tell whoever asked that the listener is ready.
    AnnounceReady,
    /// Take the connection on as a unit of work of its own.
    Serve,
    /// Close the connection that was just accepted.
    Refuse,
    /// Stop accepting, and tell every connection in flight to stop.
    CancelAll,
}

/// The accept loop's view of the proxy: the listener, the shutdown signal, and
/// how many connections are in flight.
#[derive(Debug, Clone, Copy, PartialEq, Eq, Structural)]
pub struct Supervisor {
    pub listener: ListenerState,
    pub signal: CancellationSignal,
    pub active: u64,
}

impl Supervisor {
    /// Whether new connections are taken on.
    pub open spec fn accepting(self) -> bool {
        self.listener == ListenerState::Listening && !self.signal.raised
    }

    /// Whether the process may exit: after a failure to bind, or after
    /// shutdown once no connection is in flight any more.
    pub open spec fn finished(self) -> bool {
        self.listener == ListenerState::Aborted || (self.signal.raised && self.active == 0)
    }

    /// The supervisor after an event, and what the accept loop is to do.
    ///
    /// How a connection ended never matters here: it only is one connection
    /// less in flight. The first request for shutdown stops the accepting and
    /// cancels all connections; any further one changes nothing.
    pub open spec fn step_spec(self, event: ListenerEvent) -> (Supervisor, Directive) {
        match event {
            ListenerEvent::Bound => if self.listener == ListenerState::Starting {
                (
                    Supervisor { listener: ListenerState::Listening, ..self },
                    Directive::AnnounceReady,
                )
            } else {
                (self, Directive::Nothing)
            },
            ListenerEvent::BindFailed => if self.listener == ListenerState::Starting {
                (Supervisor { listener: ListenerState::Aborted, ..self }, Directive::Nothing)
            } else {
                (self, Directive::Nothing)
            },
            ListenerEvent::Accepted => if self.accepting() && self.active < u64::MAX {
                (Supervisor { active: (self.active + 1) as u64, ..self }, Directive::Serve)
            } else {
                (self, Directive::Refuse)
            },
            ListenerEvent::ConnectionEnded(_) => if self.active > 0 {
                (Supervisor { active: (self.active - 1) as u64, ..self }, Directive::Nothing)
            } else {
                (self, Directive::Nothing)
            },
            ListenerEvent::Shutdown => if self.signal.raised {
                (self, Directive::Nothing)
            } else {
                (
                    Supervisor { signal: CancellationSignal { raised: true }, ..self },
                    Directive::CancelAll,
                )
            },
        }
    }

    /// A supervisor before the local address is bound.
    pub fn new() -> (s: Supervisor)
        ensures
            s == (Supervisor {
                listener: ListenerState::Starting,
                signal: CancellationSignal { raised: false },
                active: 0,
            }),
    {
        Supervisor {
            listener: ListenerState::Starting,
            signal: CancellationSignal::new(),
            active: 0,
        }
    }

    /// Takes one event and says what the accept loop is to do.
    pub fn step(self, event: ListenerEvent) -> (r: (Supervisor, Directive))
        ensures
            r == self.step_spec(event),
    {
        let mut next = self;
        match event {
            ListenerEvent::Bound => match next.listener {
                ListenerState::Starting => {
                    next.listener = ListenerState::Listening;
                    (next, Directive::AnnounceReady)
                },
                _ => (next, Directive::Nothing),
            },
            ListenerEvent::BindFailed => match next.listener {
                ListenerState::Starting => {
                    next.listener = ListenerState::Aborted;
                    (next, Directive::Nothing)
                },
                _ => (next, Directive::Nothing),
            },
            ListenerEvent::Accepted => {
                if next.is_accepting() && next.active < u64::MAX {
                    next.active = next.active + 1;
                    (next, Directive::Serve)
                } else {
                    (next, Directive::Refuse)
                }
            },
            ListenerEvent::ConnectionEnded(_) => {
                if next.active > 0 {
                    next.active = next.active - 1;
                }
                (next, Directive::Nothing)
            },
            ListenerEvent::Shutdown => {
                let first = next.signal.trigger();
                if first {
                    (next, Directive::CancelAll)
                } else {
                    (next, Directive::Nothing)
                }
            },
        }
    }

    /// Whether new connections are taken on.
    pub fn is_accepting(&self) -> (r: bool)
        ensures
            r == self.accepting(),
    {
        match self.listener {
            ListenerState::Listening => !self.signal.is_triggered(),
            _ => false,
        }
    }

    /// Whether the process may exit.
    pub fn is_finished(&self) -> (r: bool)
        ensures
            r == self.finished(),
    {
        match self.listener {
            ListenerState::Aborted => true,
            _ => self.signal.is_triggered() && self.active == 0,
        }
    }
}

/// Cancellation is idempotent: asking for shutdown again leaves the supervisor
/// as the first request left it and cancels nothing a second time.
pub proof fn lemma_shutdown_idempotent(s: Supervisor)
    ensures
        s.step_spec(ListenerEvent::Shutdown).0.signal.raised,
        s.step_spec(ListenerEvent::Shutdown).0.step_spec(ListenerEvent::Shutdown) == (
            s.step_spec(ListenerEvent::Shutdown).0,
            Directive::Nothing,
        ),
        !s.signal.raised ==> s.step_spec(ListenerEvent::Shutdown).1 == Directive::CancelAll,
{
}

/// Once shutdown was asked for, no connection is taken on any more, whatever
/// happens afterwards, and the signal stays raised.
pub proof fn lemma_no_accept_after_shutdown(s: Supervisor, event: ListenerEvent)
    requires
        s.signal.raised,
    ensures
        s.step_spec(event).0.signal.raised,
        s.step_spec(event).1 != Directive::Serve,
        s.step_spec(event).0.active <= s.active,
{
}

/// The end of a connection, however it ended, leaves the listener and the
/// signal as they were: a failure stays within its connection.
pub proof fn lemma_failures_stay_local(s: Supervisor, outcome: Outcome)
    ensures
        s.step_spec(ListenerEvent::ConnectionEnded(outcome)).0.listener == s.listener,
        s.step_spec(ListenerEvent::ConnectionEnded(outcome)).0.signal == s.signal,
        s.step_spec(ListenerEvent::ConnectionEnded(outcome)).0.accepting() == s.accepting(),
        s.step_spec(ListenerEvent::ConnectionEnded(outcome)).1 == Directive::Nothing,
{
}

/// Graceful drain: after shutdown the process may exit exactly when no
/// connection is in flight, so not before each has released its sockets.
pub proof fn lemma_exit_waits_for_drain(s: Supervisor)
    requires
        s.listener != ListenerState::Aborted,
    ensures
        s.finished() <==> s.signal.raised && s.active == 0,
{
}

} // verus!
