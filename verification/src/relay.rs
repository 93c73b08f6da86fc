//! The relay pump: which bytes go where once the tunnel stands, and when the
//! two sockets are closed.

use crate::error::{Peer, ProxyError};
use crate::event::{closing, idle, Event, EventView, Outcome, Output, OutputView};
use vstd::prelude::*;

verus! {

/// The state of the pump. Each direction runs until the side that feeds it
/// ends its stream; the pump stops when both have, on an error, or on
/// cancellation.
#[derive(Debug, Clone, Copy, PartialEq, Eq, Structural)]
pub enum Relay {
    /// Bytes flow in both directions.
    Both,
    /// The client has ended its stream; bytes still flow from the SOCKS5
    /// server to the client.
    UpstreamOnly,
    /// The SOCKS5 server has ended its stream; bytes still flow from the
    /// client to the SOCKS5 server.
    ClientOnly,
    /// The pump has stopped.
    Stopped(Outcome),
}

impl Relay {
    /// Whether bytes from the client are still carried.
    pub open spec fn carries_client(self) -> bool {
        self == Relay::Both || self == Relay::ClientOnly
    }

    /// Whether bytes from the SOCKS5 server are still carried.
    pub open spec fn carries_upstream(self) -> bool {
        self == Relay::Both || self == Relay::UpstreamOnly
    }

    /// The pump after an event, and what is to be done.
    ///
    /// Bytes read on one side are written to the other as they are. A stream
    /// that ends is ended towards the other side too, and the opposite
    /// direction goes on. Both sockets are closed when the second stream ends,
    /// on any error, and on cancellation. A stopped pump does nothing.
    pub open spec fn step_spec(self, event: EventView) -> (Relay, OutputView) {
        if self is Stopped {
            (self, idle())
        } else {
            match event {
                EventView::Cancelled => (
                    Relay::Stopped(Outcome::Failed(ProxyError::Cancelled)),
                    closing(Seq::empty()),
                ),
                EventView::ClientError => (
                    Relay::Stopped(Outcome::Failed(ProxyError::IOError(Peer::Client))),
                    closing(Seq::empty()),
                ),
                EventView::UpstreamError => (
                    Relay::Stopped(Outcome::Failed(ProxyError::IOError(Peer::Upstream))),
                    closing(Seq::empty()),
                ),
                EventView::ClientData(bytes) => if self.carries_client() {
                    (self, OutputView { to_upstream: bytes, ..idle() })
                } else {
                    (self, idle())
                },
                EventView::UpstreamData(bytes) => if self.carries_upstream() {
                    (self, OutputView { to_client: bytes, ..idle() })
                } else {
                    (self, idle())
                },
                EventView::ClientEof => match self {
                    Relay::Both => (
                        Relay::UpstreamOnly,
                        OutputView { shutdown_upstream: true, ..idle() },
                    ),
                    Relay::ClientOnly => (Relay::Stopped(Outcome::Finished), closing(Seq::empty())),
                    _ => (self, idle()),
                },
                EventView::UpstreamEof => match self {
                    Relay::Both => (
                        Relay::ClientOnly,
                        OutputView { shutdown_client: true, ..idle() },
                    ),
                    Relay::UpstreamOnly => (
                        Relay::Stopped(Outcome::Finished),
                        closing(Seq::empty()),
                    ),
                    _ => (self, idle()),
                },
                _ => (self, idle()),
            }
        }
    }

    /// The pump at the moment the tunnel stands.
    pub fn start(client_ended: bool) -> (r: Relay)
        ensures
            r == if client_ended {
                Relay::UpstreamOnly
            } else {
                Relay::Both
            },
    {
        if client_ended {
            Relay::UpstreamOnly
        } else {
            Relay::Both
        }
    }

    /// Takes one event and says what is to be done.
    pub fn step(self, event: Event) -> (r: (Relay, Output))
        ensures
            (r.0, r.1@) == self.step_spec(event@),
    {
        if let Relay::Stopped(_) = self {
            return (self, Output::idle());
        }
        match event {
            Event::Cancelled => (
                Relay::Stopped(Outcome::Failed(ProxyError::Cancelled)),
                Output::closing(Vec::new()),
            ),
            Event::ClientError => (
                Relay::Stopped(Outcome::Failed(ProxyError::IOError(Peer::Client))),
                Output::closing(Vec::new()),
            ),
            Event::UpstreamError => (
                Relay::Stopped(Outcome::Failed(ProxyError::IOError(Peer::Upstream))),
                Output::closing(Vec::new()),
            ),
            Event::ClientData(bytes) => match self {
                Relay::Both | Relay::ClientOnly => (self, Output::upstream(bytes)),
                _ => (self, Output::idle()),
            },
            Event::UpstreamData(bytes) => match self {
                Relay::Both | Relay::UpstreamOnly => (self, Output::client(bytes)),
                _ => (self, Output::idle()),
            },
            Event::ClientEof => match self {
                Relay::Both => {
                    let mut out = Output::idle();
                    out.shutdown_upstream = true;
                    (Relay::UpstreamOnly, out)
                },
                Relay::ClientOnly => (
                    Relay::Stopped(Outcome::Finished),
                    Output::closing(Vec::new()),
                ),
                _ => (self, Output::idle()),
            },
            Event::UpstreamEof => match self {
                Relay::Both => {
                    let mut out = Output::idle();
                    out.shutdown_client = true;
                    (Relay::ClientOnly, out)
                },
                Relay::UpstreamOnly => (
                    Relay::Stopped(Outcome::Finished),
                    Output::closing(Vec::new()),
                ),
                _ => (self, Output::idle()),
            },
            _ => (self, Output::idle()),
        }
    }

    /// Whether the pump still reads from the client.
    pub fn reads_client(&self) -> (r: bool)
        ensures
            r == self.carries_client(),
    {
        match self {
            Relay::Both | Relay::ClientOnly => true,
            _ => false,
        }
    }

    /// Whether the pump still reads from the SOCKS5 server.
    pub fn reads_upstream(&self) -> (r: bool)
        ensures
            r == self.carries_upstream(),
    {
        match self {
            Relay::Both | Relay::UpstreamOnly => true,
            _ => false,
        }
    }
}

/// Bytes pass the pump unchanged: while a direction is open, what is read on
/// its source is exactly what is written to its sink, and nothing else is
/// written or done.
pub proof fn lemma_relay_is_identity(relay: Relay, bytes: Seq<u8>)
    ensures
        relay.carries_client() ==> relay.step_spec(EventView::ClientData(bytes)) == (
            relay,
            OutputView { to_upstream: bytes, ..idle() },
        ),
        relay.carries_upstream() ==> relay.step_spec(EventView::UpstreamData(bytes)) == (
            relay,
            OutputView { to_client: bytes, ..idle() },
        ),
{
}

/// Half-close: when the client ends its stream first, the pump ends the stream
/// towards the SOCKS5 server and closes nothing; every byte that the server
/// sends afterwards still reaches the client; and both sockets are closed only
/// when the server ends its stream too.
pub proof fn lemma_half_close_client(bytes: Seq<u8>)
    ensures
        Relay::Both.step_spec(EventView::ClientEof) == (
            Relay::UpstreamOnly,
            OutputView { shutdown_upstream: true, ..idle() },
        ),
        Relay::UpstreamOnly.step_spec(EventView::UpstreamData(bytes)) == (
            Relay::UpstreamOnly,
            OutputView { to_client: bytes, ..idle() },
        ),
        Relay::UpstreamOnly.step_spec(EventView::UpstreamEof) == (
            Relay::Stopped(Outcome::Finished),
            closing(Seq::empty()),
        ),
{
}

/// Half-close the other way round: when the SOCKS5 server ends its stream
/// first, what the client still sends reaches the server, and both sockets are
/// closed when the client ends its stream too.
pub proof fn lemma_half_close_upstream(bytes: Seq<u8>)
    ensures
        Relay::Both.step_spec(EventView::UpstreamEof) == (
            Relay::ClientOnly,
            OutputView { shutdown_client: true, ..idle() },
        ),
        Relay::ClientOnly.step_spec(EventView::ClientData(bytes)) == (
            Relay::ClientOnly,
            OutputView { to_upstream: bytes, ..idle() },
        ),
        Relay::ClientOnly.step_spec(EventView::ClientEof) == (
            Relay::Stopped(Outcome::Finished),
            closing(Seq::empty()),
        ),
{
}

/// Cancellation and errors stop a running pump at once with both sockets
/// closed, and a stopped pump stays stopped and asks for nothing more: a
/// second cancellation changes nothing.
pub proof fn lemma_relay_stops(relay: Relay, event: EventView)
    ensures
        !(relay is Stopped) ==> relay.step_spec(EventView::Cancelled) == (
            Relay::Stopped(Outcome::Failed(ProxyError::Cancelled)),
            closing(Seq::empty()),
        ),
        relay is Stopped ==> relay.step_spec(event) == (relay, idle()),
        relay.step_spec(EventView::Cancelled).0.step_spec(EventView::Cancelled) == (
            relay.step_spec(EventView::Cancelled).0,
            idle(),
        ),
        relay.step_spec(event).0 is Stopped && !(relay is Stopped) ==> relay.step_spec(
            event,
        ).1.close,
{
}

/// The pump after a run of events, with all that it wrote to the SOCKS5
/// server and all that it wrote to the client, in order.
pub open spec fn run(relay: Relay, events: Seq<EventView>) -> (Relay, Seq<u8>, Seq<u8>)
    decreases events.len(),
{
    if events.len() == 0 {
        (relay, Seq::empty(), Seq::empty())
    } else {
        let (before, up, down) = run(relay, events.drop_last());
        let (after, out) = before.step_spec(events.last());
        (after, up + out.to_upstream, down + out.to_client)
    }
}

/// All the bytes that the client sent in a run of events, in order.
pub open spec fn sent_by_client(events: Seq<EventView>) -> Seq<u8>
    decreases events.len(),
{
    if events.len() == 0 {
        Seq::empty()
    } else {
        sent_by_client(events.drop_last()) + match events.last() {
            EventView::ClientData(bytes) => bytes,
            _ => Seq::empty(),
        }
    }
}

/// All the bytes that the SOCKS5 server sent in a run of events, in order.
pub open spec fn sent_by_upstream(events: Seq<EventView>) -> Seq<u8>
    decreases events.len(),
{
    if events.len() == 0 {
        Seq::empty()
    } else {
        sent_by_upstream(events.drop_last()) + match events.last() {
            EventView::UpstreamData(bytes) => bytes,
            _ => Seq::empty(),
        }
    }
}

/// Whether the client ended its stream in a run of events.
pub open spec fn client_ended(events: Seq<EventView>) -> bool {
    exists|i: int| 0 <= i < events.len() && events[i] is ClientEof
}

/// Whether the SOCKS5 server ended its stream in a run of events.
pub open spec fn upstream_ended(events: Seq<EventView>) -> bool {
    exists|i: int| 0 <= i < events.len() && events[i] is UpstreamEof
}

/// Whether a run of events is one that two sockets can bring about without
/// failing: no error and no cancellation, and nothing of a side after the end
/// of its stream.
pub open spec fn undisturbed(events: Seq<EventView>) -> bool
    decreases events.len(),
{
    events.len() == 0 || (undisturbed(events.drop_last()) && match events.last() {
        EventView::ClientData(_) => !client_ended(events.drop_last()),
        EventView::ClientEof => !client_ended(events.drop_last()),
        EventView::UpstreamData(_) => !upstream_ended(events.drop_last()),
        EventView::UpstreamEof => !upstream_ended(events.drop_last()),
        EventView::ClientError => false,
        EventView::UpstreamError => false,
        EventView::Cancelled => false,
        _ => true,
    })
}

/// The state of a pump that started with both directions open, by which
/// streams have ended.
pub open spec fn state_after(client_ended: bool, upstream_ended: bool) -> Relay {
    if client_ended && upstream_ended {
        Relay::Stopped(Outcome::Finished)
    } else if client_ended {
        Relay::UpstreamOnly
    } else if upstream_ended {
        Relay::ClientOnly
    } else {
        Relay::Both
    }
}

/// Round trip: over any undisturbed run of events, all that the client sent
/// has gone to the SOCKS5 server and all that the server sent has gone to the
/// client, byte for byte and in order, whichever side ended its stream first;
/// and the pump has stopped if and only if both have.
pub proof fn lemma_relay_carries_everything(events: Seq<EventView>)
    requires
        undisturbed(events),
    ensures
        run(Relay::Both, events) == (
            state_after(client_ended(events), upstream_ended(events)),
            sent_by_client(events),
            sent_by_upstream(events),
        ),
    decreases events.len(),
{
    if events.len() > 0 {
        let earlier = events.drop_last();
        let last = events.last();
        lemma_relay_carries_everything(earlier);
        assert(forall|i: int| 0 <= i < earlier.len() ==> earlier[i] == events[i]);
        if client_ended(earlier) {
            let i = choose|i: int| 0 <= i < earlier.len() && earlier[i] is ClientEof;
            assert(events[i] is ClientEof);
        }
        if upstream_ended(earlier) {
            let i = choose|i: int| 0 <= i < earlier.len() && earlier[i] is UpstreamEof;
            assert(events[i] is UpstreamEof);
        }
        if client_ended(events) && !(last is ClientEof) {
            let i = choose|i: int| 0 <= i < events.len() && events[i] is ClientEof;
            assert(earlier[i] is ClientEof);
        }
        if upstream_ended(events) && !(last is UpstreamEof) {
            let i = choose|i: int| 0 <= i < events.len() && events[i] is UpstreamEof;
            assert(earlier[i] is UpstreamEof);
        }
        if last is ClientEof {
            assert(events[events.len() - 1] is ClientEof);
        }
        if last is UpstreamEof {
            assert(events[events.len() - 1] is UpstreamEof);
        }
        let (before, up, down) = run(Relay::Both, earlier);
        let (after, out) = before.step_spec(last);
        assert(up + out.to_upstream =~= sent_by_client(events));
        assert(down + out.to_client =~= sent_by_upstream(events));
    }
}

/// Once the pump has stopped, no run of events makes it write or start again.
pub proof fn lemma_stopped_stays_stopped(relay: Relay, events: Seq<EventView>)
    requires
        relay is Stopped,
    ensures
        run(relay, events) == (relay, Seq::<u8>::empty(), Seq::<u8>::empty()),
    decreases events.len(),
{
    if events.len() > 0 {
        lemma_stopped_stays_stopped(relay, events.drop_last());
        assert(Seq::<u8>::empty() + Seq::<u8>::empty() =~= Seq::<u8>::empty());
    }
}

} // verus!
