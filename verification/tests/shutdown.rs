use socks_hub::error::ProxyError;
use socks_hub::event::Outcome;
use socks_hub::shutdown::{CancellationSignal, Directive, ListenerEvent, ListenerState, Supervisor};

#[test]
fn signal_is_raised_once() {
    let mut signal = CancellationSignal::new();
    assert!(!signal.is_triggered());
    assert!(signal.trigger());
    assert!(signal.is_triggered());
    assert!(!signal.trigger());
    assert!(!signal.trigger());
    assert!(signal.is_triggered());
}

#[test]
fn listener_announces_itself_once() {
    let s = Supervisor::new();
    assert!(!s.is_accepting());
    let (s, d) = s.step(ListenerEvent::Bound);
    assert_eq!(d, Directive::AnnounceReady);
    assert_eq!(s.listener, ListenerState::Listening);
    assert!(s.is_accepting());
    let (s2, d) = s.step(ListenerEvent::Bound);
    assert_eq!(d, Directive::Nothing);
    assert_eq!(s2, s);
}

#[test]
fn failing_to_bind_is_fatal() {
    let (s, d) = Supervisor::new().step(ListenerEvent::BindFailed);
    assert_eq!(d, Directive::Nothing);
    assert_eq!(s.listener, ListenerState::Aborted);
    assert!(s.is_finished());
    assert_eq!(s.step(ListenerEvent::Accepted).1, Directive::Refuse);
}

#[test]
fn connections_are_served_and_counted() {
    let (s, _) = Supervisor::new().step(ListenerEvent::Bound);
    let (s, d1) = s.step(ListenerEvent::Accepted);
    let (s, d2) = s.step(ListenerEvent::Accepted);
    assert_eq!((d1, d2), (Directive::Serve, Directive::Serve));
    assert_eq!(s.active, 2);
    let failed = Outcome::Failed(ProxyError::UpstreamUnreachable);
    let (s, d) = s.step(ListenerEvent::ConnectionEnded(failed));
    assert_eq!(d, Directive::Nothing);
    assert_eq!(s.active, 1);
    assert!(s.is_accepting());
    assert!(!s.is_finished());
    let (s, d) = s.step(ListenerEvent::Accepted);
    assert_eq!(d, Directive::Serve);
    assert_eq!(s.active, 2);
}

#[test]
fn shutdown_cancels_once_and_drains() {
    let (s, _) = Supervisor::new().step(ListenerEvent::Bound);
    let (s, _) = s.step(ListenerEvent::Accepted);
    let (s, _) = s.step(ListenerEvent::Accepted);
    let (s, d) = s.step(ListenerEvent::Shutdown);
    assert_eq!(d, Directive::CancelAll);
    assert!(!s.is_accepting());
    assert!(!s.is_finished());
    let (again, d) = s.step(ListenerEvent::Shutdown);
    assert_eq!(d, Directive::Nothing);
    assert_eq!(again, s);
    assert_eq!(s.step(ListenerEvent::Accepted), (s, Directive::Refuse));
    let cancelled = Outcome::Failed(ProxyError::Cancelled);
    let (s, _) = s.step(ListenerEvent::ConnectionEnded(cancelled));
    assert!(!s.is_finished());
    let (s, _) = s.step(ListenerEvent::ConnectionEnded(Outcome::Finished));
    assert_eq!(s.active, 0);
    assert!(s.is_finished());
    let (s, d) = s.step(ListenerEvent::ConnectionEnded(Outcome::Finished));
    assert_eq!(d, Directive::Nothing);
    assert_eq!(s.active, 0);
}

#[test]
fn the_count_of_connections_does_not_overflow() {
    let full = Supervisor {
        listener: ListenerState::Listening,
        signal: CancellationSignal::new(),
        active: u64::MAX,
    };
    assert_eq!(full.step(ListenerEvent::Accepted), (full, Directive::Refuse));
}

#[test]
fn shutdown_without_connections_finishes_at_once() {
    let (s, _) = Supervisor::new().step(ListenerEvent::Bound);
    let (s, d) = s.step(ListenerEvent::Shutdown);
    assert_eq!(d, Directive::CancelAll);
    assert!(s.is_finished());
}
