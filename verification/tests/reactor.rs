use rustime::io::reactor::{event_readiness, IoSources, ReadyEvent, WAKER_TOKEN};
use rustime::io::scheduled_io::IoAttempt;
use rustime::io::{READABLE, WRITABLE};
use rustime::Poll;

fn ev(token: usize, readable: bool, writable: bool) -> ReadyEvent {
    ReadyEvent { token, readable, writable }
}

#[test]
fn event_readiness_bits() {
    assert_eq!(event_readiness(&ev(0, false, false)), 0);
    assert_eq!(event_readiness(&ev(0, true, false)), READABLE);
    assert_eq!(event_readiness(&ev(0, false, true)), WRITABLE);
    assert_eq!(event_readiness(&ev(0, true, true)), READABLE | WRITABLE);
    assert_eq!(event_readiness(&ev(0, true, true)), 3);
}

#[test]
fn tokens_are_handed_out_in_sequence() {
    let mut t: IoSources<u32> = IoSources::new();
    assert_eq!(t.register(), 0);
    assert_eq!(t.register(), 1);
    assert_eq!(t.register(), 2);
    assert!(t.is_registered(0) && t.is_registered(1) && t.is_registered(2));
    assert!(!t.is_registered(3));
}

#[test]
fn deregistered_source_is_gone_and_its_token_not_reused() {
    let mut t: IoSources<u32> = IoSources::new();
    let a = t.register();
    t.deregister(a);
    assert!(!t.is_registered(a));
    let b = t.register();
    assert_ne!(a, b);
    // Removing a token that is not registered changes nothing.
    t.deregister(99);
    assert!(t.is_registered(b));
}

#[test]
fn fresh_source_waits() {
    let mut t: IoSources<u32> = IoSources::new();
    let a = t.register();
    assert_eq!(t.poll_readable(a, 1, 10), Poll::Pending);
    assert_eq!(t.poll_writable(a, 1, 11), Poll::Pending);
}

#[test]
fn dispatch_wakes_the_waiting_tasks_in_order() {
    let mut t: IoSources<u32> = IoSources::new();
    let a = t.register();
    let b = t.register();
    assert_eq!(t.poll_readable(a, 1, 10), Poll::Pending);
    assert_eq!(t.poll_writable(b, 2, 20), Poll::Pending);
    assert_eq!(t.poll_readable(b, 3, 30), Poll::Pending);
    let woken = t.dispatch(&vec![ev(b, true, true), ev(a, true, false)]);
    assert_eq!(woken, vec![30, 20, 10]);
    assert_eq!(t.poll_readable(a, 1, 12), Poll::Ready(()));
    assert_eq!(t.poll_writable(a, 1, 13), Poll::Pending);
    assert_eq!(t.poll_writable(b, 2, 22), Poll::Ready(()));
}

#[test]
fn dispatch_ignores_waker_token_and_unknown_tokens() {
    let mut t: IoSources<u32> = IoSources::new();
    let a = t.register();
    assert_eq!(t.poll_readable(a, 1, 10), Poll::Pending);
    let woken = t.dispatch(&vec![ev(WAKER_TOKEN, true, true), ev(a + 5, true, true)]);
    assert_eq!(woken, Vec::<u32>::new());
    assert!(!t.is_registered(a + 5));
    assert_eq!(t.poll_readable(a, 1, 10), Poll::Pending);
    assert_eq!(t.dispatch(&vec![ev(a, true, false)]), vec![10]);
}

#[test]
fn dispatch_of_no_event_changes_nothing() {
    let mut t: IoSources<u32> = IoSources::new();
    let a = t.register();
    assert_eq!(t.poll_readable(a, 1, 10), Poll::Pending);
    assert_eq!(t.dispatch(&vec![]), Vec::<u32>::new());
    assert_eq!(t.dispatch(&vec![ev(a, false, false)]), Vec::<u32>::new());
    assert_eq!(t.dispatch(&vec![ev(a, true, false)]), vec![10]);
}

#[test]
fn settle_through_the_table() {
    let mut t: IoSources<u32> = IoSources::new();
    let a = t.register();
    t.dispatch(&vec![ev(a, true, true)]);
    assert_eq!(t.settle::<usize, i32>(a, READABLE, IoAttempt::Done(3)), Some(Ok(3)));
    assert_eq!(t.settle::<usize, i32>(a, READABLE, IoAttempt::Failed(-1)), Some(Err(-1)));
    assert_eq!(t.poll_readable(a, 1, 10), Poll::Ready(()));
    assert_eq!(t.settle::<usize, i32>(a, READABLE, IoAttempt::WouldBlock), None);
    assert_eq!(t.poll_readable(a, 1, 10), Poll::Pending);
    assert_eq!(t.poll_writable(a, 1, 11), Poll::Ready(()));
}

#[test]
fn readiness_query() {
    let mut t: IoSources<u32> = IoSources::new();
    let a = t.register();
    assert!(!t.is_ready(a, READABLE));
    t.dispatch(&vec![ev(a, false, true)]);
    assert!(!t.is_ready(a, READABLE));
    assert!(t.is_ready(a, WRITABLE));
    assert!(t.is_ready(a, READABLE | WRITABLE));
}
