use rustime::io::scheduled_io::{IoAttempt, ScheduledIo};
use rustime::io::{READABLE, WRITABLE};
use rustime::Poll;

#[test]
fn fresh_source_is_not_ready() {
    let mut io: ScheduledIo<u32> = ScheduledIo::new();
    assert_eq!(io.poll_readable(1, 10), Poll::Pending);
    assert_eq!(io.poll_writable(1, 11), Poll::Pending);
}

#[test]
fn readable_event_wakes_the_reader() {
    let mut io: ScheduledIo<u32> = ScheduledIo::new();
    assert_eq!(io.poll_readable(1, 10), Poll::Pending);
    assert_eq!(io.set_readiness(READABLE), vec![10]);
    assert_eq!(io.poll_readable(1, 11), Poll::Ready(()));
    // The reader slot was emptied by the event: nothing more to wake.
    assert_eq!(io.set_readiness(READABLE), Vec::<u32>::new());
}

#[test]
fn writable_event_wakes_the_writer() {
    let mut io: ScheduledIo<u32> = ScheduledIo::new();
    assert_eq!(io.poll_writable(7, 70), Poll::Pending);
    assert_eq!(io.set_readiness(WRITABLE), vec![70]);
    assert_eq!(io.poll_writable(7, 71), Poll::Ready(()));
}

#[test]
fn both_directions_wake_reader_first() {
    let mut io: ScheduledIo<&str> = ScheduledIo::new();
    assert_eq!(io.poll_writable(2, "writer"), Poll::Pending);
    assert_eq!(io.poll_readable(1, "reader"), Poll::Pending);
    assert_eq!(io.set_readiness(READABLE | WRITABLE), vec!["reader", "writer"]);
}

#[test]
fn directions_are_independent() {
    let mut io: ScheduledIo<u32> = ScheduledIo::new();
    assert_eq!(io.poll_readable(1, 10), Poll::Pending);
    assert_eq!(io.set_readiness(WRITABLE), Vec::<u32>::new());
    assert_eq!(io.poll_readable(1, 12), Poll::Pending);
    assert_eq!(io.poll_writable(1, 13), Poll::Ready(()));
    assert_eq!(io.set_readiness(READABLE), vec![10]);
}

#[test]
fn same_task_keeps_its_first_waker() {
    let mut io: ScheduledIo<u32> = ScheduledIo::new();
    assert_eq!(io.poll_readable(5, 50), Poll::Pending);
    assert_eq!(io.poll_readable(5, 51), Poll::Pending);
    assert_eq!(io.set_readiness(READABLE), vec![50]);
}

#[test]
fn another_task_replaces_the_waker() {
    let mut io: ScheduledIo<u32> = ScheduledIo::new();
    assert_eq!(io.poll_readable(5, 50), Poll::Pending);
    assert_eq!(io.poll_readable(6, 60), Poll::Pending);
    assert_eq!(io.set_readiness(READABLE), vec![60]);
}

#[test]
fn clear_makes_the_next_poll_wait() {
    let mut io: ScheduledIo<u32> = ScheduledIo::new();
    io.set_readiness(READABLE | WRITABLE);
    io.clear_readiness(READABLE);
    assert_eq!(io.poll_readable(1, 10), Poll::Pending);
    assert_eq!(io.poll_writable(1, 11), Poll::Ready(()));
    assert_eq!(io.set_readiness(READABLE), vec![10]);
    assert_eq!(io.poll_readable(1, 12), Poll::Ready(()));
}

#[test]
fn readiness_stays_until_cleared() {
    let mut io: ScheduledIo<u32> = ScheduledIo::new();
    io.set_readiness(READABLE);
    io.set_readiness(WRITABLE);
    io.set_readiness(0);
    assert_eq!(io.poll_readable(1, 10), Poll::Ready(()));
    assert_eq!(io.poll_writable(1, 11), Poll::Ready(()));
}

#[test]
fn settle_passes_results_and_errors_through() {
    let mut io: ScheduledIo<u32> = ScheduledIo::new();
    io.set_readiness(READABLE);
    assert_eq!(io.settle::<usize, &str>(READABLE, IoAttempt::Done(5)), Some(Ok(5)));
    assert_eq!(io.settle::<usize, &str>(READABLE, IoAttempt::Failed("reset")), Some(Err("reset")));
    // Neither cleared the readiness.
    assert_eq!(io.poll_readable(1, 10), Poll::Ready(()));
}

#[test]
fn would_block_clears_the_interest() {
    let mut io: ScheduledIo<u32> = ScheduledIo::new();
    io.set_readiness(READABLE | WRITABLE);
    assert_eq!(io.settle::<usize, &str>(WRITABLE, IoAttempt::WouldBlock), None);
    assert_eq!(io.poll_writable(1, 10), Poll::Pending);
    assert_eq!(io.poll_readable(1, 11), Poll::Ready(()));
}

#[test]
fn readiness_query_on_a_source() {
    let mut io: ScheduledIo<u32> = ScheduledIo::new();
    assert!(!io.is_ready(READABLE));
    io.set_readiness(READABLE);
    assert!(io.is_ready(READABLE));
    assert!(!io.is_ready(WRITABLE));
}
