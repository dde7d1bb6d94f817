use rustime::rt::task::{JoinHandle, TaskResult, TaskSlot};
use rustime::Poll;

#[test]
fn pending_future_goes_back() {
    let mut slot = TaskSlot::new("future");
    let f = slot.begin_poll();
    assert_eq!(f, Some("future"));
    // While it is being polled, nobody else can take it.
    assert_eq!(slot.begin_poll(), None);
    slot.finish_poll(f.unwrap(), Poll::Pending);
    assert_eq!(slot.begin_poll(), Some("future"));
}

#[test]
fn completed_future_is_not_polled_again() {
    let mut slot = TaskSlot::new(5u8);
    let f = slot.begin_poll().unwrap();
    slot.finish_poll(f, Poll::Ready(()));
    for _ in 0..5 {
        assert_eq!(slot.begin_poll(), None);
    }
}

#[test]
fn result_wakes_every_waiter_in_order() {
    let mut r: TaskResult<String, u32> = TaskResult::new();
    assert_eq!(r.poll(1), Poll::Pending);
    assert_eq!(r.poll(2), Poll::Pending);
    assert_eq!(r.poll(1), Poll::Pending);
    assert_eq!(r.set("done".to_string()), vec![1, 2, 1]);
    assert_eq!(r.poll(3), Poll::Ready("done".to_string()));
    assert_eq!(r.poll(4), Poll::Ready("done".to_string()));
}

#[test]
fn result_set_before_any_poll() {
    let mut r: TaskResult<u64, u32> = TaskResult::new();
    assert_eq!(r.set(42), Vec::<u32>::new());
    assert_eq!(r.poll(1), Poll::Ready(42));
    // Polls after the result is set register nobody.
    assert_eq!(r.set(43), Vec::<u32>::new());
    assert_eq!(r.poll(1), Poll::Ready(43));
}

#[test]
fn join_handle_hands_over_the_result() {
    let mut h: JoinHandle<i32, &str> = JoinHandle::new(TaskResult::new());
    assert_eq!(h.poll("main"), Poll::Pending);
    assert_eq!(h.set(-7), vec!["main"]);
    assert_eq!(h.poll("main"), Poll::Ready(-7));
}
