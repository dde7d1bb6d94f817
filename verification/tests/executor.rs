use std::cell::RefCell;
use crossbeam_deque::{Injector, Worker};
use rustime::rt::executor::{
    after_look, find_task, schedule, schedule_by, search, worker_step, Next, Outcome, Probe,
    RoundRobinWakers, Search, Source, WorkerStep,
};

#[test]
fn search_order() {
    assert_eq!(after_look(Source::Own, Outcome::Found, 2), Next::Take);
    assert_eq!(after_look(Source::Own, Outcome::Empty, 2), Next::Look(Source::Shared));
    assert_eq!(after_look(Source::Shared, Outcome::Empty, 2), Next::Look(Source::Other(0)));
    assert_eq!(after_look(Source::Shared, Outcome::Retry, 2), Next::Restart);
    assert_eq!(after_look(Source::Shared, Outcome::Found, 2), Next::Take);
    assert_eq!(after_look(Source::Other(0), Outcome::Empty, 2), Next::Look(Source::Other(1)));
    assert_eq!(after_look(Source::Other(0), Outcome::Retry, 2), Next::Look(Source::Other(1)));
    assert_eq!(after_look(Source::Other(1), Outcome::Empty, 2), Next::Idle);
    assert_eq!(after_look(Source::Other(1), Outcome::Found, 2), Next::Take);
}

#[test]
fn search_without_other_workers() {
    assert_eq!(after_look(Source::Shared, Outcome::Empty, 0), Next::Idle);
    assert_eq!(after_look(Source::Shared, Outcome::Retry, 0), Next::Restart);
}

fn found(s: Search<u32>) -> Option<u32> {
    match s {
        Search::Found(t) => Some(t),
        _ => None,
    }
}

#[test]
fn own_queue_comes_first() {
    let own: Worker<u32> = Worker::new_fifo();
    let injector: Injector<u32> = Injector::new();
    let other: Worker<u32> = Worker::new_fifo();
    own.push(1);
    injector.push(2);
    other.push(3);
    let stealers = vec![other.stealer()];
    assert_eq!(found(find_task(&own, &injector, &stealers).0), Some(1));
    assert_eq!(found(find_task(&own, &injector, &stealers).0), Some(2));
    assert_eq!(found(find_task(&own, &injector, &stealers).0), Some(3));
    assert!(matches!(find_task(&own, &injector, &stealers).0, Search::Idle));
}

#[test]
fn other_workers_in_order() {
    let own: Worker<u32> = Worker::new_fifo();
    let injector: Injector<u32> = Injector::new();
    let first: Worker<u32> = Worker::new_fifo();
    let second: Worker<u32> = Worker::new_fifo();
    second.push(20);
    first.push(10);
    let stealers = vec![first.stealer(), second.stealer()];
    assert_eq!(found(find_task(&own, &injector, &stealers).0), Some(10));
    assert_eq!(found(find_task(&own, &injector, &stealers).0), Some(20));
    assert!(matches!(find_task(&own, &injector, &stealers).0, Search::Idle));
}

#[test]
fn own_queue_is_first_in_first_out() {
    let own: Worker<u32> = Worker::new_fifo();
    let injector: Injector<u32> = Injector::new();
    own.push(1);
    own.push(2);
    let stealers = Vec::new();
    assert_eq!(found(find_task(&own, &injector, &stealers).0), Some(1));
    assert_eq!(found(find_task(&own, &injector, &stealers).0), Some(2));
    assert!(matches!(find_task(&own, &injector, &stealers).0, Search::Idle));
}

#[test]
fn round_robin_turns() {
    let mut rr = RoundRobinWakers::new(vec!['a', 'b', 'c']);
    assert_eq!(rr.next_waker(), 'a');
    assert_eq!(rr.next_waker(), 'b');
    assert_eq!(rr.next_waker(), 'c');
    assert_eq!(rr.next_waker(), 'a');
    assert_eq!(rr.wakers(), &vec!['a', 'b', 'c']);
}

#[test]
fn round_robin_single_worker() {
    let mut rr = RoundRobinWakers::new(vec![7u8]);
    assert_eq!(rr.next_waker(), 7);
    assert_eq!(rr.next_waker(), 7);
}

#[test]
fn schedule_before_the_workers_start() {
    let injector: Injector<u32> = Injector::new();
    let own: Worker<u32> = Worker::new_fifo();
    let mut wakers: Option<RoundRobinWakers<char>> = None;
    assert_eq!(schedule(&injector, 9, &mut wakers), None);
    assert!(wakers.is_none());
    assert_eq!(found(find_task(&own, &injector, &Vec::new()).0), Some(9));
}

#[test]
fn schedule_wakes_workers_in_turn() {
    let injector: Injector<u32> = Injector::new();
    let own: Worker<u32> = Worker::new_fifo();
    let mut wakers = Some(RoundRobinWakers::new(vec!['x', 'y']));
    assert_eq!(schedule(&injector, 1, &mut wakers), Some('x'));
    assert_eq!(schedule(&injector, 2, &mut wakers), Some('y'));
    assert_eq!(schedule(&injector, 3, &mut wakers), Some('x'));
    let stealers = Vec::new();
    assert_eq!(found(find_task(&own, &injector, &stealers).0), Some(1));
    assert_eq!(found(find_task(&own, &injector, &stealers).0), Some(2));
    assert_eq!(found(find_task(&own, &injector, &stealers).0), Some(3));
    assert!(matches!(find_task(&own, &injector, &stealers).0, Search::Idle));
}

#[test]
fn worker_steps() {
    assert!(matches!(worker_step(Search::Found(4u32), true), WorkerStep::Run(4)));
    assert!(matches!(worker_step(Search::<u32>::Retry, true), WorkerStep::SearchAgain));
    assert!(matches!(worker_step(Search::<u32>::Idle, false), WorkerStep::Wait));
    assert!(matches!(worker_step(Search::<u32>::Idle, true), WorkerStep::Stop));
}

#[test]
fn round_robin_covers_every_worker_once_per_round() {
    let mut rr = RoundRobinWakers::new(vec![0u8, 1, 2, 3]);
    rr.next_waker();
    let mut seen = Vec::new();
    for _ in 0..4 {
        seen.push(rr.next_waker());
    }
    assert_eq!(seen, vec![1, 2, 3, 0]);
}

#[test]
fn search_looks_in_order_until_found() {
    let looked = RefCell::new(Vec::new());
    let (r, _, _) = search(3, |at: Source| {
        looked.borrow_mut().push(at);
        match at {
            Source::Other(1) => Probe::Found(11u32),
            _ => Probe::Empty,
        }
    });
    assert_eq!(found(r), Some(11));
    assert_eq!(
        looked.into_inner(),
        vec![Source::Own, Source::Shared, Source::Other(0), Source::Other(1)]
    );
}

#[test]
fn search_restarts_only_on_shared_retry() {
    let (r, _, _) = search(2, |at: Source| match at {
        Source::Other(_) => Probe::Retry,
        _ => Probe::Empty,
    });
    assert!(matches!(r, Search::<u32>::Idle));
    let (r, _, _) = search(2, |at: Source| match at {
        Source::Own => Probe::Empty,
        Source::Shared => Probe::Retry,
        Source::Other(_) => Probe::Found(1u32),
    });
    assert!(matches!(r, Search::Retry));
}

#[test]
fn schedule_by_hands_the_task_over() {
    let queue = RefCell::new(Vec::new());
    let mut wakers = Some(RoundRobinWakers::new(vec!['p', 'q']));
    assert_eq!(schedule_by(|t: u32| queue.borrow_mut().push(t), 5, &mut wakers), Some('p'));
    assert_eq!(schedule_by(|t: u32| queue.borrow_mut().push(t), 6, &mut wakers), Some('q'));
    assert_eq!(queue.into_inner(), vec![5, 6]);
}
