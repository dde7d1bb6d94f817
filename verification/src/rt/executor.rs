//! Where a worker looks for its next task, and which worker the next wake-up
//! goes to.
//!
//! A worker looks in its own queue first, then in the queue shared by all
//! workers, then in the queues of the other workers, one after the other.
//! The queues are the work-stealing deques of `crossbeam_deque`; other
//! threads take from them at the same time, so what one look finds is not
//! known in advance. A search reports the trail of its looks, proved to
//! follow the search order and to end as its result says.
use vstd::prelude::*;

use crossbeam_deque::{Injector, Steal, Stealer, Worker};

verus! {

#[verifier::external_type_specification]
#[verifier::external_body]
#[verifier::reject_recursive_types(T)]
pub struct ExWorker<T>(Worker<T>);

#[verifier::external_type_specification]
#[verifier::external_body]
#[verifier::reject_recursive_types(T)]
pub struct ExInjector<T>(Injector<T>);

#[verifier::external_type_specification]
#[verifier::external_body]
#[verifier::reject_recursive_types(T)]
pub struct ExStealer<T>(Stealer<T>);

/// What one look into a queue found.
pub enum Probe<T> {
    Found(T),
    Empty,
    Retry,
}

/// `Worker::pop` of `crossbeam_deque`: takes a task from the worker's own
/// queue, `None` when it is empty. Nothing is claimed of which task comes
/// out: other threads steal from the same queue at the same time.
#[verifier::external_body]
fn pop_own<T>(worker: &Worker<T>) -> Option<T> {
    worker.pop()
}

/// `Injector::steal` of `crossbeam_deque`: takes a task from the shared
/// queue, or reports it empty, or asks to retry when another thread got in
/// the way. Nothing is claimed of which of the three comes back.
#[verifier::external_body]
fn steal_shared<T>(injector: &Injector<T>) -> Probe<T> {
    match injector.steal() {
        Steal::Success(task) => Probe::Found(task),
        Steal::Empty => Probe::Empty,
        Steal::Retry => Probe::Retry,
    }
}

/// `Stealer::steal` of `crossbeam_deque`: takes a task from another
/// worker's queue, or reports it empty, or asks to retry. Nothing is claimed
/// of which of the three comes back.
#[verifier::external_body]
fn steal_other<T>(stealer: &Stealer<T>) -> Probe<T> {
    match stealer.steal() {
        Steal::Success(task) => Probe::Found(task),
        Steal::Empty => Probe::Empty,
        Steal::Retry => Probe::Retry,
    }
}

/// `Injector::push` of `crossbeam_deque`: puts a task into the shared
/// queue. Nothing is claimed of the queue's contents afterwards: other
/// threads take from it at the same time.
#[verifier::external_body]
fn push_shared<T>(injector: &Injector<T>, task: T) {
    injector.push(task)
}

/// A queue that a worker looks into: its own, the shared one, or the
/// `i`-th other worker's.
#[derive(Debug, Clone, Copy, PartialEq, Eq, Structural)]
pub enum Source {
    Own,
    Shared,
    Other(usize),
}

/// What a look found, without the task.
#[derive(Debug, Clone, Copy, PartialEq, Eq, Structural)]
pub enum Outcome {
    Found,
    Empty,
    Retry,
}

/// What a worker does after a look.
#[derive(Debug, Clone, Copy, PartialEq, Eq, Structural)]
pub enum Next {
    /// Run the task that was found.
    Take,
    /// Look into this queue next.
    Look(Source),
    /// Start the search over, from the worker's own queue.
    Restart,
    /// Every queue was empty: there is no work.
    Idle,
}

/// What a worker does after a look into `at` found `outcome`, with
/// `others` other workers' queues to steal from: a found task is run; an
/// empty own queue leads to the shared queue; a shared queue that asks to
/// retry starts the search over, and an empty one leads to the first other
/// queue; an other queue that is empty or asks to retry leads to the next
/// one; after the last queue there is no work.
pub open spec fn next_after_look(at: Source, outcome: Outcome, others: usize) -> Next {
    match outcome {
        Outcome::Found => Next::Take,
        _ => match at {
            Source::Own => Next::Look(Source::Shared),
            Source::Shared => if outcome == Outcome::Retry {
                Next::Restart
            } else if others > 0 {
                Next::Look(Source::Other(0))
            } else {
                Next::Idle
            },
            Source::Other(i) => if i + 1 < others {
                Next::Look(Source::Other((i + 1) as usize))
            } else {
                Next::Idle
            },
        },
    }
}

/// The place of a queue in the search order.
pub open spec fn rank(at: Source) -> nat {
    match at {
        Source::Own => 0,
        Source::Shared => 1,
        Source::Other(i) => i as nat + 2,
    }
}

/// Whether `at` names a queue that exists when there are `others` other
/// workers.
pub open spec fn exists_among(at: Source, others: usize) -> bool {
    match at {
        Source::Other(i) => i < others,
        _ => true,
    }
}

/// What a worker does after a look into `at` found `outcome` (see
/// `next_after_look`).
pub fn after_look(at: Source, outcome: Outcome, others: usize) -> (next: Next)
    ensures
        next == next_after_look(at, outcome, others),
{
    match outcome {
        Outcome::Found => Next::Take,
        _ => match at {
            Source::Own => Next::Look(Source::Shared),
            Source::Shared => {
                if outcome == Outcome::Retry {
                    Next::Restart
                } else if others > 0 {
                    Next::Look(Source::Other(0))
                } else {
                    Next::Idle
                }
            },
            Source::Other(i) => {
                if i < others && i + 1 < others {
                    Next::Look(Source::Other(i + 1))
                } else {
                    Next::Idle
                }
            },
        },
    }
}

/// The search order: it starts at the worker's own queue, every look that
/// finds nothing moves one place further along an order of `others + 2`
/// queues that all exist, and only the shared queue can send the search back
/// to the start. So one search looks into each queue at most once, and makes
/// at most `others + 2` looks before it ends or starts over.
pub proof fn lemma_search_order(at: Source, outcome: Outcome, others: usize)
    requires
        exists_among(at, others),
    ensures
        rank(Source::Own) == 0,
        next_after_look(at, outcome, others) matches Next::Look(s) ==> rank(s) == rank(at) + 1
            && exists_among(s, others) && rank(s) <= others + 1,
        next_after_look(at, outcome, others) == Next::Restart ==> at == Source::Shared && outcome
            == Outcome::Retry,
        next_after_look(at, outcome, others) == Next::Take <==> outcome == Outcome::Found,
        next_after_look(at, outcome, others) == Next::Idle ==> outcome != Outcome::Found && rank(at)
            == others + 1,
{
}

/// What one search for work ended with.
pub enum Search<T> {
    /// A task to run.
    Found(T),
    /// The shared queue asked to retry: search again at once.
    Retry,
    /// Every queue was empty.
    Idle,
}

/// Whether `trail`, the looks of one search with the queue looked into and
/// what the look found, follows the search order: it starts at the worker's
/// own queue, and each look leads to the next one as `next_after_look` says.
pub open spec fn valid_trail(trail: Seq<(Source, Outcome)>, others: usize) -> bool {
    &&& trail.len() >= 1
    &&& trail[0].0 == Source::Own
    &&& linked(trail, others)
}

/// What the last look of `trail` leads to.
pub open spec fn trail_end(trail: Seq<(Source, Outcome)>, others: usize) -> Next {
    next_after_look(trail.last().0, trail.last().1, others)
}

/// The looks of `trail` are linked as `next_after_look` says: each leads to
/// the next.
pub open spec fn linked(trail: Seq<(Source, Outcome)>, others: usize) -> bool {
    forall|i: int|
        0 <= i < trail.len() - 1 ==> next_after_look(#[trigger] trail[i].0, trail[i].1, others)
            == Next::Look(trail[i + 1].0)
}

/// A trail that starts at the worker's own queue, is linked, and leads to a
/// look into `at`, stays so with that look added.
proof fn lemma_trail_grows(trail: Seq<(Source, Outcome)>, at: Source, outcome: Outcome, others: usize)
    requires
        trail.len() == 0 ==> at == Source::Own,
        trail.len() > 0 ==> trail[0].0 == Source::Own,
        trail.len() > 0 ==> next_after_look(trail.last().0, trail.last().1, others) == Next::Look(at),
        linked(trail, others),
    ensures
        trail.push((at, outcome))[0].0 == Source::Own,
        linked(trail.push((at, outcome)), others),
        trail.push((at, outcome)).last() == (at, outcome),
{
    let grown = trail.push((at, outcome));
    assert forall|i: int| 0 <= i < grown.len() - 1 implies next_after_look(
        #[trigger] grown[i].0,
        grown[i].1,
        others,
    ) == Next::Look(grown[i + 1].0) by {
        assert(grown[i] == trail[i]);
        if i < trail.len() - 1 {
            assert(grown[i + 1] == trail[i + 1]);
        }
    }
}

/// What a look found, without the task.
pub open spec fn outcome_of<T>(p: Probe<T>) -> Outcome {
    match p {
        Probe::Found(_) => Outcome::Found,
        Probe::Empty => Outcome::Empty,
        Probe::Retry => Outcome::Retry,
    }
}

/// One search for work, each look made by `look` on the queue it is given,
/// with `others` other workers' queues: it looks into the worker's own queue,
/// then the shared queue, then the other queues in order, and stops at the
/// first task found, when the shared queue asks to retry, or when every
/// queue was empty. Alongside the result come the trail of the looks, which
/// follows the search order and ends as the result says, and what each look
/// answered, which is an answer of `look` on that queue; a task found is the
/// one the last look answered.
pub fn search<T, L: Fn(Source) -> Probe<T>>(others: usize, look: L) -> (r: (
    Search<T>,
    Ghost<Seq<(Source, Outcome)>>,
    Ghost<Seq<Probe<T>>>,
))
    requires
        forall|s: Source| exists_among(s, others) ==> #[trigger] call_requires(look, (s,)),
    ensures
        valid_trail(r.1@, others),
        r.0 is Found <==> trail_end(r.1@, others) == Next::Take,
        r.0 is Retry <==> trail_end(r.1@, others) == Next::Restart,
        r.0 is Idle <==> trail_end(r.1@, others) == Next::Idle,
        r.2@.len() == r.1@.len(),
        forall|i: int|
            0 <= i < r.1@.len() ==> call_ensures(look, (r.1@[i].0,), #[trigger] r.2@[i])
                && outcome_of(r.2@[i]) == r.1@[i].1,
        r.0 matches Search::Found(t) ==> r.2@.last() == Probe::Found(t),
{
    let mut at = Source::Own;
    let ghost mut trail: Seq<(Source, Outcome)> = Seq::empty();
    let ghost mut answers: Seq<Probe<T>> = Seq::empty();
    loop
        invariant
            forall|s: Source| exists_among(s, others) ==> #[trigger] call_requires(look, (s,)),
            exists_among(at, others),
            trail.len() == 0 ==> at == Source::Own,
            trail.len() > 0 ==> trail[0].0 == Source::Own,
            trail.len() > 0 ==> next_after_look(trail.last().0, trail.last().1, others)
                == Next::Look(at),
            linked(trail, others),
            answers.len() == trail.len(),
            forall|i: int|
                0 <= i < trail.len() ==> call_ensures(look, (trail[i].0,), #[trigger] answers[i])
                    && outcome_of(answers[i]) == trail[i].1,
        decreases others + 2 - rank(at),
    {
        let probe = look(at);
        let ghost answer = probe;
        let ghost before = trail;
        let ghost answered = answers;
        proof {
            lemma_trail_grows(trail, at, outcome_of(probe), others);
            trail = trail.push((at, outcome_of(probe)));
            answers = answers.push(probe);
            assert forall|i: int| 0 <= i < trail.len() implies call_ensures(
                look,
                (trail[i].0,),
                #[trigger] answers[i],
            ) && outcome_of(answers[i]) == trail[i].1 by {
                if i < before.len() {
                    assert(trail[i] == before[i] && answers[i] == answered[i]);
                }
            }
        }
        let outcome = match probe {
            Probe::Found(task) => {
                return (Search::Found(task), Ghost(trail), Ghost(answers));
            },
            Probe::Empty => Outcome::Empty,
            Probe::Retry => Outcome::Retry,
        };
        let next = after_look(at, outcome, others);
        proof {
            lemma_search_order(at, outcome, others);
        }
        match next {
            Next::Look(s) => {
                at = s;
            },
            Next::Restart => {
                return (Search::Retry, Ghost(trail), Ghost(answers));
            },
            _ => {
                return (Search::Idle, Ghost(trail), Ghost(answers));
            },
        }
    }
}

/// Whether `answer` is what a look into `at` may have answered: an answer of
/// `Worker::pop` on `worker` for the own queue (a task, or none as empty),
/// of `Injector::steal` on `injector` for the shared queue, and of
/// `Stealer::steal` on `stealers[i]` for the `i`-th other queue.
pub closed spec fn answered<T>(
    worker: &Worker<T>,
    injector: &Injector<T>,
    stealers: Seq<Stealer<T>>,
    at: Source,
    answer: Probe<T>,
) -> bool {
    match at {
        Source::Own => match answer {
            Probe::Found(task) => call_ensures(pop_own::<T>, (worker,), Some(task)),
            Probe::Empty => call_ensures(pop_own::<T>, (worker,), None),
            Probe::Retry => false,
        },
        Source::Shared => call_ensures(steal_shared::<T>, (injector,), answer),
        Source::Other(i) => i < stealers.len() && call_ensures(
            steal_other::<T>,
            (&stealers[i as int],),
            answer,
        ),
    }
}

/// One search for work over the deques: `search`, each look being a pop from
/// the worker's own deque, a steal from the shared queue, or a steal from the
/// `i`-th other worker's deque. Alongside the result come the trail of the
/// looks made, which follows the search order and whose last look is what
/// the result says (a task found, a retry asked by the shared queue, or
/// every queue empty), and what each look answered: an answer of that
/// deque's own call, the task found being the last answer. What each deque
/// answers is not known in advance: other threads use the deques at the
/// same time.
pub fn find_task<T>(worker: &Worker<T>, injector: &Injector<T>, stealers: &Vec<Stealer<T>>) -> (r: (
    Search<T>,
    Ghost<Seq<(Source, Outcome)>>,
    Ghost<Seq<Probe<T>>>,
))
    ensures
        valid_trail(r.1@, stealers@.len() as usize),
        r.0 is Found <==> trail_end(r.1@, stealers@.len() as usize) == Next::Take,
        r.0 is Retry <==> trail_end(r.1@, stealers@.len() as usize) == Next::Restart,
        r.0 is Idle <==> trail_end(r.1@, stealers@.len() as usize) == Next::Idle,
        r.2@.len() == r.1@.len(),
        forall|i: int|
            0 <= i < r.1@.len() ==> answered(worker, injector, stealers@, r.1@[i].0, #[trigger] r.2@[i])
                && outcome_of(r.2@[i]) == r.1@[i].1,
        r.0 matches Search::Found(t) ==> r.2@.last() == Probe::Found(t),
{
    let others = stealers.len();
    let look = |at: Source| -> (p: Probe<T>)
        requires
            exists_among(at, others),
            others == stealers@.len(),
        ensures
            answered(worker, injector, stealers@, at, p),
        {
            match at {
                Source::Own => match pop_own(worker) {
                    Some(task) => Probe::Found(task),
                    None => Probe::Empty,
                },
                Source::Shared => steal_shared(injector),
                Source::Other(i) => steal_other(&stealers[i]),
            }
        };
    let (r, trail, answers) = search(others, look);
    (r, trail, answers)
}

/// What a worker does after a search for work.
pub enum WorkerStep<T> {
    /// Poll the task that was found.
    Run(T),
    /// Search again at once.
    SearchAgain,
    /// No work: wait for I/O events or a wake-up, then search again.
    Wait,
    /// No work and the runtime is shutting down: the worker stops.
    Stop,
}

/// What a worker does after a search ended with `search`, `shutdown` telling
/// whether the runtime is shutting down: a found task is run, a retry
/// searches again, and with no work the worker stops on shutdown and waits
/// otherwise.
pub fn worker_step<T>(search: Search<T>, shutdown: bool) -> (step: WorkerStep<T>)
    ensures
        match search {
            Search::Found(task) => step == WorkerStep::Run(task),
            Search::Retry => step == WorkerStep::<T>::SearchAgain,
            Search::Idle => step == (if shutdown {
                WorkerStep::<T>::Stop
            } else {
                WorkerStep::<T>::Wait
            }),
        },
{
    match search {
        Search::Found(task) => WorkerStep::Run(task),
        Search::Retry => WorkerStep::SearchAgain,
        Search::Idle => {
            if shutdown {
                WorkerStep::Stop
            } else {
                WorkerStep::Wait
            }
        },
    }
}

/// The wakers of the workers, handed out in turn so that wake-ups are
/// spread over all workers.
pub struct RoundRobinWakers<W> {
    wakers: Vec<W>,
    next: usize,
}

/// What the round robin holds: the wakers, and the count of wake-ups handed
/// out so far (modulo the size of `usize`).
pub struct RoundRobinState<W> {
    pub wakers: Seq<W>,
    pub next: usize,
}

impl<W> RoundRobinWakers<W> {
    pub closed spec fn state(&self) -> RoundRobinState<W> {
        RoundRobinState { wakers: self.wakers@, next: self.next }
    }
}

impl<W> View for RoundRobinWakers<W> {
    type V = RoundRobinState<W>;

    open spec fn view(&self) -> RoundRobinState<W> {
        self.state()
    }
}

/// The count after one more wake-up, wrapping at the top of `usize`.
pub open spec fn count_after(next: usize) -> usize {
    if next == usize::MAX {
        0
    } else {
        (next + 1) as usize
    }
}

impl<W> RoundRobinWakers<W> {
    /// The wakers, with the first wake-up going to the first of them.
    pub fn new(wakers: Vec<W>) -> (r: Self)
        ensures
            r@ == (RoundRobinState { wakers: wakers@, next: 0 }),
    {
        RoundRobinWakers { wakers, next: 0 }
    }

    /// A clone of the waker whose turn it is: the count of wake-ups so far,
    /// modulo the number of wakers, picks it.
    pub fn next_waker(&mut self) -> (w: W)
        where
            W: Clone,
        requires
            old(self)@.wakers.len() > 0,
        ensures
            final(self)@.wakers == old(self)@.wakers,
            final(self)@.next == count_after(old(self)@.next),
            cloned(old(self)@.wakers[old(self)@.next as int % old(self)@.wakers.len() as int], w),
    {
        let index = self.next;
        self.next = self.next.wrapping_add(1);
        self.wakers[index % self.wakers.len()].clone()
    }

    /// All the wakers, in order.
    pub fn wakers(&self) -> (ws: &Vec<W>)
        ensures
            ws@ == self@.wakers,
    {
        &self.wakers
    }
}

/// The round robin after one wake-up is picked, and the waker picked: none
/// before the workers have started.
pub open spec fn picked<W: Clone>(before: Option<RoundRobinWakers<W>>, after: Option<
    RoundRobinWakers<W>,
>, w: Option<W>) -> bool {
    match before {
        None => w is None && after is None,
        Some(rr) => {
            &&& after is Some
            &&& after->0@.wakers == rr@.wakers
            &&& after->0@.next == count_after(rr@.next)
            &&& w is Some
            &&& cloned(rr@.wakers[rr@.next as int % rr@.wakers.len() as int], w->0)
        },
    }
}

/// Schedules `task` with `push`, which puts it into a queue: hands the task
/// to `push`, once, and picks the waker of the worker whose turn it is to be
/// woken, when the workers have started (`wakers` is then set); the caller
/// wakes it.
pub fn schedule_by<T, W: Clone, P: FnOnce(T)>(push: P, task: T, wakers: &mut Option<RoundRobinWakers<W>>) -> (w: Option<W>)
    requires
        call_requires(push, (task,)),
        *old(wakers) is Some ==> (*old(wakers))->0@.wakers.len() > 0,
    ensures
        call_ensures(push, (task,), ()),
        picked(*old(wakers), *final(wakers), w),
{
    push(task);
    match wakers {
        Some(rr) => Some(rr.next_waker()),
        None => None,
    }
}

/// Whether `task` was put into the shared queue `injector` by
/// `Injector::push`.
pub closed spec fn pushed<T>(injector: &Injector<T>, task: T) -> bool {
    call_ensures(push_shared::<T>, (injector, task), ())
}

/// Schedules `task`: puts it into the shared queue, and picks the waker of
/// the worker whose turn it is to be woken, when the workers have started
/// (`wakers` is then set); the caller wakes it.
pub fn schedule<T, W: Clone>(injector: &Injector<T>, task: T, wakers: &mut Option<RoundRobinWakers<W>>) -> (w: Option<W>)
    requires
        *old(wakers) is Some ==> (*old(wakers))->0@.wakers.len() > 0,
    ensures
        pushed(injector, task),
        picked(*old(wakers), *final(wakers), w),
{
    let push = |t: T| -> (u: ())
        ensures
            pushed(injector, t),
        { push_shared(injector, t) };
    schedule_by(push, task, wakers)
}

/// The count after `k` more wake-ups.
pub open spec fn count_after_calls(next: usize, k: nat) -> usize
    decreases k,
{
    if k == 0 {
        next
    } else {
        count_after(count_after_calls(next, (k - 1) as nat))
    }
}

/// Over consecutive wake-ups starting from the count `c`, with `n` wakers:
/// the `j`-th wake-up after that (counting from 0) goes to the waker
/// `(c + j) % n`, as long as the count does not wrap at the top of `usize`.
pub proof fn lemma_round_robin_calls(c: usize, n: nat, j: nat)
    requires
        n > 0,
        c + j <= usize::MAX,
    ensures
        count_after_calls(c, j) == c + j,
        count_after_calls(c, j) as int % n as int == (c + j) % (n as int),
    decreases j,
{
    if j > 0 {
        lemma_round_robin_calls(c, n, (j - 1) as nat);
    }
}

/// Any `n` consecutive wake-ups, with `n` wakers, go to every waker exactly
/// once (as long as the count does not wrap at the top of `usize`): two of
/// them never go to the same waker, and each waker gets one of them.
pub proof fn lemma_round_robin_fair(c: usize, n: nat, j1: nat, j2: nat, w: nat)
    requires
        n > 0,
        c + n <= usize::MAX,
        j1 < n,
        j2 < n,
        j1 != j2,
        w < n,
    ensures
        count_after_calls(c, j1) as int % n as int != count_after_calls(c, j2) as int % n as int,
        ({
            let j = ((w as int - c as int % n as int) + n as int) % n as int;
            &&& 0 <= j < n
            &&& count_after_calls(c, j as nat) as int % n as int == w
        }),
{
    lemma_round_robin_calls(c, n, j1);
    lemma_round_robin_calls(c, n, j2);
    let ni = n as int;
    let a = c as int + j1 as int;
    let b = c as int + j2 as int;
    vstd::arithmetic::div_mod::lemma_fundamental_div_mod(a, ni);
    vstd::arithmetic::div_mod::lemma_fundamental_div_mod(b, ni);
    vstd::arithmetic::div_mod::lemma_mod_bound(a, ni);
    vstd::arithmetic::div_mod::lemma_mod_bound(b, ni);
    if a % ni == b % ni {
        let qa = a / ni;
        let qb = b / ni;
        assert(b - a == (qb - qa) * ni) by (nonlinear_arith)
            requires
                a == ni * qa + a % ni,
                b == ni * qb + b % ni,
                a % ni == b % ni,
        ;
        assert(false) by (nonlinear_arith)
            requires
                b - a == (qb - qa) * ni,
                -ni < b - a < ni,
                b - a != 0,
                ni > 0,
        ;
    }
    let r = c as int % ni;
    vstd::arithmetic::div_mod::lemma_mod_bound(c as int, ni);
    let j = ((w as int - r) + ni) % ni;
    vstd::arithmetic::div_mod::lemma_mod_bound((w as int - r) + ni, ni);
    lemma_round_robin_calls(c, n, j as nat);
    vstd::arithmetic::div_mod::lemma_add_mod_noop(c as int, j, ni);
    vstd::arithmetic::div_mod::lemma_mod_twice((w as int - r) + ni, ni);
    vstd::arithmetic::div_mod::lemma_add_mod_noop_right(r, (w as int - r) + ni, ni);
    assert(r + ((w as int - r) + ni) == ni + w as int);
    vstd::arithmetic::div_mod::lemma_mod_add_multiples_vanish(w as int, ni);
    vstd::arithmetic::div_mod::lemma_small_mod(w, n);
}

/// Wake-ups go round: two wake-ups in a row go to neighbouring workers, the
/// last worker being followed by the first (as long as the count does not
/// wrap at the top of `usize`).
pub proof fn lemma_round_robin_turns(next: usize, n: nat)
    requires
        n > 0,
        next < usize::MAX,
    ensures
        (count_after(next) as int) % (n as int) == ((next as int) % (n as int) + 1) % (n as int),
{
    vstd::arithmetic::div_mod::lemma_add_mod_noop(next as int, 1, n as int);
    if n > 1 {
        vstd::arithmetic::div_mod::lemma_small_mod(1, n);
    }
}

} // verus!
