//! The slot that holds a task's future between polls, and the hand-off of a
//! task's result to the tasks that wait for it.
use vstd::prelude::*;

use crate::Poll;

verus! {

/// The future of a spawned task, kept between polls. It is empty while the
/// future is being polled and once the future has completed.
pub struct TaskSlot<F> {
    future: Option<F>,
}

impl<F> TaskSlot<F> {
    pub closed spec fn contents(&self) -> Option<F> {
        self.future
    }
}

impl<F> View for TaskSlot<F> {
    type V = Option<F>;

    open spec fn view(&self) -> Option<F> {
        self.contents()
    }
}

/// The slot after a poll of `future` ends with `outcome`: a future that is
/// not finished goes back into the slot; a finished one is dropped.
pub open spec fn after_poll<F>(slot: Option<F>, future: F, outcome: Poll<()>) -> Option<F> {
    match outcome {
        Poll::Ready(()) => slot,
        Poll::Pending => Some(future),
    }
}

impl<F> TaskSlot<F> {
    /// A slot holding the future of a task that was just spawned.
    pub fn new(future: F) -> (s: Self)
        ensures
            s@ == Some(future),
    {
        TaskSlot { future: Some(future) }
    }

    /// Takes the future out to poll it, leaving the slot empty while it is
    /// polled; `None` when there is nothing to poll (the task is being
    /// polled elsewhere, or has completed).
    pub fn begin_poll(&mut self) -> (f: Option<F>)
        ensures
            (f, final(self)@) == begun(old(self)@),
    {
        self.future.take()
    }

    /// Ends a poll of `future` that gave `outcome`: a pending future goes
    /// back into the slot, to be polled when the task is woken; a finished
    /// one is dropped.
    pub fn finish_poll(&mut self, future: F, outcome: Poll<()>)
        ensures
            final(self)@ == after_poll(old(self)@, future, outcome),
    {
        match outcome {
            Poll::Ready(()) => {},
            Poll::Pending => {
                self.future = Some(future);
            },
        }
    }
}

/// What an attempt to begin a poll takes out of the slot, and the slot
/// after it: the whole content, leaving the slot empty.
pub open spec fn begun<F>(slot: Option<F>) -> (Option<F>, Option<F>) {
    (slot, None)
}

/// The slot after `k` more attempts to begin a poll, each ending with a poll
/// that gives `outcome` when it found a future to poll.
pub open spec fn after_attempts<F>(slot: Option<F>, outcome: Poll<()>, k: nat) -> Option<F>
    decreases k,
{
    if k == 0 {
        slot
    } else {
        let s = after_attempts(slot, outcome, (k - 1) as nat);
        match begun(s).0 {
            Some(f) => after_poll(begun(s).1, f, outcome),
            None => begun(s).1,
        }
    }
}

/// A completed task is never polled again: a poll begins by emptying the
/// slot (so no other poll can begin meanwhile), a poll that completes the
/// task leaves the slot empty, and from then on every attempt to begin a
/// poll, however many, finds nothing and leaves the slot empty.
pub proof fn lemma_completed_task_not_polled_again<F>(future: F, outcome: Poll<()>, k: nat)
    ensures
        after_poll(begun(Some(future)).1, future, Poll::Ready(())) == None::<F>,
        after_attempts(None::<F>, outcome, k) == None::<F>,
        begun(after_attempts(None::<F>, outcome, k)).0 == None::<F>,
    decreases k,
{
    if k > 0 {
        lemma_completed_task_not_polled_again(future, outcome, (k - 1) as nat);
    }
}

/// A task whose poll is pending keeps its future: the next poll begins with
/// the same future.
pub proof fn lemma_pending_task_kept<F>(future: F)
    ensures
        after_poll(None::<F>, future, Poll::Pending) == Some(future),
{
}

/// What a task result holds: the result once it is set, and the wakers of
/// the tasks that wait for it, in the order they came.
pub struct ResultState<T, W> {
    pub value: Option<T>,
    pub wakers: Seq<W>,
}

impl<T, W> ResultState<T, W> {
    /// No result yet, and nobody waiting.
    pub open spec fn empty() -> ResultState<T, W> {
        ResultState { value: None, wakers: Seq::empty() }
    }

    /// The state after the result is set to `value`: every waiter has been
    /// handed back, to be woken.
    pub open spec fn after_set(self, value: T) -> ResultState<T, W> {
        ResultState { value: Some(value), wakers: Seq::empty() }
    }

    /// The state after a poll with `waker`: with no result yet, the waker
    /// joins the waiters.
    pub open spec fn after_poll(self, waker: W) -> ResultState<T, W> {
        match self.value {
            Some(_) => self,
            None => ResultState { value: None, wakers: self.wakers.push(waker) },
        }
    }
}

/// The result of a spawned task, shared between the task and the handles
/// that wait for it.
pub struct TaskResult<T, W> {
    value: Option<T>,
    wakers: Vec<W>,
}

impl<T, W> TaskResult<T, W> {
    pub closed spec fn state(&self) -> ResultState<T, W> {
        ResultState { value: self.value, wakers: self.wakers@ }
    }
}

impl<T, W> View for TaskResult<T, W> {
    type V = ResultState<T, W>;

    open spec fn view(&self) -> ResultState<T, W> {
        self.state()
    }
}

impl<T, W> TaskResult<T, W> {
    /// No result yet, and nobody waiting.
    pub fn new() -> (r: Self)
        ensures
            r@ == ResultState::<T, W>::empty(),
    {
        TaskResult { value: None, wakers: Vec::new() }
    }

    /// Sets the result and hands back the wakers of all waiting tasks, in
    /// the order they came, for the caller to wake.
    pub fn set(&mut self, value: T) -> (woken: Vec<W>)
        ensures
            final(self)@ == old(self)@.after_set(value),
            woken@ == old(self)@.wakers,
    {
        self.value = Some(value);
        let mut woken: Vec<W> = Vec::new();
        std::mem::swap(&mut woken, &mut self.wakers);
        woken
    }

    /// Ready with a clone of the result once it is set; until then the
    /// caller's `waker` joins the waiters and the poll is pending.
    pub fn poll(&mut self, waker: W) -> (r: Poll<T>)
        where
            T: Clone,
        ensures
            final(self)@ == old(self)@.after_poll(waker),
            match old(self)@.value {
                Some(v) => r matches Poll::Ready(c) && cloned(v, c),
                None => r == Poll::<T>::Pending,
            },
    {
        match &self.value {
            Some(v) => {
                return Poll::Ready(v.clone());
            },
            None => {},
        }
        self.wakers.push(waker);
        Poll::Pending
    }
}

/// No waiter is forgotten: a task that polled before the result was set is
/// among the wakers that setting the result hands back, and it finds the
/// result when it polls again.
pub proof fn lemma_waiter_woken_by_set<T, W>(s: ResultState<T, W>, waker: W, value: T)
    requires
        s.value is None,
    ensures
        s.after_poll(waker).wakers.contains(waker),
        s.after_poll(waker).after_set(value).value == Some(value),
        s.after_poll(waker).after_set(value).wakers.len() == 0,
{
    assert(s.after_poll(waker).wakers.last() == waker);
}

/// Once the result is set, every poll finds it and registers nothing.
pub proof fn lemma_set_result_stays<T, W>(s: ResultState<T, W>, value: T, waker: W)
    ensures
        s.after_set(value).after_poll(waker) == s.after_set(value),
        s.after_set(value).value == Some(value),
{
}

/// The handle through which a task's result is awaited.
pub struct JoinHandle<T, W> {
    inner: TaskResult<T, W>,
}

impl<T, W> JoinHandle<T, W> {
    pub closed spec fn state(&self) -> ResultState<T, W> {
        self.inner@
    }
}

impl<T, W> View for JoinHandle<T, W> {
    type V = ResultState<T, W>;

    open spec fn view(&self) -> ResultState<T, W> {
        self.state()
    }
}

impl<T, W> JoinHandle<T, W> {
    /// A handle on the task result `value`.
    pub fn new(value: TaskResult<T, W>) -> (h: Self)
        ensures
            h@ == value@,
    {
        JoinHandle { inner: value }
    }

    /// Sets the task's result (see `TaskResult::set`).
    pub fn set(&mut self, value: T) -> (woken: Vec<W>)
        ensures
            final(self)@ == old(self)@.after_set(value),
            woken@ == old(self)@.wakers,
    {
        self.inner.set(value)
    }

    /// Polls for the task's result (see `TaskResult::poll`).
    pub fn poll(&mut self, waker: W) -> (r: Poll<T>)
        where
            T: Clone,
        ensures
            final(self)@ == old(self)@.after_poll(waker),
            match old(self)@.value {
                Some(v) => r matches Poll::Ready(c) && cloned(v, c),
                None => r == Poll::<T>::Pending,
            },
    {
        self.inner.poll(waker)
    }
}

} // verus!
