//! Readiness of one I/O source, and the tasks waiting for it.
//!
//! A source is readable or writable according to two bits of its readiness.
//! A task that finds the bit it needs unset leaves a waker in the matching
//! slot; the reactor sets bits as events arrive and hands back the wakers
//! that the new bits release, for the caller to wake.
use vstd::prelude::*;

use crate::io::{READABLE, WRITABLE};
use crate::Poll;

verus! {

/// A waker left by a task, with the key of the task that it wakes: two
/// wakers with the same key wake the same task.
pub struct Waiter<W> {
    pub key: u64,
    pub waker: W,
}

/// What a source's readiness state holds: its readiness bits and the
/// waiters for reading and for writing.
pub struct IoState<W> {
    pub readiness: usize,
    pub reader: Option<Waiter<W>>,
    pub writer: Option<Waiter<W>>,
}

/// What an I/O call on a non-blocking source gave: a result, "would block",
/// or an error.
pub enum IoAttempt<T, E> {
    Done(T),
    WouldBlock,
    Failed(E),
}

/// Whether `bits` holds any bit of `interest`.
pub open spec fn has_bits(bits: usize, interest: usize) -> bool {
    bits & interest != 0
}

/// The waiter slot after a task with key `key` registers `waker` in it: a
/// waiter that already wakes the same task stays, any other is replaced.
pub open spec fn registered<W>(slot: Option<Waiter<W>>, key: u64, waker: W) -> Option<Waiter<W>> {
    match slot {
        Some(w) => if w.key == key { slot } else { Some(Waiter { key, waker }) },
        None => Some(Waiter { key, waker }),
    }
}

/// The waker a slot releases when `released` is true.
pub open spec fn released<W>(slot: Option<Waiter<W>>, released: bool) -> Seq<W> {
    match slot {
        Some(w) => if released { seq![w.waker] } else { Seq::empty() },
        None => Seq::empty(),
    }
}

impl<W> IoState<W> {
    /// A source that is neither readable nor writable, with no waiter.
    pub open spec fn fresh() -> IoState<W> {
        IoState { readiness: 0, reader: None, writer: None }
    }

    /// The state after the bits of `ready` are added: each waiter whose
    /// direction became ready leaves its slot.
    pub open spec fn after_set(self, ready: usize) -> IoState<W> {
        IoState {
            readiness: self.readiness | ready,
            reader: if has_bits(ready, READABLE) { None } else { self.reader },
            writer: if has_bits(ready, WRITABLE) { None } else { self.writer },
        }
    }

    /// The wakers that adding the bits of `ready` releases: the reader's,
    /// then the writer's.
    pub open spec fn woken_by(self, ready: usize) -> Seq<W> {
        released(self.reader, has_bits(ready, READABLE)) + released(
            self.writer,
            has_bits(ready, WRITABLE),
        )
    }

    /// The state after the bits of `mask` are cleared.
    pub open spec fn after_clear(self, mask: usize) -> IoState<W> {
        IoState { readiness: self.readiness & !mask, ..self }
    }

    /// What a poll for the bit `interest` answers.
    pub open spec fn poll_result(self, interest: usize) -> Poll<()> {
        if has_bits(self.readiness, interest) {
            Poll::Ready(())
        } else {
            Poll::Pending
        }
    }

    /// The state after a poll for reading by the task `key` with `waker`.
    pub open spec fn after_poll_read(self, key: u64, waker: W) -> IoState<W> {
        if has_bits(self.readiness, READABLE) {
            self
        } else {
            IoState { reader: registered(self.reader, key, waker), ..self }
        }
    }

    /// The state after a poll for writing by the task `key` with `waker`.
    pub open spec fn after_poll_write(self, key: u64, waker: W) -> IoState<W> {
        if has_bits(self.readiness, WRITABLE) {
            self
        } else {
            IoState { writer: registered(self.writer, key, waker), ..self }
        }
    }
}

/// What an I/O attempt settles to: the attempt's result, or nothing when the
/// source would block and the operation must wait for readiness again.
pub open spec fn settled<T, E>(attempt: IoAttempt<T, E>) -> Option<Result<T, E>> {
    match attempt {
        IoAttempt::Done(v) => Some(Ok(v)),
        IoAttempt::WouldBlock => None,
        IoAttempt::Failed(e) => Some(Err(e)),
    }
}

/// The readiness state of one I/O source.
pub struct ScheduledIo<W> {
    readiness: usize,
    reader: Option<Waiter<W>>,
    writer: Option<Waiter<W>>,
}

impl<W> ScheduledIo<W> {
    pub closed spec fn state(&self) -> IoState<W> {
        IoState { readiness: self.readiness, reader: self.reader, writer: self.writer }
    }
}

impl<W> View for ScheduledIo<W> {
    type V = IoState<W>;

    open spec fn view(&self) -> IoState<W> {
        self.state()
    }
}

impl<W> ScheduledIo<W> {
    /// A source that is neither readable nor writable, with no waiter.
    pub fn new() -> (s: Self)
        ensures
            s@ == IoState::<W>::fresh(),
    {
        ScheduledIo { readiness: 0, reader: None, writer: None }
    }

    /// Adds the bits of `ready` to the readiness and hands back the wakers of
    /// the waiters whose direction became ready (reader first), which leave
    /// their slots.
    pub fn set_readiness(&mut self, ready: usize) -> (woken: Vec<W>)
        ensures
            final(self)@ == old(self)@.after_set(ready),
            woken@ == old(self)@.woken_by(ready),
    {
        self.readiness = self.readiness | ready;
        let mut woken: Vec<W> = Vec::new();
        if ready & READABLE != 0 {
            if let Some(w) = self.reader.take() {
                woken.push(w.waker);
            }
        }
        if ready & WRITABLE != 0 {
            if let Some(w) = self.writer.take() {
                woken.push(w.waker);
            }
        }
        proof {
            assert(woken@ =~= old(self)@.woken_by(ready));
        }
        woken
    }

    /// Whether the source is ready for some bit of `interest`.
    pub fn is_ready(&self, interest: usize) -> (r: bool)
        ensures
            r == has_bits(self@.readiness, interest),
    {
        self.readiness & interest != 0
    }

    /// Clears the bits of `mask` from the readiness; the waiters stay.
    pub fn clear_readiness(&mut self, mask: usize)
        ensures
            final(self)@ == old(self)@.after_clear(mask),
    {
        self.readiness = self.readiness & !mask;
    }

    /// Ready when the source is readable; otherwise the task `key` waits for
    /// reading with `waker`, unless a waiter for that task is already there.
    pub fn poll_readable(&mut self, key: u64, waker: W) -> (r: Poll<()>)
        ensures
            r == old(self)@.poll_result(READABLE),
            final(self)@ == old(self)@.after_poll_read(key, waker),
    {
        if self.readiness & READABLE != 0 {
            return Poll::Ready(());
        }
        let same_task = match &self.reader {
            Some(w) => w.key == key,
            None => false,
        };
        if !same_task {
            self.reader = Some(Waiter { key, waker });
        }
        Poll::Pending
    }

    /// Ready when the source is writable; otherwise the task `key` waits for
    /// writing with `waker`, unless a waiter for that task is already there.
    pub fn poll_writable(&mut self, key: u64, waker: W) -> (r: Poll<()>)
        ensures
            r == old(self)@.poll_result(WRITABLE),
            final(self)@ == old(self)@.after_poll_write(key, waker),
    {
        if self.readiness & WRITABLE != 0 {
            return Poll::Ready(());
        }
        let same_task = match &self.writer {
            Some(w) => w.key == key,
            None => false,
        };
        if !same_task {
            self.writer = Some(Waiter { key, waker });
        }
        Poll::Pending
    }

    /// Settles an I/O attempt made after the source polled ready for
    /// `interest`: a result or an error ends the operation; "would block"
    /// clears `interest`, so that the next poll waits for a new event.
    pub fn settle<T, E>(&mut self, interest: usize, attempt: IoAttempt<T, E>) -> (r: Option<
        Result<T, E>,
    >)
        ensures
            r == settled(attempt),
            final(self)@ == (match attempt {
                IoAttempt::WouldBlock => old(self)@.after_clear(interest),
                _ => old(self)@,
            }),
    {
        match attempt {
            IoAttempt::Done(v) => Some(Ok(v)),
            IoAttempt::WouldBlock => {
                self.clear_readiness(interest);
                None
            },
            IoAttempt::Failed(e) => Some(Err(e)),
        }
    }
}

/// A task whose poll for reading found the source not readable is not
/// forgotten: the next event that makes the source readable releases a
/// waker of that task, first in line, and empties the reader slot.
pub proof fn lemma_read_wakeup_not_lost<W>(s: IoState<W>, key: u64, waker: W, ready: usize)
    requires
        !has_bits(s.readiness, READABLE),
        has_bits(ready, READABLE),
    ensures
        s.poll_result(READABLE) == Poll::<()>::Pending,
        s.after_poll_read(key, waker).reader is Some,
        s.after_poll_read(key, waker).reader->0.key == key,
        s.after_poll_read(key, waker).woken_by(ready).len() >= 1,
        s.after_poll_read(key, waker).woken_by(ready)[0] == s.after_poll_read(
            key,
            waker,
        ).reader->0.waker,
        s.after_poll_read(key, waker).after_set(ready).reader is None,
{
}

/// A task whose poll for writing found the source not writable is not
/// forgotten: the next event that makes the source writable releases a
/// waker of that task and empties the writer slot.
pub proof fn lemma_write_wakeup_not_lost<W>(s: IoState<W>, key: u64, waker: W, ready: usize)
    requires
        !has_bits(s.readiness, WRITABLE),
        has_bits(ready, WRITABLE),
    ensures
        s.poll_result(WRITABLE) == Poll::<()>::Pending,
        s.after_poll_write(key, waker).writer is Some,
        s.after_poll_write(key, waker).writer->0.key == key,
        s.after_poll_write(key, waker).woken_by(ready).contains(
            s.after_poll_write(key, waker).writer->0.waker,
        ),
        s.after_poll_write(key, waker).after_set(ready).writer is None,
{
    let p = s.after_poll_write(key, waker);
    let ws = p.woken_by(ready);
    assert(ws[ws.len() - 1] == p.writer->0.waker);
}

/// Readiness that an event brings is seen by the next poll in that
/// direction, which then registers nothing.
pub proof fn lemma_set_then_poll_ready<W>(s: IoState<W>, ready: usize, interest: usize, key: u64, waker: W)
    requires
        has_bits(ready, interest),
    ensures
        s.after_set(ready).poll_result(interest) == Poll::<()>::Ready(()),
        interest == READABLE ==> s.after_set(ready).after_poll_read(key, waker) == s.after_set(ready),
        interest == WRITABLE ==> s.after_set(ready).after_poll_write(key, waker) == s.after_set(ready),
{
    let r = s.readiness;
    assert(ready & interest != 0 ==> (r | ready) & interest != 0) by (bit_vector);
}

/// Bits once set stay set: an event never takes readiness away.
pub proof fn lemma_set_keeps_bits<W>(s: IoState<W>, ready: usize, interest: usize)
    requires
        has_bits(s.readiness, interest),
    ensures
        has_bits(s.after_set(ready).readiness, interest),
{
    let r = s.readiness;
    assert(r & interest != 0 ==> (r | ready) & interest != 0) by (bit_vector);
}

/// After its bit is cleared (as a "would block" does), a direction polls
/// pending until a new event sets it again.
pub proof fn lemma_clear_then_poll_pending<W>(s: IoState<W>, interest: usize)
    requires
        interest == READABLE || interest == WRITABLE,
    ensures
        s.after_clear(interest).poll_result(interest) == Poll::<()>::Pending,
{
    let r = s.readiness;
    assert(interest == 1usize || interest == 2usize ==> (r & !interest) & interest == 0) by (bit_vector);
}

/// Reading and writing are independent: an event for one direction leaves
/// the other direction's bit and waiter as they were.
pub proof fn lemma_directions_independent<W>(s: IoState<W>)
    ensures
        s.after_set(WRITABLE).reader == s.reader,
        s.after_set(READABLE).writer == s.writer,
        has_bits(s.after_set(WRITABLE).readiness, READABLE) == has_bits(s.readiness, READABLE),
        has_bits(s.after_set(READABLE).readiness, WRITABLE) == has_bits(s.readiness, WRITABLE),
        s.after_clear(READABLE).poll_result(WRITABLE) == s.poll_result(WRITABLE),
        s.after_clear(WRITABLE).poll_result(READABLE) == s.poll_result(READABLE),
{
    let r = s.readiness;
    assert(2usize & 1usize == 0 && 1usize & 2usize == 0) by (bit_vector);
    assert(((r | 2) & 1 != 0) == (r & 1 != 0)) by (bit_vector);
    assert(((r | 1) & 2 != 0) == (r & 2 != 0)) by (bit_vector);
    assert(((r & !1usize) & 2 != 0) == (r & 2 != 0)) by (bit_vector);
    assert(((r & !2usize) & 1 != 0) == (r & 1 != 0)) by (bit_vector);
}

/// A task that polls again before it is woken keeps its first waiter: the
/// slot never holds two waiters, and never a second waker of the same task.
pub proof fn lemma_repeated_poll_keeps_waiter<W>(s: IoState<W>, key: u64, first: W, again: W)
    ensures
        s.after_poll_read(key, first).after_poll_read(key, again) == s.after_poll_read(key, first),
        s.after_poll_write(key, first).after_poll_write(key, again) == s.after_poll_write(
            key,
            first,
        ),
{
}

/// A poll touches only the slot of its own direction and never the
/// readiness: a poll for writing leaves the reader slot as it was, and a
/// poll for reading leaves the writer slot as it was. So a task waiting in
/// one direction is still there, to be released by the next event for its
/// direction, whatever polls happened in the other direction.
pub proof fn lemma_poll_touches_own_slot<W>(s: IoState<W>, key: u64, waker: W)
    ensures
        s.after_poll_write(key, waker).reader == s.reader,
        s.after_poll_write(key, waker).readiness == s.readiness,
        s.after_poll_read(key, waker).writer == s.writer,
        s.after_poll_read(key, waker).readiness == s.readiness,
        !has_bits(s.readiness, WRITABLE) ==> s.after_poll_write(key, waker).writer is Some
            && s.after_poll_write(key, waker).writer->0.key == key,
        !has_bits(s.readiness, READABLE) ==> s.after_poll_read(key, waker).reader is Some
            && s.after_poll_read(key, waker).reader->0.key == key,
{
}

/// Clearing readiness bits leaves both waiters where they are, clears
/// exactly the bits of `mask`, and keeps every other bit: so a waiter that
/// was registered before a "would block" is still released by the next
/// event for its direction.
pub proof fn lemma_clear_keeps_waiters<W>(s: IoState<W>, mask: usize)
    ensures
        s.after_clear(mask).reader == s.reader,
        s.after_clear(mask).writer == s.writer,
        has_bits(s.after_clear(mask).readiness, READABLE) == (has_bits(s.readiness, READABLE)
            && !has_bits(mask, READABLE)),
        has_bits(s.after_clear(mask).readiness, WRITABLE) == (has_bits(s.readiness, WRITABLE)
            && !has_bits(mask, WRITABLE)),
{
    let r = s.readiness;
    assert(((r & !mask) & 1 != 0) == (r & 1 != 0 && mask & 1 == 0)) by (bit_vector);
    assert(((r & !mask) & 2 != 0) == (r & 2 != 0 && mask & 2 == 0)) by (bit_vector);
}

/// What an event releases, over all states and all readiness bits: the
/// waiter of each direction that the event makes ready is released and
/// leaves its slot, the waiter of a direction it does not make ready stays,
/// and nothing else is released.
pub proof fn lemma_set_releases<W>(s: IoState<W>, ready: usize)
    ensures
        has_bits(ready, READABLE) && s.reader is Some ==> s.woken_by(ready).contains(
            s.reader->0.waker,
        ),
        has_bits(ready, WRITABLE) && s.writer is Some ==> s.woken_by(ready).contains(
            s.writer->0.waker,
        ),
        has_bits(ready, READABLE) ==> s.after_set(ready).reader is None,
        has_bits(ready, WRITABLE) ==> s.after_set(ready).writer is None,
        !has_bits(ready, READABLE) ==> s.after_set(ready).reader == s.reader,
        !has_bits(ready, WRITABLE) ==> s.after_set(ready).writer == s.writer,
        s.woken_by(ready).len() == (if has_bits(ready, READABLE) && s.reader is Some {
            1int
        } else {
            0int
        }) + (if has_bits(ready, WRITABLE) && s.writer is Some {
            1int
        } else {
            0int
        }),
        forall|i: int|
            0 <= i < s.woken_by(ready).len() ==> (has_bits(ready, READABLE) && s.reader is Some
                && #[trigger] s.woken_by(ready)[i] == s.reader->0.waker) || (has_bits(
                ready,
                WRITABLE,
            ) && s.writer is Some && s.woken_by(ready)[i] == s.writer->0.waker),
        has_bits(s.after_set(ready).readiness, READABLE) == (has_bits(s.readiness, READABLE)
            || has_bits(ready, READABLE)),
        has_bits(s.after_set(ready).readiness, WRITABLE) == (has_bits(s.readiness, WRITABLE)
            || has_bits(ready, WRITABLE)),
{
    let r = s.readiness;
    assert(((r | ready) & 1 != 0) == (r & 1 != 0 || ready & 1 != 0)) by (bit_vector);
    assert(((r | ready) & 2 != 0) == (r & 2 != 0 || ready & 2 != 0)) by (bit_vector);
    let ws = s.woken_by(ready);
    let a = released(s.reader, has_bits(ready, READABLE));
    let b = released(s.writer, has_bits(ready, WRITABLE));
    if has_bits(ready, READABLE) && s.reader is Some {
        assert(ws[0] == s.reader->0.waker);
    }
    if has_bits(ready, WRITABLE) && s.writer is Some {
        assert(ws[ws.len() - 1] == s.writer->0.waker);
    }
    assert forall|i: int| 0 <= i < ws.len() implies (has_bits(ready, READABLE) && s.reader is Some
        && #[trigger] ws[i] == s.reader->0.waker) || (has_bits(ready, WRITABLE) && s.writer is Some
        && ws[i] == s.writer->0.waker) by {
        if i < a.len() {
            assert(ws[i] == a[i]);
        } else {
            assert(ws[i] == b[i - a.len()]);
        }
    }
}

} // verus!
