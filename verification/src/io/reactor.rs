//! The table of registered I/O sources, keyed by token, and the routing of
//! the events that the poller reports to the sources they concern.
use vstd::prelude::*;

use std::collections::HashMap;

use crate::io::scheduled_io::{has_bits, IoAttempt, IoState, ScheduledIo, settled};
use crate::io::{READABLE, WRITABLE};
use crate::Poll;

verus! {

broadcast use vstd::std_specs::hash::group_hash_axioms;

/// The token under which the poller reports that a worker was woken on
/// purpose; its events concern no source.
pub const WAKER_TOKEN: usize = usize::MAX;

/// One event of the poller, as the table reads it: the token of the source
/// and whether it became readable and writable.
#[derive(Debug, Clone, Copy, PartialEq, Eq)]
pub struct ReadyEvent {
    pub token: usize,
    pub readable: bool,
    pub writable: bool,
}

/// The readiness bits an event brings.
pub open spec fn readiness_of(ev: ReadyEvent) -> usize {
    (if ev.readable {
        READABLE
    } else {
        0usize
    }) | (if ev.writable {
        WRITABLE
    } else {
        0usize
    })
}

/// The readiness bits an event brings: `READABLE` when it is readable and
/// `WRITABLE` when it is writable.
pub fn event_readiness(ev: &ReadyEvent) -> (r: usize)
    ensures
        r == readiness_of(*ev),
{
    let readable: usize = if ev.readable {
        READABLE
    } else {
        0
    };
    let writable: usize = if ev.writable {
        WRITABLE
    } else {
        0
    };
    readable | writable
}

/// The table after one event, and the wakers that the event releases: an
/// event for a registered source other than the waker token sets that
/// source's readiness; any other event changes nothing.
pub open spec fn dispatch_one<W>(t: Map<usize, IoState<W>>, ev: ReadyEvent) -> (
    Map<usize, IoState<W>>,
    Seq<W>,
) {
    if ev.token != WAKER_TOKEN && t.contains_key(ev.token) {
        (
            t.insert(ev.token, t[ev.token].after_set(readiness_of(ev))),
            t[ev.token].woken_by(readiness_of(ev)),
        )
    } else {
        (t, Seq::empty())
    }
}

/// The table after a batch of events taken in order, and the wakers they
/// release, in that order.
pub open spec fn dispatch_all<W>(t: Map<usize, IoState<W>>, events: Seq<ReadyEvent>) -> (
    Map<usize, IoState<W>>,
    Seq<W>,
)
    decreases events.len(),
{
    if events.len() == 0 {
        (t, Seq::empty())
    } else {
        let before = dispatch_all(t, events.drop_last());
        let step = dispatch_one(before.0, events.last());
        (step.0, before.1 + step.1)
    }
}

/// What the table holds: the state of each registered source, and the
/// token that the next registration receives.
pub struct SourceTable<W> {
    pub states: Map<usize, IoState<W>>,
    pub next_token: usize,
}

/// The successor of a token, wrapping at the top of `usize`.
pub open spec fn next_after(token: usize) -> usize {
    if token == usize::MAX {
        0
    } else {
        (token + 1) as usize
    }
}

/// The registered I/O sources, keyed by token.
pub struct IoSources<W> {
    sources: HashMap<usize, ScheduledIo<W>>,
    next_token: usize,
}

impl<W> IoSources<W> {
    pub closed spec fn table(&self) -> SourceTable<W> {
        SourceTable {
            states: self.sources@.map_values(|s: ScheduledIo<W>| s@),
            next_token: self.next_token,
        }
    }
}

impl<W> View for IoSources<W> {
    type V = SourceTable<W>;

    open spec fn view(&self) -> SourceTable<W> {
        self.table()
    }
}

impl<W> IoSources<W> {
    /// An empty table whose first token is 0.
    pub fn new() -> (t: Self)
        ensures
            t@.states == Map::<usize, IoState<W>>::empty(),
            t@.next_token == 0,
    {
        let t = IoSources { sources: HashMap::new(), next_token: 0 };
        assert(t@.states =~= Map::<usize, IoState<W>>::empty());
        t
    }

    /// Registers a new source, not ready and with no waiter, under the next
    /// token, and returns that token; tokens are handed out in sequence.
    pub fn register(&mut self) -> (token: usize)
        ensures
            token == old(self)@.next_token,
            final(self)@.next_token == next_after(token),
            final(self)@.states == old(self)@.states.insert(token, IoState::<W>::fresh()),
    {
        let token = self.next_token;
        self.next_token = self.next_token.wrapping_add(1);
        let _ = self.sources.insert(token, ScheduledIo::new());
        assert(self@.states =~= old(self)@.states.insert(token, IoState::<W>::fresh()));
        token
    }

    /// Removes the source registered under `token`, if there is one.
    pub fn deregister(&mut self, token: usize)
        ensures
            final(self)@.states == old(self)@.states.remove(token),
            final(self)@.next_token == old(self)@.next_token,
    {
        let _ = self.sources.remove(&token);
        assert(self@.states =~= old(self)@.states.remove(token));
    }

    /// Whether a source is registered under `token`.
    pub fn is_registered(&self, token: usize) -> (r: bool)
        ensures
            r == self@.states.contains_key(token),
    {
        self.sources.contains_key(&token)
    }

    /// Whether the source `token` is ready for some bit of `interest`.
    pub fn is_ready(&self, token: usize, interest: usize) -> (r: bool)
        requires
            self@.states.contains_key(token),
        ensures
            r == crate::io::scheduled_io::has_bits(self@.states[token].readiness, interest),
    {
        match self.sources.get(&token) {
            Some(io) => io.is_ready(interest),
            None => false,
        }
    }

    /// Polls the source `token` for reading on behalf of the task `key`.
    pub fn poll_readable(&mut self, token: usize, key: u64, waker: W) -> (r: Poll<()>)
        requires
            old(self)@.states.contains_key(token),
        ensures
            r == old(self)@.states[token].poll_result(READABLE),
            final(self)@.states == old(self)@.states.insert(
                token,
                old(self)@.states[token].after_poll_read(key, waker),
            ),
            final(self)@.next_token == old(self)@.next_token,
    {
        let mut io = self.sources.remove(&token).unwrap();
        let r = io.poll_readable(key, waker);
        let _ = self.sources.insert(token, io);
        assert(self@.states =~= old(self)@.states.insert(
            token,
            old(self)@.states[token].after_poll_read(key, waker),
        ));
        r
    }

    /// Polls the source `token` for writing on behalf of the task `key`.
    pub fn poll_writable(&mut self, token: usize, key: u64, waker: W) -> (r: Poll<()>)
        requires
            old(self)@.states.contains_key(token),
        ensures
            r == old(self)@.states[token].poll_result(WRITABLE),
            final(self)@.states == old(self)@.states.insert(
                token,
                old(self)@.states[token].after_poll_write(key, waker),
            ),
            final(self)@.next_token == old(self)@.next_token,
    {
        let mut io = self.sources.remove(&token).unwrap();
        let r = io.poll_writable(key, waker);
        let _ = self.sources.insert(token, io);
        assert(self@.states =~= old(self)@.states.insert(
            token,
            old(self)@.states[token].after_poll_write(key, waker),
        ));
        r
    }

    /// Settles an I/O attempt on the source `token` (see
    /// `ScheduledIo::settle`).
    pub fn settle<T, E>(&mut self, token: usize, interest: usize, attempt: IoAttempt<T, E>) -> (r:
        Option<Result<T, E>>)
        requires
            old(self)@.states.contains_key(token),
        ensures
            r == settled(attempt),
            final(self)@.states == (match attempt {
                IoAttempt::WouldBlock => old(self)@.states.insert(
                    token,
                    old(self)@.states[token].after_clear(interest),
                ),
                _ => old(self)@.states,
            }),
            final(self)@.next_token == old(self)@.next_token,
    {
        let ghost would_block = attempt is WouldBlock;
        let mut io = self.sources.remove(&token).unwrap();
        let r = io.settle(interest, attempt);
        let _ = self.sources.insert(token, io);
        proof {
            if would_block {
                assert(self@.states =~= old(self)@.states.insert(
                    token,
                    old(self)@.states[token].after_clear(interest),
                ));
            } else {
                assert(self@.states =~= old(self)@.states);
            }
        }
        r
    }

    /// Routes a batch of events, in order, to the sources they concern, and
    /// returns the wakers that they release, in order. Events under the
    /// waker token, or for no registered source, change nothing.
    pub fn dispatch(&mut self, events: &Vec<ReadyEvent>) -> (woken: Vec<W>)
        ensures
            final(self)@.states == dispatch_all(old(self)@.states, events@).0,
            woken@ == dispatch_all(old(self)@.states, events@).1,
            final(self)@.next_token == old(self)@.next_token,
    {
        let mut woken: Vec<W> = Vec::new();
        let n = events.len();
        for i in 0..n
            invariant
                n == events@.len(),
                self@.states == dispatch_all(old(self)@.states, events@.take(i as int)).0,
                woken@ == dispatch_all(old(self)@.states, events@.take(i as int)).1,
                self@.next_token == old(self)@.next_token,
        {
            let ev = events[i];
            proof {
                assert(events@.take(i + 1).drop_last() =~= events@.take(i as int));
                assert(events@.take(i + 1).last() == ev);
            }
            if ev.token != WAKER_TOKEN && self.sources.contains_key(&ev.token) {
                let ready = event_readiness(&ev);
                let mut io = self.sources.remove(&ev.token).unwrap();
                let mut released = io.set_readiness(ready);
                let _ = self.sources.insert(ev.token, io);
                woken.append(&mut released);
                proof {
                    let t = dispatch_all(old(self)@.states, events@.take(i as int)).0;
                    assert(self@.states =~= t.insert(ev.token, t[ev.token].after_set(ready)));
                }
            }
        }
        assert(events@.take(n as int) =~= events@);
        woken
    }
}

/// Events change only the sources they name, and never add or remove a
/// source: a registered source that no event of the batch names keeps its
/// state.
pub proof fn lemma_dispatch_touches_only_named<W>(
    t: Map<usize, IoState<W>>,
    events: Seq<ReadyEvent>,
    k: usize,
)
    ensures
        dispatch_all(t, events).0.dom() == t.dom(),
        t.contains_key(k) && (forall|i: int| 0 <= i < events.len() ==> (#[trigger] events[i]).token != k)
            ==> dispatch_all(t, events).0[k] == t[k],
    decreases events.len(),
{
    if events.len() > 0 {
        let rest = events.drop_last();
        lemma_dispatch_touches_only_named(t, rest, k);
        if t.contains_key(k) && (forall|i: int| 0 <= i < events.len() ==> (#[trigger] events[i]).token != k) {
            assert forall|i: int| 0 <= i < rest.len() implies (#[trigger] rest[i]).token != k by {
                assert(rest[i] == events[i]);
            }
            assert(events.last() == events[events.len() - 1]);
        }
        let before = dispatch_all(t, rest).0;
        assert(dispatch_all(t, events).0.dom() =~= before.dom());
    }
}

/// Events under the waker token concern no source: a batch of them leaves
/// the table as it was and releases no waker.
pub proof fn lemma_waker_token_events_ignored<W>(t: Map<usize, IoState<W>>, events: Seq<ReadyEvent>)
    requires
        forall|i: int| 0 <= i < events.len() ==> (#[trigger] events[i]).token == WAKER_TOKEN,
    ensures
        dispatch_all(t, events).0 == t,
        dispatch_all(t, events).1 == Seq::<W>::empty(),
    decreases events.len(),
{
    if events.len() > 0 {
        let rest = events.drop_last();
        assert forall|i: int| 0 <= i < rest.len() implies (#[trigger] rest[i]).token == WAKER_TOKEN by {
            assert(rest[i] == events[i]);
        }
        lemma_waker_token_events_ignored(t, rest);
        assert(events.last() == events[events.len() - 1]);
        assert(dispatch_all(t, events).1 =~= Seq::<W>::empty());
    }
}

/// A task that polled a registered source for reading and was told to wait
/// is woken by the next event that reports the source readable: routing
/// that event releases a waker of the task.
pub proof fn lemma_readable_event_wakes_reader<W>(
    t: Map<usize, IoState<W>>,
    token: usize,
    key: u64,
    waker: W,
    writable: bool,
)
    requires
        t.contains_key(token),
        token != WAKER_TOKEN,
        t[token].poll_result(READABLE) == Poll::<()>::Pending,
    ensures
        ({
            let waiting = t.insert(token, t[token].after_poll_read(key, waker));
            let ev = ReadyEvent { token, readable: true, writable };
            let w = waiting[token].reader->0;
            &&& waiting[token].reader is Some
            &&& w.key == key
            &&& dispatch_one(waiting, ev).1.contains(w.waker)
            &&& dispatch_one(waiting, ev).0[token].poll_result(READABLE) == Poll::<()>::Ready(())
        }),
{
    let ev = ReadyEvent { token, readable: true, writable };
    let ready = readiness_of(ev);
    assert(ready & 1 != 0) by (bit_vector)
        requires
            ready == 1usize | (if writable { 2usize } else { 0usize }),
    ;
    crate::io::scheduled_io::lemma_read_wakeup_not_lost(t[token], key, waker, ready);
    crate::io::scheduled_io::lemma_set_then_poll_ready(
        t[token].after_poll_read(key, waker),
        ready,
        READABLE,
        key,
        waker,
    );
    let waiting = t.insert(token, t[token].after_poll_read(key, waker));
    let ws = dispatch_one(waiting, ev).1;
    assert(ws[0] == waiting[token].reader->0.waker);
}

/// Registration hands out distinct tokens: two registrations in a row give
/// different tokens, and both sources start fresh.
pub proof fn lemma_registrations_distinct<W>(t: SourceTable<W>)
    ensures
        next_after(t.next_token) != t.next_token,
        ({
            let first = t.states.insert(t.next_token, IoState::<W>::fresh());
            let second = first.insert(next_after(t.next_token), IoState::<W>::fresh());
            &&& second[t.next_token] == IoState::<W>::fresh()
            &&& second[next_after(t.next_token)] == IoState::<W>::fresh()
        }),
{
}

/// The readiness an event brings is exactly what it reports: it makes the
/// source readable exactly when the event says readable, and writable
/// exactly when it says writable.
pub proof fn lemma_event_readiness_bits(ev: ReadyEvent)
    ensures
        has_bits(readiness_of(ev), READABLE) == ev.readable,
        has_bits(readiness_of(ev), WRITABLE) == ev.writable,
{
    assert((1usize | 2usize) & 1 != 0 && (1usize | 2usize) & 2 != 0) by (bit_vector);
    assert((1usize | 0usize) & 1 != 0 && (1usize | 0usize) & 2 == 0) by (bit_vector);
    assert((0usize | 2usize) & 1 == 0 && (0usize | 2usize) & 2 != 0) by (bit_vector);
    assert((0usize | 0usize) & 1 == 0 && (0usize | 0usize) & 2 == 0) by (bit_vector);
}

/// What routing one event does, over all tables and events: for a
/// registered source other than the waker token, the waiter of each
/// direction the event reports is released and leaves its slot, the waiter
/// of a direction it does not report stays, nothing else is released, and
/// no other source changes. Any other event changes nothing.
pub proof fn lemma_dispatch_one_releases<W>(t: Map<usize, IoState<W>>, ev: ReadyEvent)
    ensures
        ({
            let (after, woken) = dispatch_one(t, ev);
            let k = ev.token;
            if k != WAKER_TOKEN && t.contains_key(k) {
                &&& after.dom() == t.dom()
                &&& forall|j: usize| j != k && t.contains_key(j) ==> #[trigger] after[j] == t[j]
                &&& ev.readable && t[k].reader is Some ==> woken.contains(t[k].reader->0.waker)
                &&& ev.writable && t[k].writer is Some ==> woken.contains(t[k].writer->0.waker)
                &&& ev.readable ==> after[k].reader is None
                &&& ev.writable ==> after[k].writer is None
                &&& !ev.readable ==> after[k].reader == t[k].reader
                &&& !ev.writable ==> after[k].writer == t[k].writer
                &&& woken.len() == (if ev.readable && t[k].reader is Some {
                    1int
                } else {
                    0int
                }) + (if ev.writable && t[k].writer is Some {
                    1int
                } else {
                    0int
                })
                &&& ev.readable ==> after[k].poll_result(READABLE) == Poll::<()>::Ready(())
                &&& ev.writable ==> after[k].poll_result(WRITABLE) == Poll::<()>::Ready(())
            } else {
                after == t && woken == Seq::<W>::empty()
            }
        }),
{
    lemma_event_readiness_bits(ev);
    let k = ev.token;
    if k != WAKER_TOKEN && t.contains_key(k) {
        crate::io::scheduled_io::lemma_set_releases(t[k], readiness_of(ev));
        let after = dispatch_one(t, ev).0;
        assert(after.dom() =~= t.dom());
    }
}

/// A task that polled a registered source for writing and was told to wait
/// is woken by the next event that reports the source writable, whether or
/// not it also reports it readable.
pub proof fn lemma_writable_event_wakes_writer<W>(
    t: Map<usize, IoState<W>>,
    token: usize,
    key: u64,
    waker: W,
    readable: bool,
)
    requires
        t.contains_key(token),
        token != WAKER_TOKEN,
        t[token].poll_result(WRITABLE) == Poll::<()>::Pending,
    ensures
        ({
            let waiting = t.insert(token, t[token].after_poll_write(key, waker));
            let ev = ReadyEvent { token, readable, writable: true };
            let w = waiting[token].writer->0;
            &&& waiting[token].writer is Some
            &&& w.key == key
            &&& dispatch_one(waiting, ev).1.contains(w.waker)
            &&& dispatch_one(waiting, ev).0[token].poll_result(WRITABLE) == Poll::<()>::Ready(())
        }),
{
    let waiting = t.insert(token, t[token].after_poll_write(key, waker));
    let ev = ReadyEvent { token, readable, writable: true };
    crate::io::scheduled_io::lemma_poll_touches_own_slot(t[token], key, waker);
    lemma_dispatch_one_releases(waiting, ev);
}

/// Tokens are handed out in sequence: the token after `t` is `t + 1` until
/// the top of `usize`, where the sequence wraps to 0.
pub proof fn lemma_tokens_consecutive(t: usize)
    ensures
        t < usize::MAX ==> next_after(t) == t + 1,
        t == usize::MAX ==> next_after(t) == 0,
{
}

/// While the token counter has not wrapped, registration never hands out a
/// token that is still registered: if every registered token is below the
/// counter, the token registered is new, the sources already registered keep
/// their state, and every registered token is again below the counter.
pub proof fn lemma_register_fresh_token<W>(t: SourceTable<W>)
    requires
        t.next_token < usize::MAX,
        forall|k: usize| #[trigger] t.states.contains_key(k) ==> k < t.next_token,
    ensures
        !t.states.contains_key(t.next_token),
        ({
            let after = t.states.insert(t.next_token, IoState::<W>::fresh());
            &&& forall|k: usize| #[trigger] t.states.contains_key(k) ==> after[k] == t.states[k]
            &&& forall|k: usize| #[trigger] after.contains_key(k) ==> k < next_after(t.next_token)
        }),
{
}

} // verus!
