//! The progress of a write of a whole buffer to a non-blocking stream, and
//! the echo server's step after each read.
//!
//! A write may take several calls: each call writes part of what is left,
//! until the whole buffer is written or a call writes nothing.
use vstd::prelude::*;

verus! {

/// How far a write has come: the bytes written so far, out of the length of
/// the buffer.
pub struct WriteState {
    pub written: usize,
    pub len: usize,
}

/// The progress of a write of a buffer of a given length.
pub struct WriteProgress {
    written: usize,
    len: usize,
}

impl WriteProgress {
    #[verifier::type_invariant]
    spec fn inv(self) -> bool {
        self.written <= self.len
    }

    pub closed spec fn state(&self) -> WriteState {
        WriteState { written: self.written, len: self.len }
    }
}

impl View for WriteProgress {
    type V = WriteState;

    open spec fn view(&self) -> WriteState {
        self.state()
    }
}

impl WriteProgress {
    /// A write of a buffer of `len` bytes, with nothing written yet.
    pub fn new(len: usize) -> (p: Self)
        ensures
            p@ == (WriteState { written: 0, len }),
    {
        WriteProgress { written: 0, len }
    }

    /// The number of bytes written so far, which is where the rest of the
    /// buffer starts.
    pub fn written(&self) -> (n: usize)
        ensures
            n == self@.written,
            n <= self@.len,
    {
        proof {
            use_type_invariant(self);
        }
        self.written
    }

    /// The length of the whole buffer.
    pub fn len(&self) -> (n: usize)
        ensures
            n == self@.len,
    {
        self.len
    }

    /// Records a call that wrote `n` bytes of what is left. The write is
    /// over, with the total written, when the call wrote nothing or when the
    /// whole buffer is now written; otherwise it goes on.
    pub fn advance(&mut self, n: usize) -> (done: Option<usize>)
        requires
            n <= old(self)@.len - old(self)@.written,
        ensures
            final(self)@.len == old(self)@.len,
            final(self)@.written == old(self)@.written + n,
            final(self)@.written <= final(self)@.len,
            done == (if n == 0 || final(self)@.written == final(self)@.len {
                Some(final(self)@.written)
            } else {
                None
            }),
    {
        proof {
            use_type_invariant(&*self);
        }
        if n == 0 {
            return Some(self.written);
        }
        self.written = self.written + n;
        if self.written == self.len {
            Some(self.written)
        } else {
            None
        }
    }
}

impl WriteProgress {
    /// Takes a settled write call: none when it would block (the write goes
    /// on), an error ends the write with that error, and a call that wrote
    /// `n` bytes is recorded as `advance` does, the write ending with the
    /// total written when it is over.
    pub fn after_settle<E>(&mut self, settled: Option<Result<usize, E>>) -> (r: Option<
        Result<usize, E>,
    >)
        requires
            settled matches Some(Ok(n)) ==> n <= old(self)@.len - old(self)@.written,
        ensures
            match settled {
                None => r is None && final(self)@ == old(self)@,
                Some(Err(e)) => r == Some(Err::<usize, E>(e)) && final(self)@ == old(self)@,
                Some(Ok(n)) => {
                    &&& final(self)@.len == old(self)@.len
                    &&& final(self)@.written == old(self)@.written + n
                    &&& r == (if n == 0 || final(self)@.written == final(self)@.len {
                        Some(Ok::<usize, E>(final(self)@.written))
                    } else {
                        None
                    })
                },
            },
    {
        match settled {
            None => None,
            Some(Err(e)) => Some(Err(e)),
            Some(Ok(n)) => match self.advance(n) {
                Some(total) => Some(Ok(total)),
                None => None,
            },
        }
    }
}

/// What an echo server does after a read into a buffer of `capacity` bytes.
#[derive(Debug, Clone, Copy, PartialEq, Eq, Structural)]
pub enum EchoStep {
    /// Echo back the first `n` bytes of the buffer, then read again.
    Echo(usize),
    /// The peer closed the connection, or the read failed: stop serving it.
    Stop,
}

/// What an echo server does after a read: echo exactly the bytes read when
/// some were, and stop on an empty read (the peer closed) or a failed one.
pub fn echo_step<E>(read: Result<usize, E>, capacity: usize) -> (step: EchoStep)
    requires
        read matches Ok(n) ==> n <= capacity,
    ensures
        step == (match read {
            Ok(n) => if n > 0 {
                EchoStep::Echo(n)
            } else {
                EchoStep::Stop
            },
            Err(_) => EchoStep::Stop,
        }),
{
    match read {
        Ok(n) => {
            if n > 0 {
                EchoStep::Echo(n)
            } else {
                EchoStep::Stop
            }
        },
        Err(_) => EchoStep::Stop,
    }
}

/// Each call that writes something shortens what is left of the buffer, so
/// a write of `len` bytes whose calls each write something is over after at
/// most `len` calls.
pub proof fn lemma_write_progress(before: WriteState, n: usize)
    requires
        before.written <= before.len,
        0 < n <= before.len - before.written,
    ensures
        ({
            let after = WriteState { written: (before.written + n) as usize, len: before.len };
            &&& after.written <= after.len
            &&& after.len - after.written < before.len - before.written
        }),
{
}

} // verus!
