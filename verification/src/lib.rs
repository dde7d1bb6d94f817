//! The decision core of a small work-stealing async runtime: readiness
//! tracking for I/O sources, the table that routes reactor events to them,
//! the progress of reads, writes and accepts, task result hand-off, and the
//! order in which a worker looks for work.
use vstd::prelude::*;

pub mod io;
pub mod net;
pub mod rt;

verus! {

/// The outcome of one poll: a value, or "not yet".
#[derive(Debug, PartialEq, Eq)]
pub enum Poll<T> {
    Ready(T),
    Pending,
}

} // verus!
