//! Readiness of I/O sources and the table that routes reactor events to them.
use vstd::prelude::*;

pub mod reactor;
pub mod scheduled_io;

verus! {

/// The readiness bit of a source that can be read (or accepted) from.
pub const READABLE: usize = 1;

/// The readiness bit of a source that can be written to.
pub const WRITABLE: usize = 2;

} // verus!
