//! Tasks, their results, and the order in which a worker looks for work.
pub mod executor;
pub mod task;
