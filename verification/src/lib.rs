//! Verified core of a small set of cooperative-scheduling combinators:
//! a restartable task that relaunches its computation after every output,
//! a fair fan-in merger over a fixed set of such tasks, and a periodic
//! ticker that reports the elapsed time between consecutive firings.
//!
//! The asynchronous plumbing (invoking factories, advancing futures,
//! registering wake-ups, reading the clock) lives outside this crate; the
//! driver reports each observation to these state machines as a plain
//! value and performs the action they decide on. Everything the machines
//! decide — when to relaunch, which unit to service, when a tick is due —
//! is specified and proved here.

pub mod interval;
pub mod merge;
pub mod repeat;

pub use interval::Interval;
pub use merge::MergeAction;
pub use merge::Repeats;
pub use merge::RepeatsBuilder;
pub use merge::repeats;
pub use repeat::Repeat;
pub use repeat::TaskPoll;
