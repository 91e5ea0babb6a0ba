//! Tasks that the service runs in the background, each at a fixed interval.
use vstd::prelude::*;

verus! {

/// A task run periodically: its name (for the log), the pause between two
/// runs, and the task itself.
pub struct PeriodicTask<F> {
    pub name: &'static str,
    pub interval: std::time::Duration,
    pub task: F,
}

impl<F> PeriodicTask<F> {
    /// A task with the given name, interval and work.
    pub fn new(name: &'static str, interval: std::time::Duration, task: F) -> (t: Self)
        ensures
            t.name == name,
            t.interval == interval,
            t.task == task,
    {
        PeriodicTask { name, interval, task }
    }
}

} // verus!
