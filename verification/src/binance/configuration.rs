use vstd::prelude::*;

verus! {

/// How subscriptions are spread over stream processes.
#[derive(Clone, Copy, Debug, PartialEq, Eq)]
pub enum Schedule {
    /// Up to this many processes; once they exist, each new market goes to
    /// the process that serves the fewest markets.
    Balanced(usize),
    /// A process serves at most this many markets; a new process is started
    /// when the least used one is full.
    MaxPerTask(usize),
}

pub struct Configuration {
    pub num_threads: usize,
    pub scheduling_strategy: Schedule,
}

impl Configuration {
    /// One worker thread and at most one stream process.
    pub fn new() -> (c: Configuration)
        ensures
            c.num_threads == 1,
            c.scheduling_strategy == Schedule::Balanced(1),
    {
        Configuration { num_threads: 1, scheduling_strategy: Schedule::Balanced(1) }
    }
}

} // verus!
