use vstd::prelude::*;

verus! {

/// The kinds of request that a manager process handles, each with the
/// market symbol it is about.
#[derive(Clone, Debug, PartialEq, Eq)]
pub enum TaskKind {
    Suscribe(String),
    Unsuscribe(String),
    DepthSnapshot(String),
    Stop,
}

/// A request to a manager process with the handle `N` on which its caller
/// waits for it to be done.
#[derive(Clone, Debug)]
pub struct Task<N> {
    pub kind: TaskKind,
    pub notifier: N,
}

impl<N> Task<N> {
    pub fn subscribe(symbol: &str, notifier: N) -> (t: Task<N>)
        ensures
            t.kind matches TaskKind::Suscribe(s) && s@ == symbol@,
            t.notifier == notifier,
    {
        Task { kind: TaskKind::Suscribe(String::from_str(symbol)), notifier }
    }

    pub fn unsubscribe(symbol: &str, notifier: N) -> (t: Task<N>)
        ensures
            t.kind matches TaskKind::Unsuscribe(s) && s@ == symbol@,
            t.notifier == notifier,
    {
        Task { kind: TaskKind::Unsuscribe(String::from_str(symbol)), notifier }
    }

    pub fn depth_snapshot(symbol: &str, notifier: N) -> (t: Task<N>)
        ensures
            t.kind matches TaskKind::DepthSnapshot(s) && s@ == symbol@,
            t.notifier == notifier,
    {
        Task { kind: TaskKind::DepthSnapshot(String::from_str(symbol)), notifier }
    }

    pub fn stop(notifier: N) -> (t: Task<N>)
        ensures
            t.kind == TaskKind::Stop,
            t.notifier == notifier,
    {
        Task { kind: TaskKind::Stop, notifier }
    }
}

} // verus!
