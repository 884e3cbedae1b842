use vstd::prelude::*;

use crate::common::symbol::{spot_symbol, Spot};

verus! {

/// A request to a stream process, with the channel on which it is answered:
/// `B` answers a subscription, `U` a snapshot or an unsubscription.
#[derive(Debug)]
pub enum Task<B, U> {
    Subscribe(Spot, B),
    SnapShot(Spot, U),
    Unsubscribe(Spot, U),
}

/// The market that a task is about.
pub open spec fn task_spot<B, U>(task: Task<B, U>) -> Spot {
    match task {
        Task::Subscribe(spot, _) => spot,
        Task::SnapShot(spot, _) => spot,
        Task::Unsubscribe(spot, _) => spot,
    }
}

/// The text that names a task in the logs.
pub open spec fn task_text<B, U>(task: Task<B, U>) -> Seq<char> {
    match task {
        Task::Subscribe(spot, _) => "Task::Subscribe("@ + spot_symbol(spot@) + ")"@,
        Task::SnapShot(spot, _) => "Task::Snapshot("@ + spot_symbol(spot@) + ")"@,
        Task::Unsubscribe(spot, _) => "Task::Unsubscribe("@ + spot_symbol(spot@) + ")"@,
    }
}

impl<B, U> Task<B, U> {
    /// The market that the task is about.
    pub fn spot(&self) -> (s: Spot)
        ensures
            s == task_spot(*self),
    {
        match self {
            Task::Subscribe(spot, _) => *spot,
            Task::SnapShot(spot, _) => *spot,
            Task::Unsubscribe(spot, _) => *spot,
        }
    }

    /// The text that names the task, such as `Task::Subscribe(btcusdt)`.
    pub fn to_string(&self) -> (s: String)
        ensures
            s@ == task_text(*self),
    {
        let (head, spot) = match self {
            Task::Subscribe(spot, _) => ("Task::Subscribe(", spot),
            Task::SnapShot(spot, _) => ("Task::Snapshot(", spot),
            Task::Unsubscribe(spot, _) => ("Task::Unsubscribe(", spot),
        };
        let s = String::from_str(head);
        let symbol = spot.to_string();
        let s = s.concat(symbol.as_str());
        s.concat(")")
    }
}

} // verus!
