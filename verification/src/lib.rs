//! A local mirror of Binance spot order books.
//!
//! The verified part of the crate holds the order-book state, the rules that
//! keep it up to date from snapshots and diff-depth updates, the assignment of
//! subscriptions to stream processes, the bookkeeping of each process's
//! pending requests, and the text of the stream messages.

pub mod binance;
pub mod common;

pub use common::error::{Error, Result};
pub use common::symbol::Spot;
