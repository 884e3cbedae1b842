use vstd::prelude::*;

use crate::common::symbol::Spot;

verus! {

/// The errors that the library's own logic reports.
#[derive(Debug)]
pub enum Error {
    /// A depth snapshot could not be read.
    SnapshotParsingError { symbol: String, message: String, body: String },
    /// A subscription was asked for a market that is already followed.
    AlreadyTracked { symbol: Spot },
    /// A market that is not followed was named.
    NotTracked { symbol: Spot },
}

pub type Result<T> = std::result::Result<T, Error>;

} // verus!
