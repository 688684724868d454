//! Filters: fallible transforms of a whole batch.

use crate::error::{Fault, SyncError};
use crate::record::{records, LogMessage, Record};
use vstd::prelude::*;

verus! {

/// A stage of the chain: it turns a batch into a batch, or fails the batch.
pub trait Filter {
    /// What this filter makes of `batch`; `None` for a filter that does not
    /// say what it does.
    open spec fn outcome(&self, batch: Seq<Record>) -> Option<Result<Seq<Record>, Fault>> {
        None
    }

    /// Applies the filter to `data`.
    fn process(&self, data: Vec<LogMessage>) -> (r: Result<Vec<LogMessage>, SyncError>)
        ensures
            accords(self.outcome(records(data@)), outcome_of(r)),
    ;
}

/// Whether what was found is what was stated, where anything was stated.
pub open spec fn accords<T>(stated: Option<T>, found: T) -> bool {
    stated is None || stated == Some(found)
}

/// The result of a filter as contracts see it.
pub open spec fn outcome_of(r: Result<Vec<LogMessage>, SyncError>) -> Result<Seq<Record>, Fault> {
    match r {
        Ok(batch) => Ok(records(batch@)),
        Err(error) => Err(error@),
    }
}

} // verus!
