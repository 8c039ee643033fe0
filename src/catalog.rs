//! The consumer of indexer events, the only writer of the catalog state: a
//! scan's records are persisted and then swapped in whole; an error, or a
//! failed persist, leaves the current snapshot in place.
use vstd::prelude::*;
use crate::cache::{CacheError, CacheSnapshot};
use crate::indexer::{IndexEvent, MediaFile};

verus! {

/// What the consumer does with an indexer event.
#[derive(Debug)]
pub enum ConsumerAction {
    /// Persist these records, then swap the catalog to the result.
    Persist(Vec<MediaFile>),
    /// Report the error; the catalog stays as it is.
    Report(String),
}

/// Snapshot events lead to persistence, error events to a report.
pub fn action_for(event: IndexEvent) -> (r: ConsumerAction)
    ensures
        match event {
            IndexEvent::Snapshot { files, .. } => r == ConsumerAction::Persist(files),
            IndexEvent::Error { message } => r == ConsumerAction::Report(message),
        },
{
    match event {
        IndexEvent::Snapshot { files, .. } => ConsumerAction::Persist(files),
        IndexEvent::Error { message } => ConsumerAction::Report(message),
    }
}

/// The catalog after a persist attempt: the freshly persisted snapshot, or
/// the current one when persisting failed; never a mix of the two.
pub fn after_persist(current: CacheSnapshot, persisted: Result<CacheSnapshot, CacheError>) -> (r: CacheSnapshot)
    ensures
        match persisted {
            Ok(s) => r == s,
            Err(_) => r == current,
        },
{
    match persisted {
        Ok(s) => s,
        Err(_) => current,
    }
}

} // verus!
