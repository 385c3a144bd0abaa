//! The transfer loop, one decision at a time.

use crate::dataset::Dataset;
use crate::error::SourceError;
use crate::record::Record;
use vstd::prelude::*;

verus! {

/// What happened since the last decision.
#[derive(Clone, Copy, Debug, PartialEq, Eq)]
pub enum TransferEvent {
    /// Nothing yet: the transfer starts.
    Started,
    /// The sink has taken the batch that was handed to it.
    Inserted,
    /// The sink has refused the batch that was handed to it.
    InsertFailed,
}

/// Why a transfer was given up.
#[derive(Clone, Copy, Debug, PartialEq, Eq)]
pub enum TransferError {
    /// The source failed.
    Source(SourceError),
    /// The sink failed.
    Sink,
}

/// What is to be done next.
#[derive(Debug, PartialEq)]
pub enum TransferAction {
    /// Hand this batch to the sink, then report what came of it.
    Insert(Vec<Record>),
    /// The source is drained: the transfer is complete.
    Finish,
    /// Give the transfer up.
    Abort(TransferError),
}

/// Decides the next step of a transfer. After a failure of the sink the
/// transfer is given up and the dataset is left alone. Else the next batch is
/// pulled: it is handed on for the sink as it is, the transfer is complete
/// where there is none, and it is given up where the source fails.
pub fn run_transference(dataset: &mut Dataset, batch_size: u32, event: TransferEvent) -> (action:
    TransferAction)
    ensures
        match event {
            TransferEvent::InsertFailed => action == TransferAction::Abort(TransferError::Sink)
                && *final(dataset) == *old(dataset),
            _ => match action {
                TransferAction::Insert(batch) => old(dataset).pulled(
                    *final(dataset),
                    batch_size,
                    Ok(Some(batch)),
                ),
                TransferAction::Finish => old(dataset).pulled(
                    *final(dataset),
                    batch_size,
                    Ok(None),
                ),
                TransferAction::Abort(TransferError::Source(error)) => old(dataset).pulled(
                    *final(dataset),
                    batch_size,
                    Err(error),
                ),
                TransferAction::Abort(TransferError::Sink) => false,
            },
        },
{
    match event {
        TransferEvent::InsertFailed => TransferAction::Abort(TransferError::Sink),
        _ => match dataset.next_batch(batch_size) {
            Ok(Some(batch)) => TransferAction::Insert(batch),
            Ok(None) => TransferAction::Finish,
            Err(error) => TransferAction::Abort(TransferError::Source(error)),
        },
    }
}

} // verus!
