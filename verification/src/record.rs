//! The persisted job record and its lifecycle status.

use vstd::prelude::*;

verus! {

/// Lifecycle state of a queued record. There is no variant for completion:
/// a job that finished successfully has its record deleted, so absence of a
/// record, not a status value, signals success.
#[derive(Clone, Copy, PartialEq, Eq, Structural, Debug)]
pub enum JobStatus {
    /// Queued and available to be fetched by a collector tick.
    Waiting,
    /// Claimed by a collector tick; execution is in flight.
    Running,
    /// Dead-lettered: terminal, kept for inspection, never fetched again.
    Dead,
}

/// One row of the job queue: an immutable identity (`id`), the registry key
/// (`kind`), the serialized payload (`data`, opaque to the queue) and the
/// lifecycle `status`. Only `status` ever changes after creation.
#[derive(Debug)]
pub struct JobRecord {
    pub id: u64,
    pub kind: String,
    pub data: String,
    pub status: JobStatus,
}

impl Clone for JobRecord {
    fn clone(&self) -> (res: Self)
        ensures
            res == *self,
    {
        JobRecord {
            id: self.id,
            kind: self.kind.clone(),
            data: self.data.clone(),
            status: self.status,
        }
    }
}

} // verus!
