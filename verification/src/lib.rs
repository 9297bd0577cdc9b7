//! A persistent background-job queue: records wait in a durable store, a
//! collector tick fetches a bounded batch, filters it through a registry of
//! job kinds, claims the eligible records, and hands them to a worker pool;
//! execution outcomes drive the final state transition of each record.

pub mod collector;
pub mod outcome;
pub mod record;
pub mod registry;
pub mod store;

pub use record::JobRecord;
pub use record::JobStatus;
pub use registry::ExecutionContract;
pub use registry::JobBehavior;
pub use registry::JobError;
pub use registry::PanicBehavior;
pub use registry::Registry;
pub use store::QueueStore;
