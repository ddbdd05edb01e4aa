//! Persistence and recovery layer for a streaming dataflow engine.
//!
//! The crate keeps the in-memory state of long-running incremental
//! computations durable across restarts: stable persistent identifiers for
//! sources and operators, a per-identifier progress frontier, and a two-phase
//! checkpoint protocol tying bulk snapshot data to a durable metadata record,
//! so recovery always resumes from a consistent cut.

pub mod backend;
pub mod coordinator;
pub mod errors;
pub mod frontier;
pub mod record;
pub mod registry;
pub mod tracker;
pub mod writer;

pub use backend::{InMemoryMetadataBackend, MetadataBackend};
pub use coordinator::{SyncCoordinator, TriggerOutcome};
pub use errors::{RecoveryIntegrityError, TransientIoError};
pub use frontier::{Frontier, Token};
pub use record::CheckpointRecord;
pub use registry::{ExternalPersistentId, IntoPersistentId, PersistentId};
pub use tracker::{check_restore_results, restore_writers, run_checkpoint, Tracker};
pub use writer::{InMemorySnapshotWriter, SnapshotWriter};
