//! Error types of the persistence core.
//!
//! Out-of-order progress reports and checkpoint triggers that arrive while an
//! attempt is in flight are deliberately not errors: the former are rejected
//! as no-ops, the latter coalesce into the in-flight attempt.

use vstd::prelude::*;
use crate::registry::PersistentId;

verus! {

/// A durable write failed recoverably (a snapshot flush or a metadata put).
/// The attempt is abandoned and state is never corrupted, since a commit is
/// only issued after every prepare step succeeded; a later checkpoint trigger
/// retries.
#[derive(Clone, Copy, PartialEq, Eq, Structural, Debug)]
pub struct TransientIoError;

/// Recovery found a state it cannot verify. Fatal at startup: the engine
/// refuses to proceed without a verified durability guarantee.
#[derive(Clone, Copy, PartialEq, Eq, Structural, Debug)]
pub enum RecoveryIntegrityError {
    /// The latest checkpoint record could not be read back intact.
    UnreadableRecord { sequence: u64 },
    /// A snapshot writer could not restore from a commit token referenced by
    /// the checkpoint record.
    WriterRestoreFailed { writer: PersistentId },
}

} // verus!
