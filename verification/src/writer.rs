//! Snapshot writer capability.
//!
//! A snapshot writer is durable storage for bulk state and change data.
//! `flush` durably persists everything buffered and returns a commit token
//! addressing it; once `flush` has returned a token, the data survives a
//! crash of the writer's own process. `restore` reconstructs the state a
//! previously returned token addresses.

use vstd::prelude::*;
use crate::errors::{RecoveryIntegrityError, TransientIoError};
use crate::frontier::Token;
use crate::registry::PersistentId;

verus! {

/// Durable storage for one stateful component's data, implemented by writer
/// authors. State is modelled as the sequence of change records buffered so
/// far; what the records encode is the component's business.
pub trait SnapshotWriter {
    /// Stable identity of this writer, as recorded in checkpoint records.
    spec fn id_spec(&self) -> PersistentId;

    /// The durably persisted states, addressed by commit token.
    spec fn durable(&self) -> Map<Token, Seq<u64>>;

    /// The live state accumulated so far (buffered plus restored data).
    spec fn state(&self) -> Seq<u64>;

    /// The writer's identity.
    fn id(&self) -> (r: PersistentId)
        ensures
            r == self.id_spec(),
    ;

    /// Buffers one change record into the live state.
    fn record(&mut self, value: u64)
        ensures
            final(self).state() == old(self).state().push(value),
            final(self).durable() == old(self).durable(),
            final(self).id_spec() == old(self).id_spec(),
    ;

    /// Durably persists the live state and returns a commit token addressing
    /// it. On failure nothing durable is lost and the live state is kept, so
    /// a later attempt can retry.
    fn flush(&mut self) -> (r: Result<Token, TransientIoError>)
        ensures
            final(self).state() == old(self).state(),
            final(self).id_spec() == old(self).id_spec(),
            match r {
                Ok(token) => !old(self).durable().dom().contains(token) && final(self).durable()
                    == old(self).durable().insert(token, old(self).state()),
                Err(_) => final(self).durable() == old(self).durable(),
            },
    ;

    /// Reconstructs the live state from a previously committed token. A token
    /// the writer cannot restore is a recovery integrity failure: fatal at
    /// startup, and nothing durable is lost.
    fn restore(&mut self, token: Token) -> (r: Result<(), RecoveryIntegrityError>)
        ensures
            final(self).durable() == old(self).durable(),
            final(self).id_spec() == old(self).id_spec(),
            match r {
                Ok(()) => old(self).durable().dom().contains(token) && final(self).state() == old(
                    self,
                ).durable()[token],
                Err(e) => !old(self).durable().dom().contains(token) && final(self).state() == old(
                    self,
                ).state() && e == (RecoveryIntegrityError::WriterRestoreFailed {
                    writer: old(self).id_spec(),
                }),
            },
    ;
}

/// In-memory snapshot writer: keeps each flushed state in memory, addressed
/// by the order it was flushed in. Intended for tests and for running
/// without durable infrastructure.
pub struct InMemorySnapshotWriter {
    id: PersistentId,
    state: Vec<u64>,
    flushed: Vec<Vec<u64>>,
}

impl InMemorySnapshotWriter {
    /// A writer with the given identity, empty state and nothing durable.
    pub fn new(id: PersistentId) -> (r: InMemorySnapshotWriter)
        ensures
            r.id_spec() == id,
            r.state() == Seq::<u64>::empty(),
            r.durable() == Map::<Token, Seq<u64>>::empty(),
    {
        let r = InMemorySnapshotWriter { id, state: Vec::new(), flushed: Vec::new() };
        proof {
            assert(r.durable() =~= Map::<Token, Seq<u64>>::empty());
        }
        r
    }

    /// A copy of the live state: the change records accumulated so far.
    pub fn current_state(&self) -> (r: Vec<u64>)
        ensures
            r@ == self.state(),
    {
        crate::record::copy_vec(&self.state)
    }
}

impl SnapshotWriter for InMemorySnapshotWriter {
    closed spec fn id_spec(&self) -> PersistentId {
        self.id
    }

    closed spec fn durable(&self) -> Map<Token, Seq<u64>> {
        Map::new(
            |t: Token| (t as int) < self.flushed@.len(),
            |t: Token| self.flushed@[t as int]@,
        )
    }

    closed spec fn state(&self) -> Seq<u64> {
        self.state@
    }

    fn id(&self) -> (r: PersistentId) {
        self.id
    }

    fn record(&mut self, value: u64) {
        self.state.push(value);
    }

    fn flush(&mut self) -> (r: Result<Token, TransientIoError>)
        ensures
            r is Ok,
    {
        let token = self.flushed.len() as u64;
        let copy = crate::record::copy_vec(&self.state);
        self.flushed.push(copy);
        proof {
            assert(self.durable() =~= old(self).durable().insert(token, old(self).state()));
        }
        Ok(token)
    }

    fn restore(&mut self, token: Token) -> (r: Result<(), RecoveryIntegrityError>) {
        if token < self.flushed.len() as u64 {
            let copy = crate::record::copy_vec(&self.flushed[token as usize]);
            self.state = copy;
            Ok(())
        } else {
            Err(RecoveryIntegrityError::WriterRestoreFailed { writer: self.id })
        }
    }
}

} // verus!
