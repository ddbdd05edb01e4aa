//! Two-phase checkpoint synchronization.
//!
//! The coordinator ties a data snapshot (written by the snapshot writers) to
//! a durable metadata record (written by the metadata backend), so that a
//! crash at any point leaves the system recoverable to a state that never
//! claims progress beyond what was actually durably written.
//!
//! PREPARE: every snapshot writer with pending state flushes and returns a
//! commit token; the coordinator collects them. COMMIT: only once every
//! writer succeeded, a checkpoint record (frontier snapshot, commit tokens,
//! next sequence number) is written through the metadata backend as one
//! atomic put. A PREPARE failure abandons the attempt: the frontier and the
//! previous record remain valid, and no partial COMMIT is ever issued.
//! Commits are serialized through a single coordinator and never pipelined,
//! so sequence numbers are strictly increasing.

use vstd::prelude::*;
use crate::backend::MetadataBackend;
use crate::errors::TransientIoError;
use crate::frontier::{Frontier, Token};
use crate::record::{CheckpointRecord, RecordView};
use crate::registry::PersistentId;

verus! {

/// What a checkpoint trigger did: started a fresh attempt, or coalesced into
/// the attempt already in flight (not an error — the second trigger's work
/// is done by the first attempt).
#[derive(Clone, Copy, PartialEq, Eq, Structural, Debug)]
pub enum TriggerOutcome {
    /// A new checkpoint attempt was started.
    Started,
    /// An attempt was already in flight; the trigger joined it.
    Coalesced,
}

/// Serialized two-phase commit between the snapshot writers and the metadata
/// backend. At most one attempt is ever in flight.
pub struct SyncCoordinator {
    next_sequence: u64,
    in_flight: bool,
    pending: Vec<PersistentId>,
    collected: Vec<(PersistentId, Token)>,
    frozen: Frontier,
}

impl SyncCoordinator {
    /// Sequence number the next committed record will carry.
    pub closed spec fn next_sequence_spec(&self) -> u64 {
        self.next_sequence
    }

    /// Whether a checkpoint attempt is between PREPARE and its commit or
    /// abandonment.
    pub closed spec fn in_flight(&self) -> bool {
        self.in_flight
    }

    /// Writers whose PREPARE result the in-flight attempt still waits for.
    pub closed spec fn pending_writers(&self) -> Seq<PersistentId> {
        self.pending@
    }

    /// Commit tokens collected so far by the in-flight attempt.
    pub closed spec fn collected_tokens(&self) -> Seq<(PersistentId, Token)> {
        self.collected@
    }

    /// Frontier snapshot frozen when the in-flight attempt began.
    pub closed spec fn frozen_frontier(&self) -> Map<PersistentId, Token> {
        self.frozen@
    }

    /// A coordinator that will commit `initial_sequence` next, with no
    /// attempt in flight.
    pub fn new(initial_sequence: u64) -> (r: SyncCoordinator)
        ensures
            r.next_sequence_spec() == initial_sequence,
            !r.in_flight(),
    {
        SyncCoordinator {
            next_sequence: initial_sequence,
            in_flight: false,
            pending: Vec::new(),
            collected: Vec::new(),
            frozen: Frontier::new(),
        }
    }

    /// Whether a checkpoint attempt is in flight.
    pub fn is_in_flight(&self) -> (r: bool)
        ensures
            r == self.in_flight(),
    {
        self.in_flight
    }

    /// Number of writers the in-flight attempt still waits for.
    pub fn pending_writer_count(&self) -> (r: usize)
        ensures
            r == self.pending_writers().len(),
    {
        self.pending.len()
    }

    /// Sequence number the next committed record will carry.
    pub fn next_sequence(&self) -> (r: u64)
        ensures
            r == self.next_sequence_spec(),
    {
        self.next_sequence
    }

    /// Begins PREPARE: freezes the given frontier snapshot and the list of
    /// writers whose flush results the attempt will wait for.
    ///
    /// If an attempt is already in flight, the trigger coalesces into it:
    /// nothing changes and `Coalesced` is returned, so two concurrent commits
    /// can never race on ordering.
    pub fn begin(
        &mut self,
        frontier_snapshot: Frontier,
        writers: Vec<PersistentId>,
    ) -> (r: TriggerOutcome)
        ensures
            r == (if old(self).in_flight() {
                TriggerOutcome::Coalesced
            } else {
                TriggerOutcome::Started
            }),
            old(self).in_flight() ==> *final(self) == *old(self),
            !old(self).in_flight() ==> final(self).in_flight() && final(self).pending_writers()
                == writers@ && final(self).collected_tokens() == Seq::<(PersistentId, Token)>::empty()
                && final(self).frozen_frontier() == frontier_snapshot@
                && final(self).next_sequence_spec() == old(self).next_sequence_spec(),
    {
        if self.in_flight {
            TriggerOutcome::Coalesced
        } else {
            self.in_flight = true;
            self.pending = writers;
            self.collected = Vec::new();
            self.frozen = frontier_snapshot;
            TriggerOutcome::Started
        }
    }

    /// Records one writer's PREPARE result: the commit token its flush
    /// returned. Accepted exactly when an attempt is in flight and the
    /// writer is still pending; otherwise a no-op.
    pub fn record_flush(&mut self, writer: PersistentId, token: Token) -> (accepted: bool)
        ensures
            accepted == (old(self).in_flight() && old(self).pending_writers().contains(writer)),
            !accepted ==> *final(self) == *old(self),
            accepted ==> exists|i: int|
                0 <= i < old(self).pending_writers().len() && old(self).pending_writers()[i]
                    == writer && (forall|j: int|
                    0 <= j < i ==> old(self).pending_writers()[j] != writer)
                    && final(self).pending_writers() == old(self).pending_writers().remove(i),
            accepted ==> final(self).collected_tokens() == old(self).collected_tokens().push(
                (writer, token),
            ) && final(self).in_flight() && final(self).frozen_frontier() == old(
                self,
            ).frozen_frontier() && final(self).next_sequence_spec() == old(
                self,
            ).next_sequence_spec(),
    {
        if !self.in_flight {
            return false;
        }
        let n = self.pending.len();
        let mut i: usize = 0;
        while i < n
            invariant
                n == self.pending@.len(),
                0 <= i <= n,
                self == old(self),
                old(self).in_flight(),
                forall|j: int| 0 <= j < i ==> self.pending@[j] != writer,
            decreases n - i,
        {
            if self.pending[i] == writer {
                proof {
                    assert(old(self).pending_writers()[i as int] == writer);
                }
                proof {
                    assert(old(self).pending_writers().contains(writer)) by {
                        assert(old(self).pending_writers()[i as int] == writer);
                    }
                }
                self.pending.remove(i);
                self.collected.push((writer, token));
                proof {
                    assert(0 <= (i as int) < old(self).pending_writers().len() && old(
                        self,
                    ).pending_writers()[i as int] == writer && (forall|j: int|
                        0 <= j < i as int ==> old(self).pending_writers()[j] != writer)
                        && self.pending@ == old(self).pending_writers().remove(i as int));
                    assert(self.collected@ == old(self).collected_tokens().push((writer, token)));
                    assert(self.in_flight == old(self).in_flight());
                    assert(self.frozen@ == old(self).frozen_frontier());
                    assert(self.next_sequence == old(self).next_sequence_spec());
                }
                return true;
            }
            i += 1;
        }
        assert(!self.pending@.contains(writer));
        false
    }

    /// Abandons the in-flight attempt: a PREPARE failure, a writer timeout,
    /// or cancellation on shutdown. The frontier and the previously
    /// committed record remain valid and unchanged — nothing was or will be
    /// committed for this attempt — and the next trigger retries.
    pub fn abort(&mut self)
        ensures
            !final(self).in_flight(),
            final(self).next_sequence_spec() == old(self).next_sequence_spec(),
    {
        self.in_flight = false;
        self.pending = Vec::new();
        self.collected = Vec::new();
    }

    /// COMMIT: issued only once every writer's PREPARE succeeded. Assembles
    /// the checkpoint record — frozen frontier snapshot, collected commit
    /// tokens, next sequence number — and writes it through the metadata
    /// backend as one atomic put.
    ///
    /// On success the attempt completes and exactly one record, with the
    /// sequence advanced by exactly one, is appended to the backend. On a
    /// transient put failure the backend is unchanged, the attempt is
    /// abandoned, and a later trigger retries with a fresh snapshot.
    pub fn commit<B: MetadataBackend>(&mut self, backend: &mut B) -> (r: Result<
        u64,
        TransientIoError,
    >)
        requires
            old(self).in_flight(),
            old(self).pending_writers().len() == 0,
            old(self).next_sequence_spec() < u64::MAX,
        ensures
            final(self).next_sequence_spec() == old(self).next_sequence_spec() + (
            if r is Ok {
                1int
            } else {
                0int
            }),
            !final(self).in_flight(),
            match r {
                Ok(seq) => seq == old(self).next_sequence_spec() && final(backend).history() == old(
                    backend,
                ).history().push(
                    RecordView {
                        sequence: old(self).next_sequence_spec(),
                        frontier: old(self).frozen_frontier(),
                        writer_tokens: old(self).collected_tokens(),
                    },
                ),
                Err(_) => final(backend).history() == old(backend).history(),
            },
    {
        let record = CheckpointRecord {
            sequence: self.next_sequence,
            frontier: self.frozen.snapshot(),
            writer_tokens: crate::record::copy_vec(&self.collected),
        };
        let put_result = backend.put(record);
        self.in_flight = false;
        self.pending = Vec::new();
        self.collected = Vec::new();
        match put_result {
            Ok(()) => {
                let seq = self.next_sequence;
                self.next_sequence = self.next_sequence + 1;
                Ok(seq)
            },
            Err(e) => Err(e),
        }
    }
}

} // verus!
