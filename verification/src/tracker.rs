//! The tracker: owner of the live frontier and driver of checkpoints.
//!
//! Connectors report progress into the tracker as input is consumed; the
//! tracker decides nothing about timing itself (policy is external) but is
//! the boundary between progress reports and the serialized checkpoint
//! protocol. Progress reporting is a bounded in-memory compare-and-update,
//! never an I/O wait, and continues while a checkpoint is in flight because
//! the checkpoint works on a frozen snapshot of the frontier.
//!
//! The caller runs the outside work: it triggers a checkpoint, flushes each
//! pending writer (possibly in parallel, each bounded by a caller-supplied
//! timeout), reports every result back, and completes or aborts the attempt.
//! On restart it reads the latest record from the metadata backend, has each
//! writer restore its recorded token, checks the outcomes, and seeds a fresh
//! tracker from the record.

use vstd::prelude::*;
use crate::backend::MetadataBackend;
use crate::coordinator::{SyncCoordinator, TriggerOutcome};
use crate::errors::{RecoveryIntegrityError, TransientIoError};
use crate::frontier::{advanced, Frontier, Token};
use crate::record::{copy_vec, CheckpointRecord, RecordView};
use crate::registry::{resolve, xxh3_128_of, PersistentId};
use crate::writer::SnapshotWriter;

verus! {

/// Process-wide checkpoint state: the live frontier, the registered snapshot
/// writers, and the serialized checkpoint coordinator. Lifecycle-bound to
/// the run: seeded from the latest checkpoint record (or empty on first
/// run), mutated by progress reports and completed checkpoints.
pub struct Tracker {
    frontier: Frontier,
    writers: Vec<PersistentId>,
    coordinator: SyncCoordinator,
}

impl Tracker {
    /// The live frontier.
    pub closed spec fn frontier_view(&self) -> Map<PersistentId, Token> {
        self.frontier@
    }

    /// Identities of the registered snapshot writers.
    pub closed spec fn registered_writers(&self) -> Seq<PersistentId> {
        self.writers@
    }

    /// Whether a checkpoint attempt is in flight.
    pub closed spec fn in_flight(&self) -> bool {
        self.coordinator.in_flight()
    }

    /// Writers whose flush result the in-flight attempt still waits for.
    pub closed spec fn pending_writers(&self) -> Seq<PersistentId> {
        self.coordinator.pending_writers()
    }

    /// Commit tokens collected so far by the in-flight attempt.
    pub closed spec fn collected_tokens(&self) -> Seq<(PersistentId, Token)> {
        self.coordinator.collected_tokens()
    }

    /// Frontier snapshot frozen when the in-flight attempt began.
    pub closed spec fn frozen_frontier(&self) -> Map<PersistentId, Token> {
        self.coordinator.frozen_frontier()
    }

    /// Sequence number the next committed record will carry.
    pub closed spec fn next_sequence_spec(&self) -> u64 {
        self.coordinator.next_sequence_spec()
    }

    /// A tracker for a first run: empty frontier, no writers, sequence 0.
    pub fn new() -> (r: Tracker)
        ensures
            r.frontier_view() == Map::<PersistentId, Token>::empty(),
            r.registered_writers().len() == 0,
            !r.in_flight(),
            r.next_sequence_spec() == 0,
    {
        Tracker {
            frontier: Frontier::new(),
            writers: Vec::new(),
            coordinator: SyncCoordinator::new(0),
        }
    }

    /// A tracker seeded from the latest checkpoint record read at startup,
    /// or a first-run tracker if no record was ever committed. The caller
    /// must first have every writer restore its recorded token and check the
    /// outcomes; a failure there is fatal at startup.
    ///
    /// A record claiming the maximal sequence number is malformed — commits
    /// always leave room for a successor — and is rejected as a recovery
    /// integrity failure, fatal at startup.
    pub fn recover(record: Option<CheckpointRecord>) -> (r: Result<Tracker, RecoveryIntegrityError>)
        ensures
            match record {
                Some(rec) => (if rec@.sequence < u64::MAX {
                    r matches Ok(t) && t.frontier_view() == rec@.frontier
                        && t.next_sequence_spec() == rec@.sequence + 1 && !t.in_flight()
                        && t.registered_writers().len() == 0
                } else {
                    r == Err::<Tracker, _>(
                        RecoveryIntegrityError::UnreadableRecord { sequence: rec@.sequence },
                    )
                }),
                None => r matches Ok(t) && t.frontier_view() == Map::<PersistentId, Token>::empty()
                    && t.next_sequence_spec() == 0 && !t.in_flight()
                    && t.registered_writers().len() == 0,
            },
    {
        match record {
            Some(rec) => {
                if rec.sequence < u64::MAX {
                    Ok(
                        Tracker {
                            frontier: rec.frontier,
                            writers: Vec::new(),
                            coordinator: SyncCoordinator::new(rec.sequence + 1),
                        },
                    )
                } else {
                    Err(RecoveryIntegrityError::UnreadableRecord { sequence: rec.sequence })
                }
            },
            None => Ok(Tracker::new()),
        }
    }

    /// Connector-facing registration: resolves a durable external name to
    /// its persistent identifier. Pure; the tracker is untouched.
    pub fn register(&self, external_id: &str) -> (id: PersistentId)
        ensures
            id == xxh3_128_of(external_id@),
    {
        resolve(external_id)
    }

    /// Registers a snapshot writer whose state takes part in checkpoints.
    /// Registering an identity twice is a no-op.
    pub fn register_writer(&mut self, writer: PersistentId) -> (added: bool)
        ensures
            added == !old(self).registered_writers().contains(writer),
            added ==> final(self).registered_writers() == old(self).registered_writers().push(
                writer,
            ),
            !added ==> *final(self) == *old(self),
            final(self).frontier_view() == old(self).frontier_view(),
            final(self).in_flight() == old(self).in_flight(),
            final(self).pending_writers() == old(self).pending_writers(),
            final(self).collected_tokens() == old(self).collected_tokens(),
            final(self).frozen_frontier() == old(self).frozen_frontier(),
            final(self).next_sequence_spec() == old(self).next_sequence_spec(),
    {
        let n = self.writers.len();
        let mut i: usize = 0;
        while i < n
            invariant
                n == self.writers@.len(),
                0 <= i <= n,
                self == old(self),
                forall|j: int| 0 <= j < i ==> self.writers@[j] != writer,
            decreases n - i,
        {
            if self.writers[i] == writer {
                proof {
                    assert(old(self).registered_writers().contains(writer)) by {
                        assert(old(self).registered_writers()[i as int] == writer);
                    }
                }
                return false;
            }
            i += 1;
        }
        assert(!self.writers@.contains(writer));
        self.writers.push(writer);
        true
    }

    /// Records a progress report: identifier plus new frontier token, as
    /// input is consumed. Serialized through the tracker, so concurrent
    /// reports never interleave a partial advance; rejected as a harmless
    /// no-op when the token does not dominate the existing entry. An
    /// in-flight checkpoint is unaffected: it works on its frozen snapshot.
    pub fn report_progress(&mut self, id: PersistentId, token: Token) -> (accepted: bool)
        ensures
            accepted == (!old(self).frontier_view().dom().contains(id)
                || old(self).frontier_view()[id] < token),
            final(self).frontier_view() == advanced(old(self).frontier_view(), id, token),
            final(self).registered_writers() == old(self).registered_writers(),
            final(self).in_flight() == old(self).in_flight(),
            final(self).pending_writers() == old(self).pending_writers(),
            final(self).collected_tokens() == old(self).collected_tokens(),
            final(self).frozen_frontier() == old(self).frozen_frontier(),
            final(self).next_sequence_spec() == old(self).next_sequence_spec(),
    {
        self.frontier.advance(id, token)
    }

    /// Current progress of an identifier, or `None` if it has reported none.
    pub fn progress(&self, id: PersistentId) -> (r: Option<Token>)
        ensures
            r == if self.frontier_view().dom().contains(id) {
                Some(self.frontier_view()[id])
            } else {
                None::<Token>
            },
    {
        self.frontier.get(id)
    }

    /// Whether a checkpoint attempt is in flight.
    pub fn is_checkpoint_in_flight(&self) -> (r: bool)
        ensures
            r == self.in_flight(),
    {
        self.coordinator.is_in_flight()
    }

    /// Number of writers the in-flight attempt still waits for.
    pub fn pending_writer_count(&self) -> (r: usize)
        ensures
            r == self.pending_writers().len(),
    {
        self.coordinator.pending_writer_count()
    }

    /// Sequence number the next committed record will carry.
    pub fn next_sequence(&self) -> (r: u64)
        ensures
            r == self.next_sequence_spec(),
    {
        self.coordinator.next_sequence()
    }

    /// Triggers a checkpoint: freezes a snapshot of the live frontier and
    /// starts PREPARE over all registered writers.
    ///
    /// Idempotent while in flight: a second trigger observed before the
    /// first attempt completes coalesces into it — the tracker is left
    /// exactly as it was, so two attempts can never overlap and at most one
    /// record is committed per attempt.
    pub fn trigger_checkpoint(&mut self) -> (r: TriggerOutcome)
        ensures
            r == (if old(self).in_flight() {
                TriggerOutcome::Coalesced
            } else {
                TriggerOutcome::Started
            }),
            old(self).in_flight() ==> *final(self) == *old(self),
            !old(self).in_flight() ==> final(self).in_flight() && final(self).pending_writers()
                == old(self).registered_writers() && final(self).collected_tokens() == Seq::<
                (PersistentId, Token),
            >::empty() && final(self).frozen_frontier() == old(self).frontier_view(),
            final(self).frontier_view() == old(self).frontier_view(),
            final(self).registered_writers() == old(self).registered_writers(),
            final(self).next_sequence_spec() == old(self).next_sequence_spec(),
    {
        if self.coordinator.is_in_flight() {
            TriggerOutcome::Coalesced
        } else {
            let snap = self.frontier.snapshot();
            let writers = copy_vec(&self.writers);
            self.coordinator.begin(snap, writers)
        }
    }

    /// Reports one writer's successful flush: the commit token it returned.
    /// Accepted exactly when an attempt is in flight and the writer is still
    /// pending; otherwise a no-op.
    pub fn report_flush_success(&mut self, writer: PersistentId, token: Token) -> (accepted: bool)
        ensures
            accepted == (old(self).in_flight() && old(self).pending_writers().contains(writer)),
            !accepted ==> *final(self) == *old(self),
            accepted ==> exists|i: int|
                0 <= i < old(self).pending_writers().len() && old(self).pending_writers()[i]
                    == writer && (forall|j: int|
                    0 <= j < i ==> old(self).pending_writers()[j] != writer)
                    && final(self).pending_writers() == old(self).pending_writers().remove(i),
            accepted ==> final(self).collected_tokens() == old(self).collected_tokens().push(
                (writer, token),
            ) && final(self).in_flight() && final(self).frozen_frontier() == old(
                self,
            ).frozen_frontier(),
            final(self).frontier_view() == old(self).frontier_view(),
            final(self).registered_writers() == old(self).registered_writers(),
            final(self).next_sequence_spec() == old(self).next_sequence_spec(),
    {
        let accepted = self.coordinator.record_flush(writer, token);
        proof {
            if accepted {
                let i = choose|i: int|
                    0 <= i < old(self).coordinator.pending_writers().len() && old(
                        self,
                    ).coordinator.pending_writers()[i] == writer && (forall|j: int|
                        0 <= j < i ==> old(self).coordinator.pending_writers()[j] != writer)
                        && self.coordinator.pending_writers() == old(
                        self,
                    ).coordinator.pending_writers().remove(i);
                assert(0 <= i < old(self).pending_writers().len() && old(
                    self,
                ).pending_writers()[i] == writer && (forall|j: int|
                    0 <= j < i ==> old(self).pending_writers()[j] != writer)
                    && self.pending_writers() == old(self).pending_writers().remove(i));
            }
        }
        accepted
    }

    /// Reports a PREPARE failure — a writer's flush failed or timed out, or
    /// the attempt is abandoned on shutdown. The attempt ends; the frontier
    /// and the previously committed record remain valid and unchanged, and
    /// the next trigger retries. Not fatal: computation continues and
    /// progress keeps accumulating.
    pub fn abort_checkpoint(&mut self)
        ensures
            !final(self).in_flight(),
            final(self).frontier_view() == old(self).frontier_view(),
            final(self).registered_writers() == old(self).registered_writers(),
            final(self).next_sequence_spec() == old(self).next_sequence_spec(),
    {
        self.coordinator.abort()
    }

    /// COMMIT: once every writer's flush succeeded, writes the checkpoint
    /// record through the metadata backend as one atomic put.
    ///
    /// On success exactly one record is appended, carrying the frozen
    /// frontier and the collected tokens, and the sequence advances by
    /// exactly one. On a transient put failure the backend is unchanged, the
    /// attempt ends, and a later trigger retries; the failure is surfaced,
    /// never suppressed.
    pub fn complete_checkpoint<B: MetadataBackend>(&mut self, backend: &mut B) -> (r: Result<
        u64,
        TransientIoError,
    >)
        requires
            old(self).in_flight(),
            old(self).pending_writers().len() == 0,
            old(self).next_sequence_spec() < u64::MAX,
        ensures
            !final(self).in_flight(),
            final(self).frontier_view() == old(self).frontier_view(),
            final(self).registered_writers() == old(self).registered_writers(),
            final(self).next_sequence_spec() == old(self).next_sequence_spec() + (
            if r is Ok {
                1int
            } else {
                0int
            }),
            match r {
                Ok(seq) => seq == old(self).next_sequence_spec() && final(backend).history()
                    == old(backend).history().push(
                    RecordView {
                        sequence: old(self).next_sequence_spec(),
                        frontier: old(self).frozen_frontier(),
                        writer_tokens: old(self).collected_tokens(),
                    },
                ),
                Err(_) => final(backend).history() == old(backend).history(),
            },
    {
        self.coordinator.commit(backend)
    }
}

/// Runs one complete checkpoint over a set of snapshot writers: PREPARE —
/// every writer flushes and its commit token is collected — then COMMIT, one
/// record through the metadata backend. The writers are passed in
/// registration order. On any flush failure the attempt is aborted: nothing
/// is committed, the failure is surfaced, and a later call retries.
///
/// The committed record is a consistent cut: it carries the frontier as it
/// was when the attempt began, and every commit token in it addresses the
/// data its writer had durably persisted at flush time — so recovery never
/// claims progress beyond what was actually written.
pub fn run_checkpoint<B: MetadataBackend, W: SnapshotWriter>(
    tracker: &mut Tracker,
    backend: &mut B,
    writers: &mut Vec<W>,
) -> (r: Result<u64, TransientIoError>)
    requires
        !old(tracker).in_flight(),
        old(tracker).next_sequence_spec() < u64::MAX,
        old(writers)@.len() == old(tracker).registered_writers().len(),
        forall|k: int|
            0 <= k < old(writers)@.len() ==> (#[trigger] old(writers)@[k]).id_spec() == old(
                tracker,
            ).registered_writers()[k],
    ensures
        !final(tracker).in_flight(),
        final(tracker).frontier_view() == old(tracker).frontier_view(),
        final(tracker).registered_writers() == old(tracker).registered_writers(),
        final(writers)@.len() == old(writers)@.len(),
        forall|k: int|
            0 <= k < old(writers)@.len() ==> (#[trigger] final(writers)@[k]).id_spec() == old(
                writers,
            )@[k].id_spec() && final(writers)@[k].state() == old(writers)@[k].state(),
        match r {
            Ok(seq) => {
                &&& seq == old(tracker).next_sequence_spec()
                &&& final(tracker).next_sequence_spec() == old(tracker).next_sequence_spec() + 1
                &&& final(backend).history().len() == old(backend).history().len() + 1
                &&& final(backend).history().drop_last() == old(backend).history()
                &&& final(backend).history().last().sequence == seq
                &&& final(backend).history().last().frontier == old(tracker).frontier_view()
                &&& final(backend).history().last().writer_tokens.len() == old(writers)@.len()
                &&& forall|k: int|
                    0 <= k < old(writers)@.len() ==> (#[trigger] final(backend).history().last().writer_tokens[k]).0 == old(writers)@[k].id_spec() && final(writers)@[k].durable().dom().contains(
                        final(backend).history().last().writer_tokens[k].1,
                    ) && final(writers)@[k].durable()[final(backend).history().last().writer_tokens[k].1] == old(writers)@[k].state()
            },
            Err(_) => {
                &&& final(backend).history() == old(backend).history()
                &&& final(tracker).next_sequence_spec() == old(tracker).next_sequence_spec()
            },
        },
{
    tracker.trigger_checkpoint();
    let n = writers.len();
    let mut k: usize = 0;
    while k < n
        invariant
            n == writers@.len(),
            n == old(writers)@.len(),
            0 <= k <= n,
            old(tracker).next_sequence_spec() < u64::MAX,
            n == old(tracker).registered_writers().len(),
            forall|j: int|
                0 <= j < n ==> (#[trigger] old(writers)@[j]).id_spec() == old(
                    tracker,
                ).registered_writers()[j],
            tracker.in_flight(),
            tracker.frontier_view() == old(tracker).frontier_view(),
            tracker.registered_writers() == old(tracker).registered_writers(),
            tracker.next_sequence_spec() == old(tracker).next_sequence_spec(),
            tracker.frozen_frontier() == old(tracker).frontier_view(),
            tracker.pending_writers() == old(tracker).registered_writers().skip(k as int),
            tracker.collected_tokens().len() == k,
            forall|j: int|
                0 <= j < n ==> (#[trigger] writers@[j]).id_spec() == old(
                    tracker,
                ).registered_writers()[j],
            forall|j: int|
                0 <= j < n ==> (#[trigger] writers@[j]).state() == old(writers)@[j].state(),
            forall|j: int|
                k <= j < n ==> (#[trigger] writers@[j]).durable() == old(writers)@[j].durable(),
            forall|j: int|
                0 <= j < k ==> (#[trigger] tracker.collected_tokens()[j]).0 == old(
                    tracker,
                ).registered_writers()[j] && writers@[j].durable().dom().contains(
                    tracker.collected_tokens()[j].1,
                ) && writers@[j].durable()[tracker.collected_tokens()[j].1] == old(
                    writers,
                )@[j].state(),
        decreases n - k,
    {
        let ghost pre_pending = tracker.pending_writers();
        let ghost pre_collected = tracker.collected_tokens();
        let w = &mut writers[k];
        let flushed = w.flush();
        let wid = w.id();
        match flushed {
            Ok(token) => {
                proof {
                    assert(pre_pending[0] == old(tracker).registered_writers()[k as int]);
                }
                tracker.report_flush_success(wid, token);
                proof {
                    let i = choose|i: int|
                        0 <= i < pre_pending.len() && pre_pending[i] == wid && (forall|j: int|
                            0 <= j < i ==> pre_pending[j] != wid) && tracker.pending_writers()
                            == pre_pending.remove(i);
                    assert(i == 0);
                    assert(pre_pending.remove(0) =~= old(tracker).registered_writers().skip(
                        k as int + 1,
                    ));
                }
                k += 1;
            },
            Err(e) => {
                tracker.abort_checkpoint();
                return Err(e);
            },
        }
    }
    proof {
        assert(old(tracker).registered_writers().skip(n as int).len() == 0);
    }
    let ghost pre_history = backend.history();
    let committed = tracker.complete_checkpoint(backend);
    proof {
        if committed is Ok {
            assert(backend.history().drop_last() =~= pre_history);
        }
    }
    committed
}

/// Restores every snapshot writer from the commit token a checkpoint record
/// holds for it, writers passed in the record's order. On success each
/// writer's live state is exactly the data its recorded token addressed. A
/// token its writer cannot restore ends recovery at once with an integrity
/// error naming that writer — fatal at startup — and durable data is never
/// lost either way.
pub fn restore_writers<W: SnapshotWriter>(
    record: &CheckpointRecord,
    writers: &mut Vec<W>,
) -> (r: Result<(), RecoveryIntegrityError>)
    requires
        old(writers)@.len() == record.writer_tokens@.len(),
        forall|k: int|
            0 <= k < old(writers)@.len() ==> (#[trigger] old(writers)@[k]).id_spec()
                == record.writer_tokens@[k].0,
    ensures
        final(writers)@.len() == old(writers)@.len(),
        forall|k: int|
            0 <= k < old(writers)@.len() ==> (#[trigger] final(writers)@[k]).id_spec() == old(
                writers,
            )@[k].id_spec() && final(writers)@[k].durable() == old(writers)@[k].durable(),
        match r {
            Ok(()) => forall|k: int|
                0 <= k < old(writers)@.len() ==> old(writers)@[k].durable().dom().contains(
                    (#[trigger] record.writer_tokens@[k]).1,
                ) && final(writers)@[k].state() == old(writers)@[k].durable()[record.writer_tokens@[k].1],
            Err(e) => exists|k: int|
                0 <= k < old(writers)@.len() && !old(writers)@[k].durable().dom().contains(
                    (#[trigger] record.writer_tokens@[k]).1,
                ) && e == (RecoveryIntegrityError::WriterRestoreFailed {
                    writer: old(writers)@[k].id_spec(),
                }),
        },
{
    let n = writers.len();
    let mut k: usize = 0;
    while k < n
        invariant
            n == writers@.len(),
            n == old(writers)@.len(),
            n == record.writer_tokens@.len(),
            0 <= k <= n,
            forall|j: int|
                0 <= j < n ==> (#[trigger] old(writers)@[j]).id_spec()
                    == record.writer_tokens@[j].0,
            forall|j: int| k <= j < n ==> (#[trigger] writers@[j]) == old(writers)@[j],
            forall|j: int|
                0 <= j < k ==> (#[trigger] writers@[j]).id_spec() == old(writers)@[j].id_spec()
                    && writers@[j].durable() == old(writers)@[j].durable() && old(
                    writers,
                )@[j].durable().dom().contains(record.writer_tokens@[j].1) && writers@[j].state()
                    == old(writers)@[j].durable()[record.writer_tokens@[j].1],
        decreases n - k,
    {
        let ghost pre_writers = writers@;
        let pair = record.writer_tokens[k];
        let w = &mut writers[k];
        let restored = w.restore(pair.1);
        match restored {
            Ok(()) => {
                proof {
                    assert(pair == record.writer_tokens@[k as int]);
                    assert forall|j: int| 0 <= j <= k as int implies (#[trigger] writers@[j]).id_spec()
                        == old(writers)@[j].id_spec() && writers@[j].durable() == old(
                        writers,
                    )@[j].durable() && old(writers)@[j].durable().dom().contains(
                        record.writer_tokens@[j].1,
                    ) && writers@[j].state() == old(writers)@[j].durable()[record.writer_tokens@[j].1] by {
                        if j < k as int {
                            assert(writers@[j] == pre_writers[j]);
                            assert(pre_writers[j].id_spec() == old(writers)@[j].id_spec()
                                && pre_writers[j].durable() == old(writers)@[j].durable() && old(
                                writers,
                            )@[j].durable().dom().contains(record.writer_tokens@[j].1)
                                && pre_writers[j].state() == old(writers)@[j].durable()[record.writer_tokens@[j].1]);
                        } else {
                            assert(pre_writers[k as int] == old(writers)@[k as int]);
                            assert(writers@[k as int].id_spec() == old(
                                writers,
                            )@[k as int].id_spec());
                            assert(writers@[k as int].durable() == old(
                                writers,
                            )@[k as int].durable());
                            assert(old(writers)@[k as int].durable().dom().contains(
                                record.writer_tokens@[k as int].1,
                            ));
                            assert(writers@[k as int].state() == old(
                                writers,
                            )@[k as int].durable()[record.writer_tokens@[k as int].1]);
                        }
                    }
                }
                k += 1;
            },
            Err(e) => {
                return Err(e);
            },
        }
    }
    proof {
        assert forall|j: int| 0 <= j < old(writers)@.len() implies old(
            writers,
        )@[j].durable().dom().contains((#[trigger] record.writer_tokens@[j]).1) && writers@[j].state()
            == old(writers)@[j].durable()[record.writer_tokens@[j].1] by {
            assert(writers@[j].id_spec() == old(writers)@[j].id_spec());
        }
    }
    Ok(())
}

/// Recovery integrity check over the writers' restore outcomes: succeeds
/// exactly when every writer restored its recorded token, and otherwise
/// names the first writer that could not — fatal at startup, since the
/// engine must not proceed without a verified durability guarantee.
pub fn check_restore_results(results: &Vec<(PersistentId, bool)>) -> (r: Result<
    (),
    RecoveryIntegrityError,
>)
    ensures
        match r {
            Ok(()) => forall|i: int| 0 <= i < results@.len() ==> (#[trigger] results@[i]).1,
            Err(e) => exists|i: int|
                0 <= i < results@.len() && !(#[trigger] results@[i]).1 && (forall|j: int|
                    0 <= j < i ==> (#[trigger] results@[j]).1) && e
                    == (RecoveryIntegrityError::WriterRestoreFailed { writer: results@[i].0 }),
        },
{
    let n = results.len();
    let mut i: usize = 0;
    while i < n
        invariant
            n == results@.len(),
            0 <= i <= n,
            forall|j: int| 0 <= j < i ==> (#[trigger] results@[j]).1,
        decreases n - i,
    {
        let (writer, ok) = results[i];
        if !ok {
            proof {
                assert(0 <= (i as int) < results@.len() && !(results@[i as int]).1 && (forall|
                    j: int,
                |
                    0 <= j < i as int ==> (#[trigger] results@[j]).1) && (
                RecoveryIntegrityError::WriterRestoreFailed { writer })
                    == (RecoveryIntegrityError::WriterRestoreFailed {
                    writer: results@[i as int].0,
                }));
            }
            return Err(RecoveryIntegrityError::WriterRestoreFailed { writer });
        }
        i += 1;
    }
    Ok(())
}

} // verus!

