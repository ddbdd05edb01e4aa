use persistence::tracker::check_restore_results;
use persistence::{
    restore_writers, run_checkpoint, CheckpointRecord, Frontier, InMemoryMetadataBackend,
    InMemorySnapshotWriter, MetadataBackend, RecoveryIntegrityError, SnapshotWriter, Tracker,
    TriggerOutcome,
};

const SRC: u128 = 10;
const W1: u128 = 100;
const W2: u128 = 200;

#[test]
fn record_round_trip_is_field_equal() {
    let mut frontier = Frontier::new();
    frontier.advance(SRC, 42);
    frontier.advance(W1, 7);
    let record = CheckpointRecord {
        sequence: 3,
        frontier,
        writer_tokens: vec![(W1, 0), (W2, 5)],
    };
    let kept = record.duplicate();
    let mut backend = InMemoryMetadataBackend::new();
    assert!(backend.put(record).is_ok());
    let read_back = backend.get_latest().unwrap();
    assert_eq!(read_back.sequence, kept.sequence);
    assert_eq!(read_back.writer_tokens, kept.writer_tokens);
    assert_eq!(read_back.frontier.get(SRC), Some(42));
    assert_eq!(read_back.frontier.get(W1), Some(7));
    assert_eq!(read_back.frontier.get(W2), None);
}

#[test]
fn get_latest_is_none_on_first_run() {
    let backend = InMemoryMetadataBackend::new();
    assert!(backend.get_latest().is_none());
    assert_eq!(backend.record_count(), 0);
}

#[test]
fn get_latest_returns_most_recent_record() {
    let mut backend = InMemoryMetadataBackend::new();
    for seq in 0..3u64 {
        let record = CheckpointRecord {
            sequence: seq,
            frontier: Frontier::new(),
            writer_tokens: Vec::new(),
        };
        assert!(backend.put(record).is_ok());
    }
    assert_eq!(backend.record_count(), 3);
    assert_eq!(backend.get_latest().unwrap().sequence, 2);
}

#[test]
fn rapid_triggers_coalesce_into_one_commit() {
    let mut backend = InMemoryMetadataBackend::new();
    let mut tracker = Tracker::new();
    assert!(tracker.register_writer(W1));
    assert!(tracker.register_writer(W2));
    assert!(!tracker.register_writer(W1));
    tracker.report_progress(SRC, 5);

    assert_eq!(tracker.trigger_checkpoint(), TriggerOutcome::Started);
    assert_eq!(tracker.trigger_checkpoint(), TriggerOutcome::Coalesced);
    assert_eq!(tracker.trigger_checkpoint(), TriggerOutcome::Coalesced);
    assert_eq!(tracker.pending_writer_count(), 2);

    assert!(tracker.report_flush_success(W1, 0));
    assert!(tracker.report_flush_success(W2, 0));
    assert!(!tracker.report_flush_success(W2, 0));
    assert_eq!(tracker.pending_writer_count(), 0);

    let committed = tracker.complete_checkpoint(&mut backend);
    assert_eq!(committed.unwrap(), 0);
    assert_eq!(tracker.next_sequence(), 1);
    assert!(!tracker.is_checkpoint_in_flight());
    assert_eq!(backend.record_count(), 1);
    let record = backend.get_latest().unwrap();
    assert_eq!(record.sequence, 0);
    assert_eq!(record.frontier.get(SRC), Some(5));
}

#[test]
fn crash_after_prepare_keeps_previous_record() {
    let mut backend = InMemoryMetadataBackend::new();
    let mut writer = InMemorySnapshotWriter::new(W1);

    // First run: some state is made durable by a completed checkpoint.
    let mut tracker = Tracker::new();
    tracker.register_writer(W1);
    tracker.report_progress(SRC, 5);
    writer.record(11);
    writer.record(22);
    assert_eq!(tracker.trigger_checkpoint(), TriggerOutcome::Started);
    let token = writer.flush().unwrap();
    assert!(tracker.report_flush_success(W1, token));
    assert_eq!(tracker.complete_checkpoint(&mut backend).unwrap(), 0);

    // Second attempt: progress and flushes happen, but the process crashes
    // after PREPARE, before COMMIT.
    tracker.report_progress(SRC, 9);
    writer.record(33);
    assert_eq!(tracker.trigger_checkpoint(), TriggerOutcome::Started);
    let _lost = writer.flush().unwrap();
    drop(tracker);

    // Recovery sees only the committed record and restores from its tokens.
    let record = backend.get_latest().unwrap();
    assert_eq!(record.sequence, 0);
    assert_eq!(record.frontier.get(SRC), Some(5));
    assert_eq!(record.writer_tokens, vec![(W1, token)]);

    let mut results: Vec<(u128, bool)> = Vec::new();
    for (id, tok) in &record.writer_tokens {
        results.push((*id, writer.restore(*tok).is_ok()));
    }
    assert!(check_restore_results(&results).is_ok());
    assert_eq!(writer.current_state(), vec![11, 22]);

    let recovered = Tracker::recover(Some(record)).unwrap();
    assert_eq!(recovered.next_sequence(), 1);
    assert_eq!(recovered.progress(SRC), Some(5));
    assert!(!recovered.is_checkpoint_in_flight());
}

#[test]
fn prepare_failure_aborts_without_commit_and_retries() {
    let mut backend = InMemoryMetadataBackend::new();
    let mut tracker = Tracker::new();
    tracker.register_writer(W1);
    tracker.report_progress(SRC, 4);

    assert_eq!(tracker.trigger_checkpoint(), TriggerOutcome::Started);
    // The writer's flush failed or timed out: the attempt is abandoned.
    tracker.abort_checkpoint();
    assert!(!tracker.is_checkpoint_in_flight());
    assert_eq!(backend.record_count(), 0);
    assert_eq!(tracker.next_sequence(), 0);
    // Progress kept accumulating; the next trigger retries and succeeds.
    tracker.report_progress(SRC, 6);
    assert_eq!(tracker.trigger_checkpoint(), TriggerOutcome::Started);
    assert!(tracker.report_flush_success(W1, 0));
    assert_eq!(tracker.complete_checkpoint(&mut backend).unwrap(), 0);
    let record = backend.get_latest().unwrap();
    assert_eq!(record.frontier.get(SRC), Some(6));
}

#[test]
fn out_of_order_progress_is_rejected_not_fatal() {
    let mut tracker = Tracker::new();
    assert!(tracker.report_progress(SRC, 5));
    assert!(!tracker.report_progress(SRC, 3));
    assert_eq!(tracker.progress(SRC), Some(5));
    assert!(tracker.report_progress(SRC, 7));
    assert_eq!(tracker.progress(SRC), Some(7));
}

#[test]
fn writer_restore_of_unknown_token_is_integrity_error() {
    let mut writer = InMemorySnapshotWriter::new(W1);
    writer.record(1);
    let token = writer.flush().unwrap();
    assert_eq!(token, 0);
    assert_eq!(
        writer.restore(99),
        Err(RecoveryIntegrityError::WriterRestoreFailed { writer: W1 })
    );
    // Nothing durable was lost: the committed token still restores.
    assert!(writer.restore(token).is_ok());
    assert_eq!(writer.current_state(), vec![1]);
}

#[test]
fn writer_flush_tokens_address_distinct_states() {
    let mut writer = InMemorySnapshotWriter::new(W2);
    assert_eq!(writer.id(), W2);
    writer.record(1);
    let t0 = writer.flush().unwrap();
    writer.record(2);
    let t1 = writer.flush().unwrap();
    assert_ne!(t0, t1);
    assert!(writer.restore(t0).is_ok());
    assert_eq!(writer.current_state(), vec![1]);
    assert!(writer.restore(t1).is_ok());
    assert_eq!(writer.current_state(), vec![1, 2]);
}

#[test]
fn check_restore_results_names_first_failing_writer() {
    let results = vec![(W1, true), (W2, false), (SRC, false)];
    assert_eq!(
        check_restore_results(&results),
        Err(RecoveryIntegrityError::WriterRestoreFailed { writer: W2 })
    );
    let all_good = vec![(W1, true), (W2, true)];
    assert!(check_restore_results(&all_good).is_ok());
    let empty: Vec<(u128, bool)> = Vec::new();
    assert!(check_restore_results(&empty).is_ok());
}

#[test]
fn recover_from_nothing_starts_fresh() {
    let tracker = Tracker::recover(None).unwrap();
    assert_eq!(tracker.next_sequence(), 0);
    assert_eq!(tracker.progress(SRC), None);
    assert!(!tracker.is_checkpoint_in_flight());
}

#[test]
fn recover_rejects_malformed_sequence() {
    let record = CheckpointRecord {
        sequence: u64::MAX,
        frontier: Frontier::new(),
        writer_tokens: Vec::new(),
    };
    let outcome = Tracker::recover(Some(record));
    assert_eq!(
        outcome.err(),
        Some(RecoveryIntegrityError::UnreadableRecord { sequence: u64::MAX })
    );
}

#[test]
fn register_resolves_names_without_coordination() {
    let tracker = Tracker::new();
    let other = Tracker::new();
    assert_eq!(tracker.register("orders"), other.register("orders"));
    assert_ne!(tracker.register("orders"), tracker.register("payments"));
}

#[test]
fn progress_during_in_flight_checkpoint_does_not_move_frozen_snapshot() {
    let mut backend = InMemoryMetadataBackend::new();
    let mut tracker = Tracker::new();
    tracker.register_writer(W1);
    tracker.report_progress(SRC, 5);
    assert_eq!(tracker.trigger_checkpoint(), TriggerOutcome::Started);
    // Reports keep flowing while the attempt is in flight.
    assert!(tracker.report_progress(SRC, 8));
    assert!(tracker.report_flush_success(W1, 3));
    assert_eq!(tracker.complete_checkpoint(&mut backend).unwrap(), 0);
    let record = backend.get_latest().unwrap();
    // The record carries the frontier as frozen at trigger time.
    assert_eq!(record.frontier.get(SRC), Some(5));
    // The live frontier kept the later report.
    assert_eq!(tracker.progress(SRC), Some(8));
    assert_eq!(record.writer_tokens, vec![(W1, 3)]);
}

#[test]
fn full_checkpoint_and_recovery_cycle() {
    let mut backend = InMemoryMetadataBackend::new();
    let mut writers = vec![InMemorySnapshotWriter::new(W1), InMemorySnapshotWriter::new(W2)];
    let mut tracker = Tracker::new();
    tracker.register_writer(W1);
    tracker.register_writer(W2);
    tracker.report_progress(SRC, 5);
    writers[0].record(7);
    writers[1].record(8);

    let seq = run_checkpoint(&mut tracker, &mut backend, &mut writers).unwrap();
    assert_eq!(seq, 0);
    assert_eq!(tracker.next_sequence(), 1);
    assert_eq!(backend.record_count(), 1);

    // Volatile work after the checkpoint is lost in the crash.
    writers[0].record(99);
    tracker.report_progress(SRC, 9);
    drop(tracker);

    // Restart: read the latest record, restore the writers, seed a tracker.
    let record = backend.get_latest().unwrap();
    assert_eq!(record.sequence, 0);
    assert_eq!(record.writer_tokens.len(), 2);
    assert_eq!(record.writer_tokens[0].0, W1);
    assert_eq!(record.writer_tokens[1].0, W2);
    assert!(restore_writers(&record, &mut writers).is_ok());
    assert_eq!(writers[0].current_state(), vec![7]);
    assert_eq!(writers[1].current_state(), vec![8]);
    let recovered = Tracker::recover(Some(record)).unwrap();
    assert_eq!(recovered.next_sequence(), 1);
    assert_eq!(recovered.progress(SRC), Some(5));
}

#[test]
fn restore_writers_fails_on_unknown_token() {
    let record = CheckpointRecord {
        sequence: 0,
        frontier: Frontier::new(),
        writer_tokens: vec![(W1, 5)],
    };
    let mut writers = vec![InMemorySnapshotWriter::new(W1)];
    assert_eq!(
        restore_writers(&record, &mut writers),
        Err(RecoveryIntegrityError::WriterRestoreFailed { writer: W1 })
    );
}
