//! Metadata backend capability.
//!
//! A metadata backend is durable key-addressed storage for small checkpoint
//! records. Concrete variants (filesystem, object store, in-memory for
//! tests) are chosen at construction; the core only relies on the contract
//! stated here: `put` is atomic and durable, and `get_latest` returns the
//! most recently successfully-put record, never one from a failed put.

use vstd::prelude::*;
use crate::errors::TransientIoError;
use crate::record::{CheckpointRecord, RecordView};

verus! {

/// Durable key-addressed storage for checkpoint records, implemented by
/// backend authors.
pub trait MetadataBackend {
    /// All records successfully put so far, oldest first. A failed put never
    /// appears here.
    spec fn history(&self) -> Seq<RecordView>;

    /// Durably stores a record as one atomic unit: after success the record
    /// is fully visible, after failure not at all.
    fn put(&mut self, record: CheckpointRecord) -> (r: Result<(), TransientIoError>)
        ensures
            r is Ok ==> final(self).history() == old(self).history().push(record@),
            r is Err ==> final(self).history() == old(self).history(),
    ;

    /// The most recently successfully-put record, or `None` if no record was
    /// ever put. Never returns a record from a failed put.
    fn get_latest(&self) -> (r: Option<CheckpointRecord>)
        ensures
            match r {
                Some(rec) => self.history().len() > 0 && rec@ == self.history().last(),
                None => self.history().len() == 0,
            },
    ;
}

/// Round-trip law: a checkpoint record written through a metadata backend
/// and read back as the latest record is field-equal to the original. A
/// successful `put` on a backend with history `h` extends it to `h.push(r)`,
/// and whatever `get_latest` then returns is exactly `r`.
pub proof fn lemma_round_trip(h: Seq<RecordView>, r: RecordView, read_back: RecordView)
    requires
        read_back == h.push(r).last(),
    ensures
        read_back == r,
{
}

/// In-memory metadata backend: keeps every record put to it, in order.
/// Intended for tests and for running without durable infrastructure.
pub struct InMemoryMetadataBackend {
    records: Vec<CheckpointRecord>,
}

impl InMemoryMetadataBackend {
    /// A backend with no records: `get_latest` returns `None` on first run.
    pub fn new() -> (r: InMemoryMetadataBackend)
        ensures
            r.history() == Seq::<RecordView>::empty(),
    {
        let r = InMemoryMetadataBackend { records: Vec::new() };
        proof {
            assert(r.history() =~= Seq::<RecordView>::empty());
        }
        r
    }

    /// How many records were ever successfully put.
    pub fn record_count(&self) -> (r: usize)
        ensures
            r == self.history().len(),
    {
        self.records.len()
    }
}

impl MetadataBackend for InMemoryMetadataBackend {
    closed spec fn history(&self) -> Seq<RecordView> {
        self.records@.map_values(|rec: CheckpointRecord| rec@)
    }

    fn put(&mut self, record: CheckpointRecord) -> (r: Result<(), TransientIoError>)
        ensures
            r is Ok,
    {
        self.records.push(record);
        proof {
            assert(self.history() =~= old(self).history().push(record@));
        }
        Ok(())
    }

    fn get_latest(&self) -> (r: Option<CheckpointRecord>) {
        let n = self.records.len();
        if n == 0 {
            None
        } else {
            let rec = self.records[n - 1].duplicate();
            proof {
                assert(self.history()[n - 1] == self.records@[n - 1 as int]@);
            }
            Some(rec)
        }
    }
}

} // verus!
