//! Checkpoint records.
//!
//! A [`CheckpointRecord`] is the durable unit written through a metadata
//! backend at checkpoint time. It is immutable once stored, superseded (not
//! necessarily deleted) by the next record, and read exactly once at recovery
//! startup.

use vstd::prelude::*;
use crate::frontier::{Frontier, Token};
use crate::registry::PersistentId;

verus! {

/// Mathematical content of a checkpoint record: what two records must agree
/// on to count as field-equal.
pub ghost struct RecordView {
    /// Monotonically increasing sequence number.
    pub sequence: u64,
    /// Full frontier snapshot at checkpoint time.
    pub frontier: Map<PersistentId, Token>,
    /// One (writer identity, commit token) pair per snapshot writer.
    pub writer_tokens: Seq<(PersistentId, Token)>,
}

/// Durable unit tying a frontier snapshot to the commit tokens of every
/// snapshot writer that took part in the checkpoint.
pub struct CheckpointRecord {
    /// Monotonically increasing sequence number.
    pub sequence: u64,
    /// Full frontier snapshot at checkpoint time.
    pub frontier: Frontier,
    /// One (writer identity, commit token) pair per snapshot writer.
    pub writer_tokens: Vec<(PersistentId, Token)>,
}

impl View for CheckpointRecord {
    type V = RecordView;

    open spec fn view(&self) -> RecordView {
        RecordView {
            sequence: self.sequence,
            frontier: self.frontier@,
            writer_tokens: self.writer_tokens@,
        }
    }
}

/// An element-wise copy of a vector of copyable values.
pub fn copy_vec<T: Copy>(v: &Vec<T>) -> (r: Vec<T>)
    ensures
        r@ == v@,
{
    let n = v.len();
    let mut r: Vec<T> = Vec::new();
    let mut i: usize = 0;
    while i < n
        invariant
            n == v@.len(),
            0 <= i <= n,
            r@ == v@.take(i as int),
        decreases n - i,
    {
        r.push(v[i]);
        proof {
            assert(r@ =~= v@.take(i + 1));
        }
        i += 1;
    }
    proof {
        assert(r@ =~= v@);
    }
    r
}

impl CheckpointRecord {
    /// A field-equal copy of the record.
    pub fn duplicate(&self) -> (r: CheckpointRecord)
        ensures
            r@ == self@,
    {
        CheckpointRecord {
            sequence: self.sequence,
            frontier: self.frontier.snapshot(),
            writer_tokens: copy_vec(&self.writer_tokens),
        }
    }
}

} // verus!
