//! In-memory state of the relaxed L2 commit path.
use vstd::prelude::*;
use crate::table::{KeySet, Table};
use crate::types::crypto_types::Hash32;
use crate::types::primitives::{Round, ValidatorId};

verus! {

/// Per-wave commit status.
#[derive(Clone, Copy, Debug, PartialEq, Eq, Structural)]
pub enum WaveStatus {
    /// Wave seen but not yet committed.
    Pending,
    /// Wave committed locally.
    Committed,
}

/// Mutable state of the relaxed L2 path.
#[derive(Debug)]
pub struct Book {
    /// Seen certified vertices: hash to `(round, author)`.
    pub seen: Table<Hash32, (Round, ValidatorId)>,
    /// Per-wave commit status.
    pub wave_status: Table<u64, WaveStatus>,
    /// Checkpoint hashes this validator already broadcast a MicroQc for.
    pub emitted_micro_qc: KeySet<Hash32>,
}

impl Book {
    /// Internal consistency.
    pub open spec fn wf(&self) -> bool {
        self.seen.wf() && self.wave_status.wf() && self.emitted_micro_qc.wf()
    }

    /// Empty book.
    pub fn new() -> (b: Self)
        ensures
            b.wf(),
            b.seen@ == Map::<Hash32, (Round, ValidatorId)>::empty(),
            b.wave_status@ == Map::<u64, WaveStatus>::empty(),
            b.emitted_micro_qc@ == Set::<Hash32>::empty(),
    {
        Book { seen: Table::new(), wave_status: Table::new(), emitted_micro_qc: KeySet::new() }
    }
}

impl Default for Book {
    fn default() -> (b: Self)
        ensures
            b.wf(),
            b.seen@ == Map::<Hash32, (Round, ValidatorId)>::empty(),
            b.wave_status@ == Map::<u64, WaveStatus>::empty(),
            b.emitted_micro_qc@ == Set::<Hash32>::empty(),
    {
        Book::new()
    }
}

} // verus!
