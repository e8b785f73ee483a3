//! The result journal: the ordered, append-only output log of one
//! evaluation pass.
//!
//! A journal is created empty, populated by exactly one pass over the
//! dataset, and sealed when the pass completes.  Sealing is final: no
//! record can be appended afterwards, because the journal is bound into
//! the external proof artifact exactly as committed.

use vstd::prelude::*;

verus! {

/// One prediction: a (predicted, expected) pair of scaled values for the
/// regression kinds, or a (class distribution, expected class index)
/// pair for the tree kind.
pub enum PredictionRecord {
    Scalar { predicted: i64, expected: i64 },
    Classes { distribution: Vec<i64>, expected_class: u32 },
}

/// The ordered sequence of prediction records produced by one evaluation
/// pass, committed once and never mutated after sealing.
pub struct Journal {
    records: Vec<PredictionRecord>,
    sealed: bool,
}

impl Journal {
    /// The records committed so far, in dataset order.
    pub closed spec fn entries(self) -> Seq<PredictionRecord> {
        self.records@
    }

    /// Whether the journal has been sealed.
    pub closed spec fn is_sealed(self) -> bool {
        self.sealed
    }

    /// Creates an empty, unsealed journal.
    pub fn new() -> (j: Journal)
        ensures
            j.entries() == Seq::<PredictionRecord>::empty(),
            !j.is_sealed(),
    {
        Journal { records: Vec::new(), sealed: false }
    }

    /// Appends one record; only an unsealed journal accepts writes.
    pub fn append(&mut self, rec: PredictionRecord)
        requires
            !old(self).is_sealed(),
        ensures
            final(self).entries() == old(self).entries().push(rec),
            !final(self).is_sealed(),
    {
        self.records.push(rec);
    }

    /// Seals the journal; the records are fixed from here on.
    pub fn seal(&mut self)
        ensures
            final(self).is_sealed(),
            final(self).entries() == old(self).entries(),
    {
        self.sealed = true;
    }

    /// The number of committed records.
    pub fn len(&self) -> (n: usize)
        ensures
            n == self.entries().len(),
    {
        self.records.len()
    }

    /// Whether the journal is sealed, observable at run time.
    pub fn sealed(&self) -> (b: bool)
        ensures
            b == self.is_sealed(),
    {
        self.sealed
    }

    /// Reads one committed record.
    pub fn record_at(&self, i: usize) -> (r: &PredictionRecord)
        requires
            i < self.entries().len(),
        ensures
            *r == self.entries()[i as int],
    {
        &self.records[i]
    }
}

} // verus!
