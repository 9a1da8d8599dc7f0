//! `lock_macro` invariant: a validator that voted
//! for a checkpoint at macro height `h` must not vote for a conflicting
//! checkpoint at the same height.
use vstd::prelude::*;
use crate::table::Table;
use crate::types::crypto_types::Hash32;
use crate::types::primitives::{Height, ValidatorId};

verus! {

/// Per-validator locks: each validator pins at most one
/// `(height, checkpoint_hash)` pair as its canonical macro vote.
#[derive(Debug)]
pub struct LockMacro {
    /// Locks by validator.
    pub locks: Table<ValidatorId, (Height, Hash32)>,
}

/// Whether locking `v` to `(height, checkpoint)` conflicts with the current locks.
pub open spec fn conflicts(locks: Map<ValidatorId, (Height, Hash32)>, v: ValidatorId, height: Height, checkpoint: Hash32) -> bool {
    locks.contains_key(v) && locks[v].0 == height && locks[v].1 != checkpoint
}

impl LockMacro {
    /// The locks, by validator.
    pub closed spec fn view(&self) -> Map<ValidatorId, (Height, Hash32)> {
        self.locks@
    }

    /// Internal consistency.
    pub closed spec fn wf(&self) -> bool {
        self.locks.wf()
    }

    /// New empty tracker.
    pub fn new() -> (l: Self)
        ensures
            l.wf(),
            l@ == Map::<ValidatorId, (Height, Hash32)>::empty(),
    {
        LockMacro { locks: Table::new() }
    }

    /// Lock `validator` to `(height, checkpoint)`. Refused exactly when the
    /// validator is already locked to a different checkpoint at the same height.
    pub fn try_lock(&mut self, validator: ValidatorId, height: Height, checkpoint: Hash32) -> (r: Result<(), &'static str>)
        requires
            old(self).wf(),
        ensures
            final(self).wf(),
            r is Err <==> conflicts(old(self)@, validator, height, checkpoint),
            r is Err ==> r == Err::<(), &'static str>("validator already locked to a conflicting checkpoint at this height"),
            r is Ok ==> final(self)@ == old(self)@.insert(validator, (height, checkpoint)),
            r is Err ==> *final(self) == *old(self),
    {
        match self.locks.get(&validator) {
            Some((h, prev)) => {
                if h.0 == height.0 && !prev.same(&checkpoint) {
                    return Err("validator already locked to a conflicting checkpoint at this height");
                }
            },
            None => {},
        }
        self.locks.insert(validator, (height, checkpoint));
        Ok(())
    }

    /// Current lock for `validator`, if any.
    pub fn get(&self, validator: &ValidatorId) -> (r: Option<(Height, Hash32)>)
        requires
            self.wf(),
        ensures
            r == (if self@.contains_key(*validator) { Some(self@[*validator]) } else { None }),
    {
        self.locks.get(validator)
    }
}

impl Default for LockMacro {
    fn default() -> (l: Self)
        ensures
            l.wf(),
            l@ == Map::<ValidatorId, (Height, Hash32)>::empty(),
    {
        LockMacro::new()
    }
}

/// A successful lock never moves a validator to a second checkpoint at a
/// height it is already locked at.
pub proof fn lemma_lock_never_conflicts(
    before: Map<ValidatorId, (Height, Hash32)>,
    after: Map<ValidatorId, (Height, Hash32)>,
    v: ValidatorId,
    height: Height,
    checkpoint: Hash32,
)
    requires
        !conflicts(before, v, height, checkpoint),
        after == before.insert(v, (height, checkpoint)),
    ensures
        before.contains_key(v) && before[v].0 == height ==> after[v] == before[v],
        after.contains_key(v) && after[v] == (height, checkpoint),
{
}

} // verus!
