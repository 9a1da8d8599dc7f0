//! Macro-finality timers (`T_macropropose` backup takeover, Mode B deadline).
use vstd::prelude::*;
use crate::action::Action;
use crate::config::Config;
use crate::event::TimerId;
use crate::leader::timeout::{next_id, TimerScheduler};
use crate::table::Table;
use crate::types::primitives::Height;

verus! {

/// Macro-layer timer ids, by height.
#[derive(Debug)]
pub struct MacroTimerBook {
    /// Id allocator.
    pub seq: TimerScheduler,
    /// Backup-proposer timer per height.
    pub backup_by_height: Table<u64, TimerId>,
    /// Mode B deadline timer per height.
    pub mode_b_by_height: Table<u64, TimerId>,
}

impl MacroTimerBook {
    /// Internal consistency.
    pub open spec fn wf(&self) -> bool {
        self.backup_by_height.wf() && self.mode_b_by_height.wf()
    }

    /// Fresh timer book.
    pub fn new() -> (t: Self)
        ensures
            t.wf(),
            t.backup_by_height@ == Map::<u64, TimerId>::empty(),
            t.mode_b_by_height@ == Map::<u64, TimerId>::empty(),
            t.backup_by_height.pairs().len() == 0,
            t.mode_b_by_height.pairs().len() == 0,
            t.seq.spec_next() == 0,
    {
        MacroTimerBook { seq: TimerScheduler::new(), backup_by_height: Table::new(), mode_b_by_height: Table::new() }
    }

    /// Record the backup-proposer timer for `height`.
    pub fn schedule_backup_propose(&mut self, height: Height, id: TimerId)
        requires
            old(self).wf(),
        ensures
            final(self).wf(),
            final(self).backup_by_height@ == old(self).backup_by_height@.insert(height.0, id),
            final(self).mode_b_by_height@ == old(self).mode_b_by_height@,
            final(self).seq == old(self).seq,
    {
        self.backup_by_height.insert(height.0, id);
    }

    /// Backup timer id for `height`.
    pub fn backup_timer_for(&self, height: Height) -> (r: Option<TimerId>)
        requires
            self.wf(),
        ensures
            r == (if self.backup_by_height@.contains_key(height.0) {
                Some(self.backup_by_height@[height.0])
            } else {
                None
            }),
    {
        self.backup_by_height.get(&height.0)
    }

    /// Stop tracking the backup timer for `height`.
    pub fn clear_backup(&mut self, height: Height)
        requires
            old(self).wf(),
        ensures
            final(self).wf(),
            final(self).backup_by_height@ == old(self).backup_by_height@.remove(height.0),
            final(self).mode_b_by_height@ == old(self).mode_b_by_height@,
            final(self).seq == old(self).seq,
    {
        self.backup_by_height.remove(&height.0);
    }

    /// Record the Mode B deadline timer for `height`.
    pub fn schedule_mode_b_deadline(&mut self, height: Height, id: TimerId)
        requires
            old(self).wf(),
        ensures
            final(self).wf(),
            final(self).mode_b_by_height@ == old(self).mode_b_by_height@.insert(height.0, id),
            final(self).backup_by_height@ == old(self).backup_by_height@,
            final(self).seq == old(self).seq,
    {
        self.mode_b_by_height.insert(height.0, id);
    }

    /// Mode B timer id for `height`.
    pub fn mode_b_timer_for(&self, height: Height) -> (r: Option<TimerId>)
        requires
            self.wf(),
        ensures
            r == (if self.mode_b_by_height@.contains_key(height.0) {
                Some(self.mode_b_by_height@[height.0])
            } else {
                None
            }),
    {
        self.mode_b_by_height.get(&height.0)
    }

    /// Stop tracking the Mode B timer for `height`.
    pub fn clear_mode_b(&mut self, height: Height)
        requires
            old(self).wf(),
        ensures
            final(self).wf(),
            final(self).mode_b_by_height@ == old(self).mode_b_by_height@.remove(height.0),
            final(self).backup_by_height@ == old(self).backup_by_height@,
            final(self).seq == old(self).seq,
    {
        self.mode_b_by_height.remove(&height.0);
    }

    /// Height whose backup timer is `id`, if any.
    pub fn height_for_backup_timer(&self, id: TimerId) -> (r: Option<Height>)
        requires
            self.wf(),
        ensures
            r == first_height_with(self.backup_by_height.pairs(), id),
            match r {
                Some(h) => self.backup_by_height@.contains_key(h.0) && self.backup_by_height@[h.0] == id,
                None => forall|h: u64| #[trigger] self.backup_by_height@.contains_key(h) ==> self.backup_by_height@[h] != id,
            },
    {
        reverse_lookup(&self.backup_by_height, id)
    }

    /// Height whose Mode B timer is `id`, if any.
    pub fn height_for_mode_b_timer(&self, id: TimerId) -> (r: Option<Height>)
        requires
            self.wf(),
        ensures
            r == first_height_with(self.mode_b_by_height.pairs(), id),
            match r {
                Some(h) => self.mode_b_by_height@.contains_key(h.0) && self.mode_b_by_height@[h.0] == id,
                None => forall|h: u64| #[trigger] self.mode_b_by_height@.contains_key(h) ==> self.mode_b_by_height@[h] != id,
            },
    {
        reverse_lookup(&self.mode_b_by_height, id)
    }

    /// Allocate a fresh timer id.
    pub fn alloc_id(&mut self) -> (id: TimerId)
        ensures
            id.0 == old(self).seq.spec_next(),
            final(self).seq.spec_next() == next_id(old(self).seq.spec_next()),
            final(self).backup_by_height == old(self).backup_by_height,
            final(self).mode_b_by_height == old(self).mode_b_by_height,
    {
        self.seq.allocate()
    }

    /// `ScheduleTimer` for the backup-proposer takeover at `height`, after `T_macropropose`.
    pub fn backup_propose_action(&mut self, cfg: &Config, height: Height) -> (a: Action)
        requires
            old(self).wf(),
        ensures
            final(self).wf(),
            final(self).seq.spec_next() == next_id(old(self).seq.spec_next()),
            final(self).backup_by_height@ == old(self).backup_by_height@.insert(height.0, TimerId(old(self).seq.spec_next())),
            final(self).mode_b_by_height@ == old(self).mode_b_by_height@,
            a == (Action::ScheduleTimer {
                id: TimerId(old(self).seq.spec_next()),
                delay_nanos: ((cfg.timing.t_macropropose_ms as u128) * 1_000_000) as u128,
            }),
    {
        let id = self.alloc_id();
        self.schedule_backup_propose(height, id);
        let delay = (cfg.timing.t_macropropose_ms as u128) * 1_000_000;
        Action::ScheduleTimer { id, delay_nanos: delay }
    }

    /// `ScheduleTimer` for the Mode B activation deadline at `height`, after `2 x T_macropropose`.
    pub fn mode_b_deadline_action(&mut self, cfg: &Config, height: Height) -> (a: Action)
        requires
            old(self).wf(),
        ensures
            final(self).wf(),
            final(self).seq.spec_next() == next_id(old(self).seq.spec_next()),
            final(self).mode_b_by_height@ == old(self).mode_b_by_height@.insert(height.0, TimerId(old(self).seq.spec_next())),
            final(self).backup_by_height@ == old(self).backup_by_height@,
            a == (Action::ScheduleTimer {
                id: TimerId(old(self).seq.spec_next()),
                delay_nanos: ((cfg.timing.t_macropropose_ms as u128) * 2_000_000) as u128,
            }),
    {
        let id = self.alloc_id();
        self.schedule_mode_b_deadline(height, id);
        let delay = (cfg.timing.t_macropropose_ms as u128) * 2_000_000;
        Action::ScheduleTimer { id, delay_nanos: delay }
    }
}

impl Default for MacroTimerBook {
    fn default() -> (t: Self)
        ensures
            t.wf(),
            t.backup_by_height@ == Map::<u64, TimerId>::empty(),
            t.mode_b_by_height@ == Map::<u64, TimerId>::empty(),
            t.backup_by_height.pairs().len() == 0,
            t.mode_b_by_height.pairs().len() == 0,
            t.seq.spec_next() == 0,
    {
        MacroTimerBook::new()
    }
}

/// `i` is the first position of `pairs` whose timer is `id`.
pub open spec fn first_with(pairs: Seq<(u64, TimerId)>, id: TimerId, i: int) -> bool {
    &&& 0 <= i < pairs.len()
    &&& pairs[i].1 == id
    &&& forall|j: int| 0 <= j < i ==> (#[trigger] pairs[j]).1 != id
}

/// The height of the first entry, in the table's order, whose timer is `id`.
pub open spec fn first_height_with(pairs: Seq<(u64, TimerId)>, id: TimerId) -> Option<Height> {
    if exists|i: int| first_with(pairs, id, i) {
        Some(Height(pairs[choose|i: int| first_with(pairs, id, i)].0))
    } else {
        None
    }
}

fn reverse_lookup(t: &Table<u64, TimerId>, id: TimerId) -> (r: Option<Height>)
    requires
        t.wf(),
    ensures
        r == first_height_with(t.pairs(), id),
        match r {
            Some(h) => t@.contains_key(h.0) && t@[h.0] == id,
            None => forall|h: u64| #[trigger] t@.contains_key(h) ==> t@[h] != id,
        },
{
    let mut i: usize = 0;
    while i < t.len()
        invariant
            t.wf(),
            0 <= i <= t.pairs().len(),
            forall|j: int| 0 <= j < i ==> (#[trigger] t.pairs()[j]).1 != id,
        decreases t.pairs().len() - i,
    {
        let (h, tid) = t.pair(i);
        if tid.0 == id.0 {
            proof {
                t.lemma_at(i as int);
                assert(first_with(t.pairs(), id, i as int));
                let c = choose|c: int| first_with(t.pairs(), id, c);
                if c < i {
                    assert(t.pairs()[c].1 != id);
                } else if c > i {
                    assert(t.pairs()[i as int].1 != id);
                }
            }
            return Some(Height(h));
        }
        i = i + 1;
    }
    proof {
        assert forall|h: u64| #[trigger] t@.contains_key(h) implies t@[h] != id by {
            let j = choose|j: int| 0 <= j < t.pairs().len() && #[trigger] t.pairs()[j].0 == h;
            t.lemma_at(j);
        }
        assert(!(exists|c: int| first_with(t.pairs(), id, c)));
    }
    None
}

} // verus!
