//! Timer-id allocation. The state machine emits `ScheduleTimer` /
//! `CancelTimer` actions; the host turns them into real timers.
use vstd::prelude::*;
use crate::event::TimerId;

verus! {

/// Allocates monotonic `TimerId`s.
#[derive(Debug)]
pub struct TimerScheduler {
    next: u64,
}

impl TimerScheduler {
    /// The id the next allocation hands out.
    pub closed spec fn spec_next(&self) -> u64 {
        self.next
    }

    /// A scheduler whose first id is 0.
    pub fn new() -> (s: Self)
        ensures
            s.spec_next() == 0,
    {
        TimerScheduler { next: 0 }
    }

    /// Allocate a new `TimerId`: the ids come out as 0, 1, 2, ... (the
    /// counter wraps after `u64::MAX`).
    pub fn allocate(&mut self) -> (id: TimerId)
        ensures
            id.0 == old(self).spec_next(),
            final(self).spec_next() == next_id(old(self).spec_next()),
    {
        let id = TimerId(self.next);
        self.next = self.next.wrapping_add(1);
        id
    }
}

/// The counter after one allocation.
pub open spec fn next_id(n: u64) -> u64 {
    if n == u64::MAX { 0 } else { (n + 1) as u64 }
}

impl Default for TimerScheduler {
    fn default() -> (s: Self)
        ensures
            s.spec_next() == 0,
    {
        TimerScheduler::new()
    }
}

/// Two allocations in a row give different ids, the later one larger.
pub proof fn lemma_allocations_increase(s0: TimerScheduler, s1: TimerScheduler, s2: TimerScheduler, a: TimerId, b: TimerId)
    requires
        a.0 == s0.spec_next(),
        s0.spec_next() < u64::MAX - 1,
        s1.spec_next() == next_id(s0.spec_next()),
        b.0 == s1.spec_next(),
        s2.spec_next() == next_id(s1.spec_next()),
    ensures
        a.0 < b.0,
        a != b,
{
}

} // verus!
