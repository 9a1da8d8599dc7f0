//! Casper-FFG 2-chain finality rule: an adopted checkpoint is justified;
//! two adopted checkpoints at consecutive heights, the later one naming the
//! earlier as parent, finalize the earlier.
use vstd::prelude::*;
use crate::table::Table;
use crate::types::crypto_types::Hash32;
use crate::types::macros::MacroCheckpoint;
use crate::types::primitives::Height;

verus! {

/// 2-chain finality tracker.
#[derive(Debug)]
pub struct TwoChainRule {
    /// Adopted checkpoints by height.
    pub adopted: Table<Height, MacroCheckpoint>,
    /// Hash of the most recently justified checkpoint.
    pub justified_head: Option<Hash32>,
    /// Hash of the most recently finalized checkpoint.
    pub finalized_head: Option<Hash32>,
}

impl Default for TwoChainRule {
    fn default() -> (r: Self)
        ensures
            r.wf(),
            r@ == Map::<Height, MacroCheckpoint>::empty(),
            r.justified_head is None,
            r.finalized_head is None,
    {
        TwoChainRule::new()
    }
}

/// `x` is the highest adopted height whose checkpoint hash is `h`.
pub open spec fn is_top_height_of(adopted: Map<Height, MacroCheckpoint>, h: Hash32, x: Height) -> bool {
    &&& adopted.contains_key(x)
    &&& adopted[x].hash == h
    &&& forall|y: Height| adopted.contains_key(y) && adopted[y].hash == h ==> y.0 <= x.0
}

/// `after` is `before` once `cp` is adopted: the first checkpoint adopted at a
/// height stays, and the justified head moves to `cp` when it is that checkpoint.
pub open spec fn adopt_step(before: TwoChainRule, after: TwoChainRule, cp: MacroCheckpoint) -> bool {
    &&& (before@.contains_key(cp.height) ==> after@ == before@)
    &&& (!before@.contains_key(cp.height) ==> after@ == before@.insert(cp.height, cp))
    &&& after.justified_head == (if after@[cp.height].hash == cp.hash { Some(cp.hash) } else { before.justified_head })
    &&& after.finalized_head == before.finalized_head
}

impl TwoChainRule {
    /// Adopted checkpoints by height.
    pub open spec fn view(&self) -> Map<Height, MacroCheckpoint> {
        self.adopted@
    }

    /// Internal consistency.
    pub open spec fn wf(&self) -> bool {
        self.adopted.wf()
    }

    /// Height of the justified head, if it is adopted.
    pub open spec fn spec_justified_head_height(&self) -> Option<Height> {
        match self.justified_head {
            None => None,
            Some(h) => if exists|x: Height| is_top_height_of(self@, h, x) {
                Some(choose|x: Height| is_top_height_of(self@, h, x))
            } else {
                None
            },
        }
    }

    /// The height this rule would newly finalize now, if any.
    pub open spec fn spec_newly_finalized(&self) -> Option<Height> {
        match self.spec_justified_head_height() {
            None => None,
            Some(head) => if head.0 == 0 {
                None
            } else {
                let prev = Height((head.0 - 1) as u64);
                if self@.contains_key(prev) && self@[head].parent == self@[prev].hash
                    && self.finalized_head != Some(self@[prev].hash) {
                    Some(prev)
                } else {
                    None
                }
            },
        }
    }

    /// Nothing adopted, nothing justified or finalized.
    pub fn new() -> (r: Self)
        ensures
            r.wf(),
            r@ == Map::<Height, MacroCheckpoint>::empty(),
            r.justified_head is None,
            r.finalized_head is None,
    {
        TwoChainRule { adopted: Table::new(), justified_head: None, finalized_head: None }
    }

    /// Mark `cp` as adopted (justified). The first checkpoint adopted at a
    /// height stays; the justified head moves only when `cp` is that checkpoint.
    pub fn adopt(&mut self, cp: MacroCheckpoint)
        requires
            old(self).wf(),
        ensures
            final(self).wf(),
            adopt_step(*old(self), *final(self), cp),
    {
        let entry = match self.adopted.get(&cp.height) {
            Some(e) => e,
            None => {
                self.adopted.insert(cp.height, cp);
                cp
            },
        };
        if entry.hash.same(&cp.hash) {
            self.justified_head = Some(cp.hash);
        }
    }

    /// Height of the current justified head, if any.
    pub fn justified_head_height(&self) -> (r: Option<Height>)
        requires
            self.wf(),
        ensures
            r == self.spec_justified_head_height(),
    {
        let head = match self.justified_head {
            Some(h) => h,
            None => return None,
        };
        let mut best: Option<Height> = None;
        let mut i: usize = 0;
        while i < self.adopted.len()
            invariant
                self.wf(),
                0 <= i <= self.adopted.pairs().len(),
                self.justified_head == Some(head),
                match best {
                    Some(b) => self@.contains_key(b) && self@[b].hash == head
                        && forall|j: int| 0 <= j < i && (#[trigger] self.adopted.pairs()[j]).1.hash == head
                            ==> self.adopted.pairs()[j].0.0 <= b.0,
                    None => forall|j: int| 0 <= j < i ==> (#[trigger] self.adopted.pairs()[j]).1.hash != head,
                },
            decreases self.adopted.pairs().len() - i,
        {
            let (h, cp) = self.adopted.pair(i);
            proof {
                self.adopted.lemma_at(i as int);
            }
            if cp.hash.same(&head) {
                match best {
                    Some(b) => {
                        if h.0 > b.0 {
                            best = Some(h);
                        }
                    },
                    None => {
                        best = Some(h);
                    },
                }
            }
            i = i + 1;
        }
        proof {
            match best {
                Some(b) => {
                    assert forall|y: Height| self@.contains_key(y) && self@[y].hash == head implies y.0 <= b.0 by {
                        let j = choose|j: int| 0 <= j < self.adopted.pairs().len() && #[trigger] self.adopted.pairs()[j].0 == y;
                        self.adopted.lemma_at(j);
                    }
                    assert(is_top_height_of(self@, head, b));
                    let c = choose|x: Height| is_top_height_of(self@, head, x);
                    assert(c.0 <= b.0 && b.0 <= c.0);
                },
                None => {
                    assert forall|x: Height| !is_top_height_of(self@, head, x) by {
                        if self@.contains_key(x) {
                            let j = choose|j: int| 0 <= j < self.adopted.pairs().len() && #[trigger] self.adopted.pairs()[j].0 == x;
                            self.adopted.lemma_at(j);
                        }
                    }
                },
            }
        }
        best
    }

    /// True if a checkpoint was adopted at `height`.
    pub fn is_justified(&self, height: Height) -> (r: bool)
        ensures
            r == self@.contains_key(height),
    {
        self.adopted.contains(&height)
    }

    /// The checkpoint adopted at `height`, if any.
    pub fn adopted_at(&self, height: Height) -> (r: Option<MacroCheckpoint>)
        requires
            self.wf(),
        ensures
            r == (if self@.contains_key(height) { Some(self@[height]) } else { None }),
    {
        self.adopted.get(&height)
    }

    /// If the latest adoption completes a 2-chain over the previous height,
    /// the height that is newly finalized.
    pub fn newly_finalized_height(&self) -> (r: Option<Height>)
        requires
            self.wf(),
        ensures
            r == self.spec_newly_finalized(),
    {
        let head = self.justified_head_height()?;
        if head.0 == 0 {
            return None;
        }
        let prev = Height(head.0 - 1);
        let head_cp = self.adopted.get(&head)?;
        let prev_cp = self.adopted.get(&prev)?;
        let already = match self.finalized_head {
            Some(f) => f.same(&prev_cp.hash),
            None => false,
        };
        if head_cp.parent.same(&prev_cp.hash) && !already {
            Some(prev)
        } else {
            None
        }
    }

    /// Mark `prev` as finalized (callers use the height `newly_finalized_height` gave).
    pub fn mark_finalized(&mut self, prev: Height)
        requires
            old(self).wf(),
        ensures
            final(self).wf(),
            final(self)@ == old(self)@,
            final(self).justified_head == old(self).justified_head,
            final(self).finalized_head == (if old(self)@.contains_key(prev) {
                Some(old(self)@[prev].hash)
            } else {
                old(self).finalized_head
            }),
    {
        if let Some(cp) = self.adopted.get(&prev) {
            self.finalized_head = Some(cp.hash);
        }
    }
}

/// With the justified head at the highest adopted height, nothing is newly
/// finalized unless the head's parent link names the checkpoint just below it.
pub proof fn lemma_no_finality_without_link(r: TwoChainRule, head: Height)
    requires
        r@.contains_key(head),
        forall|x: Height| #[trigger] r@.contains_key(x) ==> x.0 <= head.0,
        r.justified_head == Some(r@[head].hash),
        head.0 == 0 || !r@.contains_key(Height((head.0 - 1) as u64))
            || r@[head].parent != r@[Height((head.0 - 1) as u64)].hash,
    ensures
        r.spec_newly_finalized() is None,
{
    let h = r@[head].hash;
    assert(is_top_height_of(r@, h, head));
    let x = choose|x: Height| is_top_height_of(r@, h, x);
    assert(x.0 <= head.0 && head.0 <= x.0);
    assert(x == head);
}

/// A finalized height always has its successor adopted with a matching parent link.
pub proof fn lemma_finality_needs_parent_link(r: TwoChainRule)
    requires
        r.spec_newly_finalized() is Some,
    ensures
        ({
            let prev = r.spec_newly_finalized()->0;
            let next = Height((prev.0 + 1) as u64);
            &&& r@.contains_key(prev)
            &&& r@.contains_key(next)
            &&& r@[next].parent == r@[prev].hash
            &&& r.justified_head == Some(r@[next].hash)
        }),
{
    let head = r.spec_justified_head_height()->0;
    let h = r.justified_head->0;
    assert(is_top_height_of(r@, h, head));
}

/// Adopting a checkpoint and then its child at the next height finalizes the
/// first, when nothing was adopted at or above its height before and it was
/// not finalized already.
pub proof fn lemma_child_adoption_finalizes(r0: TwoChainRule, r1: TwoChainRule, r2: TwoChainRule, c0: MacroCheckpoint, c1: MacroCheckpoint)
    requires
        forall|x: Height| #[trigger] r0@.contains_key(x) ==> x.0 < c0.height.0,
        r0.finalized_head != Some(c0.hash),
        c1.height.0 == c0.height.0 + 1,
        c1.parent == c0.hash,
        adopt_step(r0, r1, c0),
        adopt_step(r1, r2, c1),
    ensures
        r2.spec_newly_finalized() == Some(c0.height),
{
    assert(!r0@.contains_key(c0.height));
    assert(r1@ == r0@.insert(c0.height, c0));
    assert(!r1@.contains_key(c1.height));
    assert(r2@ == r1@.insert(c1.height, c1));
    assert(r2.justified_head == Some(c1.hash));
    assert(is_top_height_of(r2@, c1.hash, c1.height));
    let x = choose|x: Height| is_top_height_of(r2@, c1.hash, x);
    assert(x.0 <= c1.height.0 && c1.height.0 <= x.0);
    assert(x == c1.height);
    assert(exists|y: Height| is_top_height_of(r2@, c1.hash, y));
    assert(r2.spec_justified_head_height() == Some(x));
    let prev = Height((c1.height.0 - 1) as u64);
    assert(prev == c0.height);
    assert(r2@.contains_key(prev));
    assert(r2@[prev] == c0);
    assert(r2@[c1.height] == c1);
    assert(r2.finalized_head == r0.finalized_head);
}

} // verus!
