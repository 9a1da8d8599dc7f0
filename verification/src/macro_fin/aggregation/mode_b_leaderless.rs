//! Mode B leaderless fallback: pick the canonical QC among competing candidates.
use vstd::prelude::*;
use crate::bitmap::{count_ones, count_set};
use crate::types::macros::MacroQc;

verus! {

/// Mode B aggregator state.
#[derive(Debug, PartialEq, Eq, Structural)]
pub struct ModeBLeaderless;

impl Default for ModeBLeaderless {
    fn default() -> (r: Self)
        ensures
            r == ModeBLeaderless,
    {
        ModeBLeaderless
    }
}

/// Lexicographic comparison of byte strings (a proper prefix is smaller):
/// `-1`, `0` or `1`.
pub open spec fn seq_order(a: Seq<u8>, b: Seq<u8>) -> int
    decreases a.len(),
{
    if a.len() == 0 {
        if b.len() == 0 { 0 } else { -1 }
    } else if b.len() == 0 {
        1
    } else if a[0] < b[0] {
        -1
    } else if a[0] > b[0] {
        1
    } else {
        seq_order(a.drop_first(), b.drop_first())
    }
}

/// Candidate order: more signed stake is greater; on equal stake the
/// lexicographically smaller bitmap is greater. `-1`, `0` or `1`.
pub open spec fn qc_order(a: MacroQc, b: MacroQc) -> int {
    let sa = count_set(a.agg.bitmap@);
    let sb = count_set(b.agg.bitmap@);
    if sa < sb {
        -1
    } else if sa > sb {
        1
    } else {
        seq_order(b.agg.bitmap@, a.agg.bitmap@)
    }
}

/// Index of the canonical candidate: the last one that no other candidate exceeds.
pub open spec fn is_canonical_index(cands: Seq<MacroQc>, i: int) -> bool {
    &&& 0 <= i < cands.len()
    &&& forall|j: int| 0 <= j < cands.len() ==> qc_order(#[trigger] cands[j], cands[i]) <= 0
    &&& forall|j: int| i < j < cands.len() ==> qc_order(#[trigger] cands[j], cands[i]) < 0
}

fn bytes_order(a: &Vec<u8>, b: &Vec<u8>) -> (r: i8)
    ensures
        r as int == seq_order(a@, b@),
{
    let mut i: usize = 0;
    assert(a@.subrange(0, a@.len() as int) =~= a@);
    assert(b@.subrange(0, b@.len() as int) =~= b@);
    while i < a.len() && i < b.len()
        invariant
            0 <= i <= a.len(),
            i <= b.len(),
            seq_order(a@, b@) == seq_order(a@.subrange(i as int, a@.len() as int), b@.subrange(i as int, b@.len() as int)),
        decreases a.len() - i,
    {
        let ghost sa = a@.subrange(i as int, a@.len() as int);
        let ghost sb = b@.subrange(i as int, b@.len() as int);
        assert(sa[0] == a@[i as int]);
        assert(sb[0] == b@[i as int]);
        if a[i] < b[i] {
            return -1;
        }
        if a[i] > b[i] {
            return 1;
        }
        assert(sa.drop_first() =~= a@.subrange(i + 1, a@.len() as int));
        assert(sb.drop_first() =~= b@.subrange(i + 1, b@.len() as int));
        i = i + 1;
    }
    let ghost sa = a@.subrange(i as int, a@.len() as int);
    let ghost sb = b@.subrange(i as int, b@.len() as int);
    if i < a.len() {
        assert(sb.len() == 0);
        1
    } else if i < b.len() {
        assert(sa.len() == 0);
        -1
    } else {
        assert(sa.len() == 0 && sb.len() == 0);
        0
    }
}

proof fn lemma_seq_order_antisym(a: Seq<u8>, b: Seq<u8>)
    ensures
        seq_order(a, b) == -seq_order(b, a),
        -1 <= seq_order(a, b) <= 1,
    decreases a.len(),
{
    if a.len() > 0 && b.len() > 0 && a[0] == b[0] {
        lemma_seq_order_antisym(a.drop_first(), b.drop_first());
    }
}

proof fn lemma_seq_order_trans(a: Seq<u8>, b: Seq<u8>, c: Seq<u8>)
    requires
        seq_order(a, b) <= 0,
        seq_order(b, c) <= 0,
    ensures
        seq_order(a, c) <= 0,
        seq_order(a, b) < 0 || seq_order(b, c) < 0 ==> seq_order(a, c) < 0,
    decreases a.len(),
{
    if a.len() > 0 && b.len() > 0 && c.len() > 0 && a[0] == b[0] && b[0] == c[0] {
        lemma_seq_order_trans(a.drop_first(), b.drop_first(), c.drop_first());
    }
}

proof fn lemma_qc_order_props(a: MacroQc, b: MacroQc, c: MacroQc)
    ensures
        qc_order(a, b) == -qc_order(b, a),
        qc_order(a, b) <= 0 && qc_order(b, c) <= 0 ==> qc_order(a, c) <= 0,
        qc_order(a, b) <= 0 && qc_order(b, c) < 0 ==> qc_order(a, c) < 0,
        qc_order(a, b) < 0 && qc_order(b, c) <= 0 ==> qc_order(a, c) < 0,
        qc_order(a, a) == 0,
        -1 <= qc_order(a, b) <= 1,
{
    lemma_seq_order_antisym(b.agg.bitmap@, a.agg.bitmap@);
    lemma_seq_order_antisym(a.agg.bitmap@, a.agg.bitmap@);
    if qc_order(a, b) <= 0 && qc_order(b, c) <= 0 {
        if count_set(a.agg.bitmap@) == count_set(b.agg.bitmap@) && count_set(b.agg.bitmap@) == count_set(c.agg.bitmap@) {
            lemma_seq_order_trans(c.agg.bitmap@, b.agg.bitmap@, a.agg.bitmap@);
        }
    }
}

/// The candidate order ranks by signed stake first: a candidate whose whole
/// bitmap has more set bits is strictly greater, whatever the byte layout.
pub proof fn lemma_more_signers_is_greater(a: MacroQc, b: MacroQc)
    requires
        count_set(a.agg.bitmap@) > count_set(b.agg.bitmap@),
    ensures
        qc_order(a, b) == 1,
        qc_order(b, a) == -1,
{
}

/// Signed stake of a bitmap, one vote per set bit.
fn signed_stake_from_bitmap(bitmap: &Vec<u8>) -> (r: u64)
    requires
        bitmap@.len() < 0x2000_0000,
    ensures
        r == count_set(bitmap@),
{
    count_ones(bitmap)
}

fn qc_compare(a: &MacroQc, b: &MacroQc) -> (r: i8)
    requires
        a.agg.bitmap@.len() < 0x2000_0000,
        b.agg.bitmap@.len() < 0x2000_0000,
    ensures
        r as int == qc_order(*a, *b),
{
    let sa = signed_stake_from_bitmap(&a.agg.bitmap);
    let sb = signed_stake_from_bitmap(&b.agg.bitmap);
    if sa < sb {
        -1
    } else if sa > sb {
        1
    } else {
        bytes_order(&b.agg.bitmap, &a.agg.bitmap)
    }
}

/// Pick the canonical `MacroQc` among competing candidates: maximal signed
/// stake (one vote per set bit), ties to the lexicographically smaller
/// bitmap, and among equals the last.
pub fn pick_canonical(candidates: &[MacroQc]) -> (r: Option<MacroQc>)
    requires
        forall|i: int| 0 <= i < candidates@.len() ==> (#[trigger] candidates@[i]).agg.bitmap@.len() < 0x2000_0000,
    ensures
        candidates@.len() == 0 <==> r is None,
        r matches Some(qc) ==> exists|i: int| is_canonical_index(candidates@, i) && qc.same_as(&candidates@[i]),
        r matches Some(qc) ==> forall|j: int| 0 <= j < candidates@.len()
            ==> count_set((#[trigger] candidates@[j]).agg.bitmap@) <= count_set(qc.agg.bitmap@),
        r matches Some(qc) ==> forall|j: int| 0 <= j < candidates@.len()
            && count_set((#[trigger] candidates@[j]).agg.bitmap@) == count_set(qc.agg.bitmap@)
            ==> seq_order(qc.agg.bitmap@, candidates@[j].agg.bitmap@) <= 0,
{
    if candidates.len() == 0 {
        return None;
    }
    let mut best: usize = 0;
    let mut j: usize = 1;
    proof {
        lemma_qc_order_props(candidates@[0], candidates@[0], candidates@[0]);
    }
    while j < candidates.len()
        invariant
            forall|i: int| 0 <= i < candidates@.len() ==> (#[trigger] candidates@[i]).agg.bitmap@.len() < 0x2000_0000,
            1 <= j <= candidates@.len(),
            0 <= best < j,
            forall|k: int| 0 <= k < j ==> qc_order(#[trigger] candidates@[k], candidates@[best as int]) <= 0,
            forall|k: int| best < k < j ==> qc_order(#[trigger] candidates@[k], candidates@[best as int]) < 0,
        decreases candidates@.len() - j,
    {
        let c = qc_compare(&candidates[best], &candidates[j]);
        if c != 1 {
            proof {
                let nb = candidates@[j as int];
                let ob = candidates@[best as int];
                lemma_qc_order_props(ob, nb, ob);
                assert forall|k: int| 0 <= k <= j implies qc_order(#[trigger] candidates@[k], nb) <= 0 by {
                    lemma_qc_order_props(candidates@[k], ob, nb);
                    lemma_qc_order_props(nb, nb, nb);
                }
            }
            best = j;
        } else {
            proof {
                let ob = candidates@[best as int];
                lemma_qc_order_props(ob, candidates@[j as int], ob);
            }
        }
        j = j + 1;
    }
    let r = candidates[best].duplicate();
    assert(is_canonical_index(candidates@, best as int));
    proof {
        assert forall|j: int| 0 <= j < candidates@.len()
            && count_set((#[trigger] candidates@[j]).agg.bitmap@) == count_set(r.agg.bitmap@)
            implies seq_order(r.agg.bitmap@, candidates@[j].agg.bitmap@) <= 0 by {
            assert(qc_order(candidates@[j], candidates@[best as int]) <= 0);
            lemma_seq_order_antisym(r.agg.bitmap@, candidates@[j].agg.bitmap@);
        }
    }
    Some(r)
}

} // verus!
