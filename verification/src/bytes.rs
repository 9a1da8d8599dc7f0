//! Byte-string comparisons and fixed-width integer encodings.
use vstd::prelude::*;

verus! {

broadcast use vstd::array::group_array_axioms;

/// Strict lexicographic order on byte strings of equal length.
pub open spec fn lex_lt(a: Seq<u8>, b: Seq<u8>) -> bool {
    &&& a.len() == b.len()
    &&& exists|k: int|
        #![trigger a[k], b[k]]
        0 <= k < a.len() && a[k] < b[k] && (forall|j: int| 0 <= j < k ==> a[j] == b[j])
}

/// Two 32-byte arrays are equal.
pub fn eq32(a: &[u8; 32], b: &[u8; 32]) -> (r: bool)
    ensures
        r == (*a == *b),
{
    let mut i: usize = 0;
    while i < 32
        invariant
            0 <= i <= 32,
            forall|j: int| 0 <= j < i ==> a@[j] == b@[j],
        decreases 32 - i,
    {
        if a[i] != b[i] {
            assert(a@[i as int] != b@[i as int]);
            return false;
        }
        i = i + 1;
    }
    assert(*a =~= *b);
    true
}

/// Lexicographic `a < b` on 32-byte arrays.
pub fn lt32(a: &[u8; 32], b: &[u8; 32]) -> (r: bool)
    ensures
        r == lex_lt(a@, b@),
{
    let mut i: usize = 0;
    while i < 32
        invariant
            0 <= i <= 32,
            a@.len() == 32,
            b@.len() == 32,
            forall|j: int| 0 <= j < i ==> a@[j] == b@[j],
        decreases 32 - i,
    {
        if a[i] < b[i] {
            assert(a@[i as int] < b@[i as int]);
            return true;
        }
        if a[i] > b[i] {
            assert forall|k: int|
                0 <= k < a@.len() && a@[k] < b@[k] implies !(forall|j: int|
                0 <= j < k ==> a@[j] == b@[j]) by {
                if k < i {
                } else if k == i {
                } else {
                    assert(a@[i as int] != b@[i as int]);
                }
            }
            return false;
        }
        i = i + 1;
    }
    false
}

} // verus!

verus! {

/// Element-wise copy of a vector of `Copy` values.
pub fn copy_vec<T: Copy>(v: &Vec<T>) -> (r: Vec<T>)
    ensures
        r@ == v@,
{
    let mut r: Vec<T> = Vec::new();
    let mut i: usize = 0;
    while i < v.len()
        invariant
            0 <= i <= v.len(),
            r@ == v@.subrange(0, i as int),
        decreases v.len() - i,
    {
        r.push(v[i]);
        i = i + 1;
        assert(r@ =~= v@.subrange(0, i as int));
    }
    assert(v@.subrange(0, v.len() as int) =~= v@);
    r
}

} // verus!

verus! {

/// `lex_lt` is irreflexive.
pub proof fn lemma_lex_lt_irrefl(a: Seq<u8>)
    ensures
        !lex_lt(a, a),
{
}

/// If `a < b` fails and `b > c` then... precisely: `a < c` and `c < b` give `a < b`,
/// so `!(a < b)` and `c < b` give `!(a < c)`.
pub proof fn lemma_lex_lt_trans_not(a: Seq<u8>, c: Seq<u8>, b: Seq<u8>)
    requires
        !lex_lt(a, b),
        lex_lt(c, b),
        a.len() == c.len(),
    ensures
        !lex_lt(a, c),
{
    if lex_lt(a, c) {
        let k1 = choose|k: int| #![trigger a[k], c[k]] 0 <= k < a.len() && a[k] < c[k] && (forall|j: int| 0 <= j < k ==> a[j] == c[j]);
        let k2 = choose|k: int| #![trigger c[k], b[k]] 0 <= k < c.len() && c[k] < b[k] && (forall|j: int| 0 <= j < k ==> c[j] == b[j]);
        let k = if k1 < k2 { k1 } else { k2 };
        assert(a[k] < b[k]);
        assert(forall|j: int| 0 <= j < k ==> a[j] == b[j]);
        assert(lex_lt(a, b));
    }
}

/// The first position at or after `i` where `a` and `b` differ.
proof fn lemma_first_diff(a: Seq<u8>, b: Seq<u8>, i: int) -> (k: int)
    requires
        a.len() == b.len(),
        0 <= i <= a.len(),
        forall|j: int| 0 <= j < i ==> a[j] == b[j],
        exists|m: int| i <= m < a.len() && a[m] != b[m],
    ensures
        i <= k < a.len(),
        a[k] != b[k],
        forall|j: int| 0 <= j < k ==> a[j] == b[j],
    decreases a.len() - i,
{
    if a[i] != b[i] {
        i
    } else {
        lemma_first_diff(a, b, i + 1)
    }
}

/// `lex_lt` is total on distinct strings of equal length.
pub proof fn lemma_lex_lt_total(a: Seq<u8>, b: Seq<u8>)
    requires
        a.len() == b.len(),
        a != b,
    ensures
        lex_lt(a, b) || lex_lt(b, a),
{
    if forall|m: int| 0 <= m < a.len() ==> a[m] == b[m] {
        assert(a =~= b);
    }
    let k = lemma_first_diff(a, b, 0);
    if a[k] < b[k] {
        assert(lex_lt(a, b));
    } else {
        assert(forall|j: int| 0 <= j < k ==> b[j] == a[j]);
        assert(lex_lt(b, a));
    }
}

/// `lex_lt` is transitive.
pub proof fn lemma_lex_lt_trans(a: Seq<u8>, b: Seq<u8>, c: Seq<u8>)
    requires
        lex_lt(a, b),
        lex_lt(b, c),
    ensures
        lex_lt(a, c),
{
    if !lex_lt(a, c) {
        lemma_lex_lt_trans_not(a, b, c);
    }
}

} // verus!
