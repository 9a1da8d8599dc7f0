//! L3 BLS verification helpers.
use vstd::prelude::*;
use crate::bitmap::{spec_bit, test_bit};
use crate::crypto::{bls_aggregate_valid, bls_pk_valid, bls_pubkey_decodes, bls_valid, bls_verify, bls_verify_aggregate, pk_bytes, Dst};
use crate::event::{BlsPartial, SubnetAggregate};
use crate::macro_fin::messages::{checkpoint_message, proposer_message, spec_checkpoint_message, spec_partial_message};
use crate::table::{KeySet, Table};
use crate::types::crypto_types::{BlsPubkey, BlsSig, Hash32};
use crate::types::macros::{MacroCheckpoint, MacroProposal, MacroQc};
use crate::types::primitives::ValidatorId;
use crate::types::validator::{first_index_of, index_in_set, ValidatorEntry, ValidatorSet};

verus! {

/// `id`'s entry (the first with that id) has a decodable key and `sig` verifies
/// under it for `msg` and `dst`.
pub open spec fn signed_by(set: ValidatorSet, id: ValidatorId, dst: Dst, msg: Seq<u8>, sig: BlsSig) -> bool {
    match first_index_of(set.ids(), id) {
        None => false,
        Some(i) => {
            let pk = set.entries@[i].bls_pubkey;
            bls_pk_valid(pk.0@) && bls_valid(pk.0@, dst.bytes(), msg, sig.0@)
        },
    }
}

/// Public key of an entry, when `blst` can decode it.
pub fn pk_from_entry(entry: &ValidatorEntry) -> (r: Option<BlsPubkey>)
    ensures
        r is Some <==> bls_pk_valid(entry.bls_pubkey.0@),
        r matches Some(pk) ==> pk == entry.bls_pubkey,
{
    if bls_pubkey_decodes(&entry.bls_pubkey) {
        Some(entry.bls_pubkey)
    } else {
        None
    }
}

pub fn check_signed(set: &ValidatorSet, id: &ValidatorId, dst: Dst, msg: &Vec<u8>, sig: &BlsSig) -> (r: bool)
    ensures
        r == signed_by(*set, *id, dst, msg@, *sig),
{
    let Some(i) = index_in_set(set, id) else { return false };
    let Some(pk) = pk_from_entry(&set.entries[i]) else { return false };
    bls_verify(&pk, dst.to_vec().as_slice(), msg.as_slice(), sig)
}

/// A validator's partial BLS signature over the macro checkpoint body.
pub fn verify_partial(set: &ValidatorSet, bp: &BlsPartial, checkpoint: &MacroCheckpoint) -> (r: bool)
    ensures
        r == (bp.checkpoint_hash == checkpoint.hash && signed_by(*set, bp.validator, Dst::MacroCheckpoint,
            spec_checkpoint_message(*checkpoint), bp.sig)),
{
    if !bp.checkpoint_hash.same(&checkpoint.hash) {
        return false;
    }
    let msg = checkpoint_message(checkpoint);
    check_signed(set, &bp.validator, Dst::MacroCheckpoint, &msg, &bp.sig)
}

/// A macro proposer's signature over `proposer || checkpoint.hash`. The ECVRF
/// proof a proposal carries is not checked: this library has no ECVRF
/// verifier, so a proposal is accepted on its BLS signature alone, whatever
/// VRF key its proposer registered.
pub fn verify_proposal(set: &ValidatorSet, p: &MacroProposal) -> (r: bool)
    ensures
        r == signed_by(*set, p.proposer, Dst::MacroProposerSig, spec_partial_message(p.proposer, p.checkpoint.hash), p.proposer_sig),
{
    let msg = proposer_message(&p.proposer, &p.checkpoint);
    check_signed(set, &p.proposer, Dst::MacroProposerSig, &msg, &p.proposer_sig)
}

/// Keys of the entries marked in `bitmap`, in set order.
pub open spec fn marked_keys(entries: Seq<ValidatorEntry>, bitmap: Seq<u8>) -> Seq<BlsPubkey>
    decreases entries.len(),
{
    if entries.len() == 0 {
        Seq::empty()
    } else {
        let prev = marked_keys(entries.drop_last(), bitmap);
        if spec_bit(bitmap, entries.len() - 1) {
            prev.push(entries.last().bls_pubkey)
        } else {
            prev
        }
    }
}

/// Every marked entry has a decodable key.
pub open spec fn marked_keys_valid(entries: Seq<ValidatorEntry>, bitmap: Seq<u8>) -> bool {
    forall|i: int| 0 <= i < entries.len() && spec_bit(bitmap, i) ==> bls_pk_valid(#[trigger] entries[i].bls_pubkey.0@)
}

/// Every marked entry has a stored partial on `h` that verifies under its key.
pub open spec fn marked_partials_valid(
    entries: Seq<ValidatorEntry>,
    bitmap: Seq<u8>,
    h: Hash32,
    sigs: Map<(Hash32, ValidatorId), BlsSig>,
    msg: Seq<u8>,
) -> bool {
    forall|i: int|
        0 <= i < entries.len() && spec_bit(bitmap, i) ==> {
            let e = #[trigger] entries[i];
            sigs.contains_key((h, e.id)) && bls_valid(e.bls_pubkey.0@, Dst::MacroCheckpoint.bytes(), msg, sigs[(h, e.id)].0@)
        }
}

pub(crate) fn marked_pubkeys(set: &ValidatorSet, bitmap: &Vec<u8>) -> (r: Option<Vec<BlsPubkey>>)
    ensures
        r is Some <==> marked_keys_valid(set.entries@, bitmap@),
        r matches Some(v) ==> v@ == marked_keys(set.entries@, bitmap@),
{
    let mut pks: Vec<BlsPubkey> = Vec::new();
    let mut i: usize = 0;
    while i < set.entries.len()
        invariant
            0 <= i <= set.entries.len(),
            pks@ == marked_keys(set.entries@.subrange(0, i as int), bitmap@),
            marked_keys_valid(set.entries@.subrange(0, i as int), bitmap@),
        decreases set.entries.len() - i,
    {
        let ghost pre = set.entries@.subrange(0, i as int);
        let ghost next = set.entries@.subrange(0, i + 1);
        assert(next.drop_last() =~= pre);
        if test_bit(bitmap, i) {
            match pk_from_entry(&set.entries[i]) {
                Some(pk) => {
                    pks.push(pk);
                },
                None => {
                    assert(!marked_keys_valid(set.entries@, bitmap@)) by {
                        assert(spec_bit(bitmap@, i as int));
                        assert(set.entries@[i as int] == next[i as int]);
                    }
                    return None;
                },
            }
        }
        assert(spec_bit(bitmap@, i as int) ==> bls_pk_valid(set.entries@[i as int].bls_pubkey.0@));
        assert(next[i as int] == set.entries@[i as int]);
        i = i + 1;
        assert(marked_keys_valid(next, bitmap@)) by {
            assert forall|k: int| 0 <= k < next.len() && spec_bit(bitmap@, k) implies bls_pk_valid(#[trigger] next[k].bls_pubkey.0@) by {
                if k < pre.len() {
                    assert(next[k] == pre[k]);
                    assert(bls_pk_valid(pre[k].bls_pubkey.0@));
                } else {
                    assert(next[k] == set.entries@[k]);
                }
            }
        }
    }
    assert(set.entries@.subrange(0, set.entries@.len() as int) =~= set.entries@);
    Some(pks)
}

/// A subnet aggregate is valid: every marked entry has a decodable key and a
/// stored partial that verifies, at least one entry is marked, and the
/// aggregate verifies under the marked keys.
pub open spec fn subnet_agg_valid(
    set: ValidatorSet,
    agg: SubnetAggregate,
    checkpoint: MacroCheckpoint,
    sigs: Map<(Hash32, ValidatorId), BlsSig>,
) -> bool {
    let msg = spec_checkpoint_message(checkpoint);
    &&& marked_keys_valid(set.entries@, agg.agg.bitmap@)
    &&& marked_partials_valid(set.entries@, agg.agg.bitmap@, agg.checkpoint_hash, sigs, msg)
    &&& marked_keys(set.entries@, agg.agg.bitmap@).len() > 0
    &&& bls_aggregate_valid(pk_bytes(marked_keys(set.entries@, agg.agg.bitmap@)), Dst::MacroCheckpoint.bytes(), msg, agg.agg.sig.0@)
}

/// A subnet aggregate: every marked entry's stored partial verifies, at least
/// one entry is marked, and the aggregate verifies under the marked keys.
pub fn verify_subnet_agg(
    set: &ValidatorSet,
    agg: &SubnetAggregate,
    checkpoint: &MacroCheckpoint,
    partial_sigs: &Table<(Hash32, ValidatorId), BlsSig>,
) -> (r: bool)
    requires
        partial_sigs.wf(),
    ensures
        r == subnet_agg_valid(*set, *agg, *checkpoint, partial_sigs@),
{
    let msg = checkpoint_message(checkpoint);
    let Some(pks) = marked_pubkeys(set, &agg.agg.bitmap) else { return false };
    let mut i: usize = 0;
    while i < set.entries.len()
        invariant
            partial_sigs.wf(),
            msg@ == spec_checkpoint_message(*checkpoint),
            0 <= i <= set.entries.len(),
            marked_partials_valid(set.entries@.subrange(0, i as int), agg.agg.bitmap@, agg.checkpoint_hash, partial_sigs@, msg@),
        decreases set.entries.len() - i,
    {
        let ghost pre = set.entries@.subrange(0, i as int);
        let ghost next = set.entries@.subrange(0, i + 1);
        if test_bit(&agg.agg.bitmap, i) {
            let e = &set.entries[i];
            let ok = match partial_sigs.get(&(agg.checkpoint_hash, e.id)) {
                Some(sig) => bls_verify(&e.bls_pubkey, Dst::MacroCheckpoint.to_vec().as_slice(), msg.as_slice(), &sig),
                None => false,
            };
            if !ok {
                assert(!marked_partials_valid(set.entries@, agg.agg.bitmap@, agg.checkpoint_hash, partial_sigs@, msg@)) by {
                    assert(spec_bit(agg.agg.bitmap@, i as int));
                    assert(set.entries@[i as int] == *e);
                }
                return false;
            }
            assert(partial_sigs@.contains_key((agg.checkpoint_hash, e.id)) && bls_valid(e.bls_pubkey.0@, Dst::MacroCheckpoint.bytes(), msg@, partial_sigs@[(agg.checkpoint_hash, e.id)].0@));
        }
        assert(next[i as int] == set.entries@[i as int]);
        i = i + 1;
        assert(marked_partials_valid(next, agg.agg.bitmap@, agg.checkpoint_hash, partial_sigs@, msg@)) by {
            assert forall|k: int| 0 <= k < next.len() && spec_bit(agg.agg.bitmap@, k) implies ({
                let e = #[trigger] next[k];
                partial_sigs@.contains_key((agg.checkpoint_hash, e.id)) && bls_valid(e.bls_pubkey.0@, Dst::MacroCheckpoint.bytes(), msg@, partial_sigs@[(agg.checkpoint_hash, e.id)].0@)
            }) by {
                if k < pre.len() {
                    assert(next[k] == pre[k]);
                }
            }
        }
    }
    assert(set.entries@.subrange(0, set.entries@.len() as int) =~= set.entries@);
    if pks.len() == 0 {
        return false;
    }
    bls_verify_aggregate(&pks, Dst::MacroCheckpoint.to_vec().as_slice(), msg.as_slice(), &agg.agg.sig)
}

/// A `MacroQc` is valid for a checkpoint: its hash names the checkpoint, every
/// marked entry has a decodable key, at least one is marked, and the aggregate verifies.
pub open spec fn spec_qc_valid(set: ValidatorSet, qc: MacroQc, checkpoint: MacroCheckpoint) -> bool {
    &&& qc.checkpoint_hash == checkpoint.hash
    &&& marked_keys_valid(set.entries@, qc.agg.bitmap@)
    &&& marked_keys(set.entries@, qc.agg.bitmap@).len() > 0
    &&& bls_aggregate_valid(pk_bytes(marked_keys(set.entries@, qc.agg.bitmap@)), Dst::MacroCheckpoint.bytes(),
        spec_checkpoint_message(checkpoint), qc.agg.sig.0@)
}

/// Verify a `MacroQc` aggregate signature against the checkpoint body.
pub fn verify_macro_qc(set: &ValidatorSet, qc: &MacroQc, checkpoint: &MacroCheckpoint) -> (r: bool)
    ensures
        r == spec_qc_valid(*set, *qc, *checkpoint),
{
    if !qc.checkpoint_hash.same(&checkpoint.hash) {
        return false;
    }
    let msg = checkpoint_message(checkpoint);
    let Some(pks) = marked_pubkeys(set, &qc.agg.bitmap) else { return false };
    if pks.len() == 0 {
        return false;
    }
    bls_verify_aggregate(&pks, Dst::MacroCheckpoint.to_vec().as_slice(), msg.as_slice(), &qc.agg.sig)
}

/// Decodable keys of the entries in `signers`, in set order.
pub open spec fn signer_keys(entries: Seq<ValidatorEntry>, signers: Set<ValidatorId>) -> Seq<BlsPubkey>
    decreases entries.len(),
{
    if entries.len() == 0 {
        Seq::empty()
    } else {
        let prev = signer_keys(entries.drop_last(), signers);
        let e = entries.last();
        if signers.contains(e.id) && bls_pk_valid(e.bls_pubkey.0@) {
            prev.push(e.bls_pubkey)
        } else {
            prev
        }
    }
}

/// Keys of the signers, in validator-set order (undecodable keys skipped).
pub fn pubkeys_for_signers(set: &ValidatorSet, signers: &KeySet<ValidatorId>) -> (r: Vec<BlsPubkey>)
    ensures
        r@ == signer_keys(set.entries@, signers@),
{
    let mut pks: Vec<BlsPubkey> = Vec::new();
    let mut i: usize = 0;
    while i < set.entries.len()
        invariant
            0 <= i <= set.entries.len(),
            pks@ == signer_keys(set.entries@.subrange(0, i as int), signers@),
        decreases set.entries.len() - i,
    {
        assert(set.entries@.subrange(0, i + 1).drop_last() =~= set.entries@.subrange(0, i as int));
        let e = &set.entries[i];
        if signers.contains(&e.id) {
            if let Some(pk) = pk_from_entry(e) {
                pks.push(pk);
            }
        }
        i = i + 1;
    }
    assert(set.entries@.subrange(0, set.entries@.len() as int) =~= set.entries@);
    pks
}

} // verus!
