use blst::min_pk::SecretKey;
use consensus::crypto::Dst;
use consensus::macro_fin::checkpoint::build;
use consensus::macro_fin::messages::{partial_message, vote_message};
use consensus::macro_fin::vote_book::{VoteBook, VoteRecord};
use consensus::slashing::double_vote::{scan_for_double_vote, verify as verify_double_vote};
use consensus::slashing::equivocation::{detect, verify as verify_equivocation};
use consensus::slashing::evidence::verify_evidence;
use consensus::slashing::surround::{scan_for_surround, surrounds, verify as verify_surround};
use consensus::types::crypto_types::{BlsPubkey, BlsSig, Hash32, VrfProof, VrfPubkey};
use consensus::types::macros::{MacroCheckpoint, MacroProposal};
use consensus::types::primitives::{Epoch, Height, StakeWeight, ValidatorId};
use consensus::types::slashing::{DoubleVote, SlashEvidence, SurroundVote};
use consensus::types::validator::{ValidatorEntry, ValidatorIdentity, ValidatorSet};

fn key() -> SecretKey {
    SecretKey::key_gen(&[7; 32], &[]).unwrap()
}

fn offender() -> ValidatorId {
    ValidatorId([1; 32])
}

fn set() -> ValidatorSet {
    ValidatorSet {
        epoch: Epoch(0),
        entries: vec![ValidatorEntry {
            id: offender(),
            bls_pubkey: BlsPubkey(key().sk_to_pk().to_bytes()),
            vrf_pubkey: VrfPubkey([0; 32]),
            stake: StakeWeight(1),
            identity: ValidatorIdentity { asn: None, cloud: None, region: None },
        }],
        total_stake: StakeWeight(1),
    }
}

fn sign(dst: Dst, msg: &[u8]) -> BlsSig {
    BlsSig(key().sign(msg, &dst.to_vec(), &[]).to_bytes())
}

fn vote(source: u64, target: u64, cp: u8) -> VoteRecord {
    let mut r = VoteRecord { source: Epoch(source), target: Epoch(target), checkpoint: Hash32([cp; 32]), sig: BlsSig([0; 96]) };
    r.sig = sign(Dst::MacroVote, &vote_message(&r));
    r
}

#[test]
fn double_vote_is_found_and_verifies() {
    let mut book = VoteBook::new();
    book.record(offender(), vote(2, 3, 0xAA));
    book.record(ValidatorId([9; 32]), vote(2, 3, 0xCC));
    assert_eq!(scan_for_double_vote(&book, &offender()).unwrap(), None);
    book.record(offender(), vote(2, 3, 0xBB));
    let ev = scan_for_double_vote(&book, &offender()).unwrap().expect("double vote");
    assert_eq!(ev.validator, offender());
    assert_eq!(ev.target, Epoch(3));
    assert_ne!(ev.a_checkpoint, ev.b_checkpoint);
    verify_double_vote(&ev, &set()).expect("signed by the offender");
    assert!(verify_evidence(&SlashEvidence::DoubleVote(ev), &set()).is_ok());
}

#[test]
fn same_checkpoint_twice_is_no_double_vote() {
    let mut book = VoteBook::default();
    book.record(offender(), vote(2, 3, 0xAA));
    book.record(offender(), vote(2, 3, 0xAA));
    assert_eq!(scan_for_double_vote(&book, &offender()).unwrap(), None);
    let forged = DoubleVote {
        validator: offender(),
        target: Epoch(3),
        a_checkpoint: Hash32([0xAA; 32]),
        a_sig: vote(2, 3, 0xAA).sig,
        b_checkpoint: Hash32([0xBB; 32]),
        b_sig: BlsSig([0xEE; 96]),
    };
    assert!(verify_double_vote(&forged, &set()).is_err());
}

#[test]
fn surround_relation_is_strict() {
    assert!(surrounds(1, 5, 2, 3));
    assert!(!surrounds(1, 5, 1, 3));
    assert!(!surrounds(1, 5, 2, 5));
    assert!(!surrounds(2, 3, 1, 5));
}

#[test]
fn surround_vote_is_found_and_verifies() {
    let mut book = VoteBook::new();
    book.record(offender(), vote(1, 5, 0xAA));
    assert_eq!(scan_for_surround(&book, &offender()).unwrap(), None);
    book.record(offender(), vote(2, 3, 0xBB));
    let ev = scan_for_surround(&book, &offender()).unwrap().expect("surround");
    assert_eq!(ev.validator, offender());
    assert!(surrounds(ev.a_source.0, ev.a_target.0, ev.b_source.0, ev.b_target.0));
    verify_surround(&ev, &set()).expect("signed by the offender");
    assert!(verify_evidence(&SlashEvidence::Surround(ev), &set()).is_ok());
}

#[test]
fn surround_evidence_without_relation_is_rejected() {
    let outer = vote(2, 3, 0xAA);
    let inner = vote(1, 5, 0xBB);
    let ev = SurroundVote {
        validator: offender(),
        a_source: outer.source,
        a_target: outer.target,
        a_sig: outer.sig,
        a_checkpoint: outer.checkpoint,
        b_source: inner.source,
        b_target: inner.target,
        b_sig: inner.sig,
        b_checkpoint: inner.checkpoint,
    };
    assert!(verify_surround(&ev, &set()).is_err());
}

fn signed_proposal(cp: MacroCheckpoint) -> MacroProposal {
    MacroProposal {
        checkpoint: cp,
        proposer: offender(),
        vrf_proof: VrfProof([0; 80]),
        proposer_sig: sign(Dst::MacroProposerSig, &partial_message(&offender(), &cp.hash)),
    }
}

#[test]
fn macro_equivocation_needs_two_signed_checkpoints_at_one_height() {
    let a = build(Height(4), Epoch(0), Hash32([1; 32]), Hash32([2; 32]));
    let b = build(Height(4), Epoch(0), Hash32([1; 32]), Hash32([3; 32]));
    let ev = detect(offender(), signed_proposal(a), signed_proposal(b));
    verify_equivocation(&ev, &set()).expect("valid evidence");
    assert!(verify_evidence(&SlashEvidence::MacroEquivocation(ev), &set()).is_ok());
    let same = detect(offender(), signed_proposal(a), signed_proposal(a));
    assert!(verify_equivocation(&same, &set()).is_err());
    let c = build(Height(5), Epoch(0), Hash32([1; 32]), Hash32([3; 32]));
    let apart = detect(offender(), signed_proposal(a), signed_proposal(c));
    assert!(verify_equivocation(&apart, &set()).is_err());
}
