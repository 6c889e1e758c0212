//! Quorum verification, trust-state ratcheting, and the end-to-end
//! verified transaction query.

use ed25519_dalek::Signer;
use libra_verif::accumulator::{accumulator_root, gen_range_proof};
use libra_verif::client::LibraVerifClient;
use libra_verif::crypto::HashValue;
use libra_verif::epoch_state::{EpochState, ValidatorInfo};
use libra_verif::errors::VerifyError;
use libra_verif::ledger::{
    EpochChangeProof, LedgerCommitment, SignatureEntry, SignedLedgerCommitment,
    TransactionCommitment,
};
use libra_verif::quorum::verify_quorum;
use libra_verif::trusted_state::{ratchet, TrustedState};
use libra_verif::waypoint::Waypoint;

fn zero_hash() -> HashValue {
    HashValue::from_vec(vec![0u8; 32]).unwrap()
}

fn signing_key(seed: u8) -> ed25519_dalek::SigningKey {
    ed25519_dalek::SigningKey::from_bytes(&[seed; 32])
}

fn validator(seed: u8, power: u64) -> ValidatorInfo {
    ValidatorInfo {
        address: vec![seed; 16],
        public_key: signing_key(seed).verifying_key().to_bytes().to_vec(),
        voting_power: power,
    }
}

fn epoch_seeds(epoch: u64) -> Vec<u8> {
    (1..=4).map(|k| (epoch * 4 + k) as u8).collect()
}

/// Four validators of 25 voting power each; quorum needs more than 66.
fn set_for(epoch: u64) -> EpochState {
    let vs = epoch_seeds(epoch).into_iter().map(|s| validator(s, 25)).collect();
    EpochState::new(epoch, vs).unwrap()
}

fn commitment(
    epoch: u64,
    version: u64,
    root: HashValue,
    next: Option<EpochState>,
) -> LedgerCommitment {
    LedgerCommitment {
        epoch,
        version,
        accumulator_root_hash: root,
        timestamp: 1000 * (version + 1),
        next_epoch_state: next,
    }
}

fn sign_commitment(lc: &LedgerCommitment, seeds: &[u8]) -> SignedLedgerCommitment {
    let digest = lc.digest();
    let msg = digest.as_bytes().clone();
    let signatures = seeds
        .iter()
        .map(|&s| SignatureEntry {
            address: vec![s; 16],
            signature: signing_key(s).sign(&msg).to_bytes().to_vec(),
        })
        .collect();
    SignedLedgerCommitment { commitment: lc.clone(), signatures }
}

/// A chain of commitments from epoch 0 up to `top`, one hop per epoch,
/// each hop signed by three of the four validators of its source epoch.
/// The first element is trusted through the waypoint and needs no
/// signatures; the last carries the given root.
fn chain_to(top: u64, last_root: HashValue) -> (Waypoint, EpochChangeProof) {
    let mut commitments = Vec::new();
    for e in 0..=top {
        let root = if e == top { last_root.clone() } else { zero_hash() };
        let next = if e == top { None } else { Some(set_for(e + 1)) };
        let lc = commitment(e, 10 * e, root, next);
        let signers: Vec<u8> = if e == 0 {
            Vec::new()
        } else {
            epoch_seeds(e)[0..3].to_vec()
        };
        commitments.push(sign_commitment(&lc, &signers));
    }
    let waypoint = Waypoint::for_commitment(&commitments[0].commitment);
    (waypoint, EpochChangeProof { commitments })
}

fn txn_body(i: u8) -> Vec<u8> {
    vec![0x74, 0x78, i]
}

fn txn_commitment(i: u8) -> TransactionCommitment {
    TransactionCommitment {
        transaction_hash: HashValue::digest_of(&txn_body(i)),
        state_root_hash: zero_hash(),
        event_root_hash: zero_hash(),
        gas_used: 7 * i as u64,
        status: 0,
    }
}

#[test]
fn quorum_accepts_three_of_four() {
    let es = set_for(1);
    let lc = commitment(1, 5, zero_hash(), None);
    let slc = sign_commitment(&lc, &epoch_seeds(1)[0..3]);
    assert_eq!(verify_quorum(&es, &slc), Ok(()));
}

#[test]
fn quorum_rejects_half_the_power() {
    let es = set_for(1);
    let lc = commitment(1, 5, zero_hash(), None);
    let slc = sign_commitment(&lc, &epoch_seeds(1)[0..2]);
    assert_eq!(verify_quorum(&es, &slc), Err(VerifyError::QuorumNotMet));
}

#[test]
fn quorum_rejects_exactly_two_thirds() {
    // three validators of power 1; two signatures carry exactly 2/3
    let vs = vec![validator(51, 1), validator(52, 1), validator(53, 1)];
    let es = EpochState::new(9, vs).unwrap();
    let lc = commitment(9, 5, zero_hash(), None);
    let slc = sign_commitment(&lc, &[51, 52]);
    assert_eq!(verify_quorum(&es, &slc), Err(VerifyError::QuorumNotMet));
    let all = sign_commitment(&lc, &[51, 52, 53]);
    assert_eq!(verify_quorum(&es, &all), Ok(()));
}

#[test]
fn quorum_rejects_unknown_signer_outright() {
    let es = set_for(1);
    let lc = commitment(1, 5, zero_hash(), None);
    let mut seeds = epoch_seeds(1)[0..3].to_vec();
    seeds.push(99);
    let slc = sign_commitment(&lc, &seeds);
    assert_eq!(verify_quorum(&es, &slc), Err(VerifyError::UnknownSigner));
}

#[test]
fn quorum_does_not_count_invalid_signatures() {
    let es = set_for(1);
    let lc = commitment(1, 5, zero_hash(), None);
    let mut slc = sign_commitment(&lc, &epoch_seeds(1)[0..3]);
    // the third signature is over different bytes: a known signer whose
    // signature does not verify contributes nothing
    let other = commitment(1, 6, zero_hash(), None);
    let od = other.digest();
    slc.signatures[2].signature =
        signing_key(epoch_seeds(1)[2]).sign(od.as_bytes()).to_bytes().to_vec();
    assert_eq!(verify_quorum(&es, &slc), Err(VerifyError::QuorumNotMet));
}

#[test]
fn ratchet_four_hops_from_waypoint() {
    let (wp, proof) = chain_to(4, zero_hash());
    let state = TrustedState::Anchored(wp);
    let new_state = ratchet(&state, &proof).unwrap();
    match &new_state {
        TrustedState::Verified(es, lc) => {
            assert_eq!(lc.epoch, 4);
            assert_eq!(lc.version, 40);
            assert_eq!(es.epoch, 4);
        },
        _ => panic!("expected a verified state"),
    }
}

#[test]
fn ratchet_rejects_empty_proof() {
    let (wp, _) = chain_to(1, zero_hash());
    let state = TrustedState::Anchored(wp);
    let empty = EpochChangeProof { commitments: Vec::new() };
    assert_eq!(ratchet(&state, &empty).unwrap_err(), VerifyError::DecodeError);
}

#[test]
fn ratchet_rejects_wrong_waypoint() {
    let (_, proof) = chain_to(2, zero_hash());
    let other = commitment(0, 99, zero_hash(), None);
    let state = TrustedState::Anchored(Waypoint::for_commitment(&other));
    assert_eq!(ratchet(&state, &proof).unwrap_err(), VerifyError::WaypointMismatch);
    let wrong_epoch = Waypoint::new(3, proof.commitments[0].commitment.digest());
    let state2 = TrustedState::Anchored(wrong_epoch);
    assert_eq!(ratchet(&state2, &proof).unwrap_err(), VerifyError::WaypointMismatch);
}

#[test]
fn ratchet_rejects_skipped_epoch() {
    let (wp, mut proof) = chain_to(3, zero_hash());
    proof.commitments.remove(2);
    let state = TrustedState::Anchored(wp);
    assert_eq!(ratchet(&state, &proof).unwrap_err(), VerifyError::EpochGap);
}

#[test]
fn ratchet_rejects_missing_next_epoch_state() {
    let (wp, mut proof) = chain_to(2, zero_hash());
    // strip the successor set from the middle element and re-sign it
    let lc = commitment(1, 10, zero_hash(), None);
    proof.commitments[1] = sign_commitment(&lc, &epoch_seeds(1)[0..3]);
    let state = TrustedState::Anchored(wp);
    assert_eq!(
        ratchet(&state, &proof).unwrap_err(),
        VerifyError::MissingNextEpochState
    );
}

#[test]
fn ratchet_rejects_underpowered_hop() {
    let (wp, mut proof) = chain_to(2, zero_hash());
    // re-sign the middle hop with only half the voting power
    let lc = proof.commitments[1].commitment.clone();
    proof.commitments[1] = sign_commitment(&lc, &epoch_seeds(1)[0..2]);
    let state = TrustedState::Anchored(wp);
    assert_eq!(ratchet(&state, &proof).unwrap_err(), VerifyError::QuorumNotMet);
}

#[test]
fn ratchet_rejects_invalid_epoch_state_totals() {
    let (_wp, mut proof) = chain_to(1, zero_hash());
    // corrupt the cached total voting power of the carried successor set
    let mut lc = proof.commitments[0].commitment.clone();
    if let Some(es) = &mut lc.next_epoch_state {
        es.total_voting_power += 1;
    }
    proof.commitments[0] = SignedLedgerCommitment { commitment: lc, signatures: Vec::new() };
    // the waypoint must match the altered first commitment so that the
    // structural check is what fails
    let state = TrustedState::Anchored(Waypoint::for_commitment(
        &proof.commitments[0].commitment,
    ));
    assert_eq!(ratchet(&state, &proof).unwrap_err(), VerifyError::DecodeError);
}

#[test]
fn ratchet_is_monotonic_across_steps() {
    let (wp, proof1) = chain_to(1, zero_hash());
    let state0 = TrustedState::Anchored(wp);
    let state1 = ratchet(&state0, &proof1).unwrap();
    let (e1, v1) = match &state1 {
        TrustedState::Verified(_, lc) => (lc.epoch, lc.version),
        _ => panic!(),
    };
    // a further commitment within epoch 1, signed by epoch 1's validators
    let lc = commitment(1, 25, zero_hash(), None);
    let slc = sign_commitment(&lc, &epoch_seeds(1)[0..3]);
    let proof2 = EpochChangeProof { commitments: vec![slc] };
    let state2 = ratchet(&state1, &proof2).unwrap();
    let (e2, v2) = match &state2 {
        TrustedState::Verified(_, lc) => (lc.epoch, lc.version),
        _ => panic!(),
    };
    assert!(e2 > e1 || (e2 == e1 && v2 >= v1));
    assert_eq!((e2, v2), (1, 25));
}

#[test]
fn ratchet_reproving_current_state_is_a_no_op() {
    let (wp, proof1) = chain_to(1, zero_hash());
    let state0 = TrustedState::Anchored(wp);
    let state1 = ratchet(&state0, &proof1).unwrap();
    // a proof that re-proves exactly the trusted (epoch, version)
    let lc = commitment(1, 10, zero_hash(), None);
    let slc = sign_commitment(&lc, &epoch_seeds(1)[0..3]);
    let reproof = EpochChangeProof { commitments: vec![slc] };
    let state2 = ratchet(&state1, &reproof).unwrap();
    assert_eq!(state2, state1);
    // and applying it twice more changes nothing either
    let state3 = ratchet(&state2, &reproof).unwrap();
    assert_eq!(state3, state1);
}

#[test]
fn end_to_end_waypoint_to_verified_transactions() {
    // a ledger of 15 transactions committed by the epoch-4 root
    let commitments: Vec<TransactionCommitment> = (0..15).map(txn_commitment).collect();
    let leaves: Vec<HashValue> = commitments.iter().map(|c| c.leaf_hash()).collect();
    let root = accumulator_root(&leaves);
    let (wp, proof) = chain_to(4, root.clone());
    let mut client = LibraVerifClient::new("http://localhost:8080".to_string(), wp);
    // transactions [10, 15) with their range proof
    let range_proof = gen_range_proof(&leaves, 10, 5);
    let sub_commitments: Vec<TransactionCommitment> = (10..15).map(txn_commitment).collect();
    let sub_bodies: Vec<Vec<u8>> = (10..15).map(txn_body).collect();
    let res = client.verify_transactions_with_proof(
        &proof,
        &sub_commitments,
        &range_proof,
        10,
        &sub_bodies,
    );
    assert_eq!(res, Ok(()));
    match client.trusted_state() {
        TrustedState::Verified(es, lc) => {
            assert_eq!(es.epoch, 4);
            assert_eq!(lc.epoch, 4);
            assert_eq!(lc.accumulator_root_hash, root);
        },
        _ => panic!("expected a verified state"),
    }
    assert!(client.latest_epoch_change_li().is_some());
}

#[test]
fn tampered_transaction_body_is_isolated_from_proof_validity() {
    let commitments: Vec<TransactionCommitment> = (0..15).map(txn_commitment).collect();
    let leaves: Vec<HashValue> = commitments.iter().map(|c| c.leaf_hash()).collect();
    let root = accumulator_root(&leaves);
    let range_proof = gen_range_proof(&leaves, 10, 5);
    let sub_commitments: Vec<TransactionCommitment> = (10..15).map(txn_commitment).collect();
    let mut sub_bodies: Vec<Vec<u8>> = (10..15).map(txn_body).collect();
    // the same query succeeds untampered: the structural checks pass
    let (wp, proof) = chain_to(4, root.clone());
    let mut client = LibraVerifClient::new("u".to_string(), wp);
    assert_eq!(
        client.verify_transactions_with_proof(
            &proof,
            &sub_commitments,
            &range_proof,
            10,
            &sub_bodies,
        ),
        Ok(())
    );
    // altering one byte of one returned body trips only the content check
    sub_bodies[2][1] ^= 0x01;
    let (wp2, proof2) = chain_to(4, root.clone());
    let mut client2 = LibraVerifClient::new("u".to_string(), wp2);
    assert_eq!(
        client2.verify_transactions_with_proof(
            &proof2,
            &sub_commitments,
            &range_proof,
            10,
            &sub_bodies,
        ),
        Err(VerifyError::TransactionHashMismatch)
    );
    // all or nothing: the failed call left the client's trust untouched
    match client2.trusted_state() {
        TrustedState::Anchored(_) => {},
        _ => panic!("trusted state must be unchanged on failure"),
    }
}

#[test]
fn client_state_proof_updates_latest_epoch_change() {
    let (wp, proof) = chain_to(2, zero_hash());
    let mut client = LibraVerifClient::new("u".to_string(), wp);
    assert!(client.latest_epoch_change_li().is_none());
    assert_eq!(client.verify_state_proof(&proof), Ok(()));
    let latest = client.latest_epoch_change_li().as_ref().unwrap();
    assert_eq!(latest.commitment.epoch, 2);
    match client.trusted_state() {
        TrustedState::Verified(es, lc) => {
            assert_eq!(es.epoch, 2);
            assert_eq!(lc.version, 20);
        },
        _ => panic!(),
    }
}

#[test]
fn epoch_state_constructor_validates() {
    assert!(EpochState::new(0, Vec::new()).is_none());
    let dup = vec![validator(7, 10), validator(7, 10)];
    assert!(EpochState::new(0, dup).is_none());
    let overflow = vec![validator(1, u64::MAX), validator(2, 1)];
    assert!(EpochState::new(0, overflow).is_none());
    let fine = vec![validator(1, u64::MAX - 1), validator(2, 1)];
    assert_eq!(EpochState::new(0, fine).unwrap().total_voting_power, u64::MAX);
}
