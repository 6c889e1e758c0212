//! The verifying client: feeds server responses through the trust-state
//! ratchet and the accumulator range verifier, and only then releases data
//! to callers.  No partial success is observable: on any failure the
//! trusted state is left untouched.
//!
//! The trusted state has exactly one logical owner and advances only
//! through the `&mut self` methods here, so Rust's exclusive borrows give
//! the single-writer discipline; the remote calls themselves happen in the
//! transport around the library and hold no access to the client while
//! suspended.

use vstd::prelude::*;

use crate::accumulator::{range_check_spec, verify_range, AccumulatorRangeProof, hashes_of};
use crate::crypto::{sha3_of, HashValue};
use crate::errors::VerifyError;
use crate::ledger::{
    transaction_leaf_hash, EpochChangeProof, SignedLedgerCommitment, TransactionCommitment,
    TransactionCommitmentModel,
};
use crate::trusted_state::{ratchet, ratchet_spec, state_epoch, TrustedState, TrustedStateModel};
use crate::waypoint::Waypoint;

verus! {

/// Whether each returned transaction body hashes to its proven
/// commitment's transaction hash.
pub open spec fn bodies_match(
    bodies: Seq<Seq<u8>>,
    cs: Seq<TransactionCommitmentModel>,
) -> bool {
    forall|i: int| 0 <= i < bodies.len() ==> sha3_of(#[trigger] bodies[i]) == cs[i].transaction_hash
}

/// What one verified transaction query decides: ratchet first, then check
/// the range proof against the newly trusted root, then check every
/// transaction body against its commitment.  The resulting trusted state
/// is released only if every step passes.
pub open spec fn txn_check_spec(
    current: TrustedStateModel,
    elems: Seq<crate::ledger::SignedLedgerCommitmentModel>,
    cs: Seq<TransactionCommitmentModel>,
    p: crate::accumulator::AccumulatorRangeProofModel,
    first_version: u64,
    bodies: Seq<Seq<u8>>,
) -> Result<TrustedStateModel, VerifyError> {
    match ratchet_spec(current, elems) {
        Err(e) => Err(e),
        Ok(s) => match s {
            TrustedStateModel::Anchored(_) => Err(VerifyError::ProofVerificationFailed),
            TrustedStateModel::Verified(_es, lc) => {
                match range_check_spec(
                    lc.root,
                    first_version,
                    cs.map_values(|c: TransactionCommitmentModel| transaction_leaf_hash(c)),
                    p,
                ) {
                    Err(e) => Err(e),
                    Ok(_) => {
                        if bodies.len() != cs.len() {
                            Err(VerifyError::DecodeError)
                        } else if !bodies_match(bodies, cs) {
                            Err(VerifyError::TransactionHashMismatch)
                        } else {
                            Ok(s)
                        }
                    },
                }
            },
        },
    }
}

/// A verifying client instance: the remote endpoint it talks to, its
/// current trusted state, and the most recent epoch-change commitment it
/// accepted (none until the first ratchet that advanced an epoch).
#[derive(Debug)]
pub struct LibraVerifClient {
    /// The remote endpoint the surrounding transport talks to.
    pub url: String,
    /// The latest verified chain state.
    pub trusted_state: TrustedState,
    /// The most recent epoch-change commitment accepted, if any.
    pub latest_epoch_change_li: Option<SignedLedgerCommitment>,
}

/// The epoch a trust state value is at.
fn current_epoch(ts: &TrustedState) -> (e: u64)
    ensures
        e == state_epoch(ts@),
{
    match ts {
        TrustedState::Anchored(wp) => wp.epoch,
        TrustedState::Verified(_, lc) => lc.epoch,
    }
}

impl LibraVerifClient {
    /// Constructs a new client instance, trusting nothing beyond the given
    /// waypoint.
    pub fn new(url: String, waypoint: Waypoint) -> (r: Self)
        ensures
            r.trusted_state@ == TrustedStateModel::Anchored(waypoint@),
            r.latest_epoch_change_li is None,
            r.url@ == url@,
    {
        LibraVerifClient {
            url,
            trusted_state: TrustedState::Anchored(waypoint),
            latest_epoch_change_li: None,
        }
    }

    /// The latest verified chain state.
    pub fn trusted_state(&self) -> (r: &TrustedState)
        ensures
            r@ == self.trusted_state@,
    {
        &self.trusted_state
    }

    /// The most recent epoch-change commitment accepted, if any.
    pub fn latest_epoch_change_li(&self) -> (r: &Option<SignedLedgerCommitment>)
        ensures
            *r == self.latest_epoch_change_li,
    {
        &self.latest_epoch_change_li
    }

    /// Ratchets the trusted state through a state-proof response.
    ///
    /// On success the trusted state is replaced by what the ratchet
    /// decided, and — when the epoch advanced — the proof's last
    /// commitment is remembered as the latest epoch change.  On failure
    /// the client is untouched.
    pub fn verify_state_proof(&mut self, proof: &EpochChangeProof) -> (r: Result<(), VerifyError>)
        requires
            old(self).trusted_state@.wf(),
        ensures
            final(self).url@ == old(self).url@,
            r matches Ok(_) ==> {
                &&& ratchet_spec(old(self).trusted_state@, proof@) == Ok::<
                    TrustedStateModel,
                    VerifyError,
                >(final(self).trusted_state@)
                &&& final(self).trusted_state@.wf()
                &&& (state_epoch(final(self).trusted_state@) > state_epoch(
                    old(self).trusted_state@,
                ) ==> (final(self).latest_epoch_change_li matches Some(l) && l@ == proof@.last()))
                &&& (state_epoch(final(self).trusted_state@) == state_epoch(
                    old(self).trusted_state@,
                ) ==> final(self).latest_epoch_change_li == old(self).latest_epoch_change_li)
            },
            r matches Err(e) ==> ratchet_spec(old(self).trusted_state@, proof@) == Err::<
                TrustedStateModel,
                VerifyError,
            >(e) && *final(self) == *old(self),
    {
        let s = match ratchet(&self.trusted_state, proof) {
            Err(e) => {
                return Err(e);
            },
            Ok(s) => s,
        };
        let e_old = current_epoch(&self.trusted_state);
        let e_new = current_epoch(&s);
        self.trusted_state = s;
        if e_new > e_old {
            let last = proof.commitments[proof.commitments.len() - 1].clone();
            proof {
                assert(last@ == proof@.last());
            }
            self.latest_epoch_change_li = Some(last);
        }
        Ok(())
    }

    /// Runs one verified transaction query: ratchet the trusted
    /// state through the epoch-change proof, verify the accumulator range
    /// proof against the newly trusted root, and check each returned
    /// transaction body against its proven commitment.  All or nothing:
    /// the client is updated only when every step passes.
    pub fn verify_transactions_with_proof(
        &mut self,
        epoch_change_proof: &EpochChangeProof,
        txn_commitments: &Vec<TransactionCommitment>,
        range_proof: &AccumulatorRangeProof,
        first_version: u64,
        txn_bodies: &Vec<Vec<u8>>,
    ) -> (r: Result<(), VerifyError>)
        requires
            old(self).trusted_state@.wf(),
        ensures
            final(self).url@ == old(self).url@,
            r matches Ok(_) ==> txn_check_spec(
                old(self).trusted_state@,
                epoch_change_proof@,
                txn_commitments@.map_values(|c: TransactionCommitment| c@),
                range_proof@,
                first_version,
                txn_bodies@.map_values(|b: Vec<u8>| b@),
            ) == Ok::<TrustedStateModel, VerifyError>(final(self).trusted_state@)
                && final(self).trusted_state@.wf(),
            r matches Err(e) ==> txn_check_spec(
                old(self).trusted_state@,
                epoch_change_proof@,
                txn_commitments@.map_values(|c: TransactionCommitment| c@),
                range_proof@,
                first_version,
                txn_bodies@.map_values(|b: Vec<u8>| b@),
            ) == Err::<TrustedStateModel, VerifyError>(e) && *final(self) == *old(self),
    {
        let ghost csm = txn_commitments@.map_values(|c: TransactionCommitment| c@);
        let ghost bodiesm = txn_bodies@.map_values(|b: Vec<u8>| b@);
        // step 1: ratchet (without committing the new state yet)
        let s = match ratchet(&self.trusted_state, epoch_change_proof) {
            Err(e) => {
                return Err(e);
            },
            Ok(s) => s,
        };
        // step 2: the range proof must verify against the new trusted root
        let root: &HashValue = match &s {
            TrustedState::Anchored(_) => {
                proof {
                    assert(false);
                }
                return Err(VerifyError::ProofVerificationFailed);
            },
            TrustedState::Verified(_, lc) => &lc.accumulator_root_hash,
        };
        let mut leaf_hashes: Vec<HashValue> = Vec::new();
        let mut i: usize = 0;
        while i < txn_commitments.len()
            invariant
                i <= txn_commitments@.len(),
                csm == txn_commitments@.map_values(|c: TransactionCommitment| c@),
                leaf_hashes@.len() == i,
                forall|j: int|
                    0 <= j < i ==> #[trigger] leaf_hashes@[j]@ == transaction_leaf_hash(csm[j]),
            decreases txn_commitments@.len() - i,
        {
            leaf_hashes.push(txn_commitments[i].leaf_hash());
            i = i + 1;
        }
        proof {
            assert(hashes_of(leaf_hashes@) =~= csm.map_values(
                |c: TransactionCommitmentModel| transaction_leaf_hash(c),
            ));
        }
        match verify_range(root, first_version, &leaf_hashes, range_proof) {
            Err(e) => {
                return Err(e);
            },
            Ok(_) => {},
        }
        // step 3: each body must hash to its proven commitment
        if txn_bodies.len() != txn_commitments.len() {
            return Err(VerifyError::DecodeError);
        }
        let mut k: usize = 0;
        while k < txn_bodies.len()
            invariant
                k <= txn_bodies@.len(),
                bodiesm == txn_bodies@.map_values(|b: Vec<u8>| b@),
                csm == txn_commitments@.map_values(|c: TransactionCommitment| c@),
                bodiesm.len() == csm.len(),
                *self == *old(self),
                ratchet_spec(old(self).trusted_state@, epoch_change_proof@) == Ok::<
                    TrustedStateModel,
                    VerifyError,
                >(s@),
                (s@ matches TrustedStateModel::Verified(es2, lc2) && range_check_spec(
                    lc2.root,
                    first_version,
                    csm.map_values(|c: TransactionCommitmentModel| transaction_leaf_hash(c)),
                    range_proof@,
                ) == Ok::<(), VerifyError>(())),
                forall|j: int|
                    0 <= j < k ==> sha3_of(#[trigger] bodiesm[j]) == csm[j].transaction_hash,
            decreases txn_bodies@.len() - k,
        {
            let h = HashValue::digest_of(txn_bodies[k].as_slice());
            if !h.equals(&txn_commitments[k].transaction_hash) {
                proof {
                    assert(sha3_of(bodiesm[k as int]) != csm[k as int].transaction_hash);
                    assert(!bodies_match(bodiesm, csm));
                }
                return Err(VerifyError::TransactionHashMismatch);
            }
            k = k + 1;
        }
        proof {
            assert(bodies_match(bodiesm, csm));
        }
        // step 4: commit, all checks passed
        let e_old = current_epoch(&self.trusted_state);
        let e_new = current_epoch(&s);
        self.trusted_state = s;
        if e_new > e_old {
            let last = epoch_change_proof.commitments[epoch_change_proof.commitments.len()
                - 1].clone();
            self.latest_epoch_change_li = Some(last);
        }
        Ok(())
    }
}

} // verus!
