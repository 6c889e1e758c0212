//! The client's single source of truth: either anchored at a waypoint and
//! not yet ratcheted, or anchored at a fully verified validator set and
//! ledger commitment.  Trust advances only through `ratchet`, and only
//! forward.

use vstd::prelude::*;

use crate::epoch_state::{EpochState, EpochStateModel};
use crate::errors::VerifyError;
use crate::ledger::{
    commitment_digest, EpochChangeProof, LedgerCommitment, LedgerCommitmentModel,
    SignedLedgerCommitmentModel,
};
use crate::quorum::{quorum_check_spec, verify_quorum};
use crate::waypoint::{Waypoint, WaypointModel};

verus! {

/// The mathematical model of the client's trust state.
#[verifier::ext_equal]
pub enum TrustedStateModel {
    /// Anchored at a waypoint, not yet ratcheted.
    Anchored(WaypointModel),
    /// Anchored at a fully verified validator set and ledger commitment.
    Verified(EpochStateModel, LedgerCommitmentModel),
}

/// The client's current belief.  Replaced wholesale on each successful
/// ratchet, never mutated in place.
#[derive(Debug, PartialEq, Eq)]
pub enum TrustedState {
    /// Anchored at a waypoint, not yet ratcheted.
    Anchored(Waypoint),
    /// Anchored at a fully verified validator set and ledger commitment.
    Verified(EpochState, LedgerCommitment),
}

impl View for TrustedState {
    type V = TrustedStateModel;

    open spec fn view(&self) -> TrustedStateModel {
        match self {
            TrustedState::Anchored(wp) => TrustedStateModel::Anchored(wp@),
            TrustedState::Verified(es, lc) => TrustedStateModel::Verified(es@, lc@),
        }
    }
}

impl Clone for TrustedState {
    fn clone(&self) -> (r: Self)
        ensures
            r@ == self@,
    {
        match self {
            TrustedState::Anchored(wp) => TrustedState::Anchored(wp.clone()),
            TrustedState::Verified(es, lc) => TrustedState::Verified(es.clone(), lc.clone()),
        }
    }
}

impl TrustedStateModel {
    /// Well-formedness: a verified state holds a well-formed validator set
    /// whose epoch either matches the commitment or — after an
    /// epoch-terminal commitment — immediately follows it.
    pub open spec fn wf(self) -> bool {
        match self {
            TrustedStateModel::Anchored(_) => true,
            TrustedStateModel::Verified(es, lc) => es.wf() && (es.epoch == lc.epoch || es.epoch
                == lc.epoch + 1),
        }
    }
}

/// The epoch a trust state is at.
pub open spec fn state_epoch(ts: TrustedStateModel) -> u64 {
    match ts {
        TrustedStateModel::Anchored(wp) => wp.epoch,
        TrustedStateModel::Verified(_, lc) => lc.epoch,
    }
}

/// The ledger version a trust state is at; a bare waypoint is at version
/// zero.
pub open spec fn state_version(ts: TrustedStateModel) -> u64 {
    match ts {
        TrustedStateModel::Anchored(_) => 0,
        TrustedStateModel::Verified(_, lc) => lc.version,
    }
}

/// Lexicographic order on (epoch, version) pairs.
pub open spec fn pair_le(e1: u64, v1: u64, e2: u64, v2: u64) -> bool {
    e1 < e2 || (e1 == e2 && v1 <= v2)
}

/// Structural validity of one chain element: a successor validator set, if
/// present, is well-formed and belongs to the following epoch.
pub open spec fn chain_elem_wf(s: SignedLedgerCommitmentModel) -> bool {
    match s.commitment.next_epoch_state {
        Some(nes) => nes.wf() && nes.epoch == s.commitment.epoch + 1,
        None => true,
    }
}

/// Structural validity of a whole chain.
pub open spec fn chain_wf(elems: Seq<SignedLedgerCommitmentModel>) -> bool {
    forall|i: int| 0 <= i < elems.len() ==> chain_elem_wf(#[trigger] elems[i])
}

/// The validator set in force once a commitment is accepted: its successor
/// set if it carries one, else the set that verified it.
pub open spec fn state_after(
    s: SignedLedgerCommitmentModel,
    verifier_set: EpochStateModel,
) -> EpochStateModel {
    match s.commitment.next_epoch_state {
        Some(nes) => nes,
        None => verifier_set,
    }
}

/// Walks the chain after an accepted element `prev`: each hop must advance
/// the epoch by exactly one, `prev` must carry the successor set, and the
/// next element must reach quorum under it.  Returns the validator set in
/// force after the last element.
pub open spec fn verify_rest(
    prev: SignedLedgerCommitmentModel,
    fallback: EpochStateModel,
    elems: Seq<SignedLedgerCommitmentModel>,
) -> Result<EpochStateModel, VerifyError>
    decreases elems.len(),
{
    if elems.len() == 0 {
        Ok(fallback)
    } else {
        let next = elems[0];
        if next.commitment.epoch != prev.commitment.epoch + 1 {
            Err(VerifyError::EpochGap)
        } else {
            match prev.commitment.next_epoch_state {
                None => Err(VerifyError::MissingNextEpochState),
                Some(nes) => match quorum_check_spec(nes, next) {
                    Err(e) => Err(e),
                    Ok(_) => verify_rest(next, state_after(next, nes), elems.drop_first()),
                },
            }
        }
    }
}

/// Resolves a finished walk: on success, advance to the last commitment
/// under the resulting validator set — unless the chain only re-proves a
/// state no newer than the current one, in which case the current state is
/// returned unchanged.
pub open spec fn finish_ratchet(
    current: TrustedStateModel,
    elems: Seq<SignedLedgerCommitmentModel>,
    walked: Result<EpochStateModel, VerifyError>,
) -> Result<TrustedStateModel, VerifyError> {
    match walked {
        Err(e) => Err(e),
        Ok(final_es) => {
            let last = elems.last();
            match current {
                TrustedStateModel::Anchored(_) => Ok(
                    TrustedStateModel::Verified(final_es, last.commitment),
                ),
                TrustedStateModel::Verified(es, lc) => {
                    if pair_le(last.commitment.epoch, last.commitment.version, lc.epoch, lc.version) {
                        Ok(TrustedStateModel::Verified(es, lc))
                    } else {
                        Ok(TrustedStateModel::Verified(final_es, last.commitment))
                    }
                },
            }
        },
    }
}

/// What ratcheting decides, for every input.
///
/// An empty or structurally invalid chain is malformed.  From a waypoint,
/// the first commitment must match the anchor's epoch and hash bit for bit
/// and must carry a successor validator set.  From a verified state, the
/// first commitment must be at the trusted epoch and reach quorum under
/// the trusted validator set.  The remaining chain is walked hop by hop.
pub open spec fn ratchet_spec(
    current: TrustedStateModel,
    elems: Seq<SignedLedgerCommitmentModel>,
) -> Result<TrustedStateModel, VerifyError> {
    if elems.len() == 0 || !chain_wf(elems) {
        Err(VerifyError::DecodeError)
    } else {
        let first = elems[0];
        match current {
            TrustedStateModel::Anchored(wp) => {
                if first.commitment.epoch != wp.epoch || commitment_digest(first.commitment)
                    != wp.hash {
                    Err(VerifyError::WaypointMismatch)
                } else {
                    match first.commitment.next_epoch_state {
                        None => Err(VerifyError::MissingNextEpochState),
                        Some(nes0) => finish_ratchet(
                            current,
                            elems,
                            verify_rest(first, nes0, elems.drop_first()),
                        ),
                    }
                }
            },
            TrustedStateModel::Verified(es, _lc) => {
                if first.commitment.epoch != es.epoch {
                    Err(VerifyError::EpochGap)
                } else {
                    match quorum_check_spec(es, first) {
                        Err(e) => Err(e),
                        Ok(_) => finish_ratchet(
                            current,
                            elems,
                            verify_rest(first, state_after(first, es), elems.drop_first()),
                        ),
                    }
                }
            },
        }
    }
}

/// A successful walk lands on a well-formed validator set for the last
/// element's epoch (or the one after it), and the last element's epoch is
/// the starting epoch advanced once per hop.
pub proof fn lemma_verify_rest_props(
    prev: SignedLedgerCommitmentModel,
    fallback: EpochStateModel,
    elems: Seq<SignedLedgerCommitmentModel>,
)
    requires
        chain_wf(elems),
        chain_elem_wf(prev),
        fallback.wf(),
        fallback.epoch == prev.commitment.epoch || fallback.epoch == prev.commitment.epoch + 1,
    ensures
        verify_rest(prev, fallback, elems) matches Ok(f) ==> {
            let last = if elems.len() == 0 {
                prev
            } else {
                elems.last()
            };
            &&& f.wf()
            &&& (f.epoch == last.commitment.epoch || f.epoch == last.commitment.epoch + 1)
            &&& last.commitment.epoch == prev.commitment.epoch + elems.len()
        },
    decreases elems.len(),
{
    if elems.len() > 0 {
        match verify_rest(prev, fallback, elems) {
            Err(_) => {},
            Ok(_) => {
                let next = elems[0];
                let nes = prev.commitment.next_epoch_state.unwrap();
                let rest = elems.drop_first();
                assert(chain_wf(rest)) by {
                    assert(forall|i: int| 0 <= i < rest.len() ==> rest[i] == elems[i + 1]);
                }
                assert(chain_elem_wf(elems[0]));
                lemma_verify_rest_props(next, state_after(next, nes), rest);
                if rest.len() > 0 {
                    assert(elems.last() == rest.last());
                }
            },
        }
    }
}

/// Monotonicity of one ratchet step: a successful ratchet never moves the
/// (epoch, version) pair backwards, and yields a well-formed state.
pub proof fn lemma_ratchet_step(current: TrustedStateModel, elems: Seq<SignedLedgerCommitmentModel>)
    requires
        current.wf(),
        ratchet_spec(current, elems) is Ok,
    ensures
        ratchet_spec(current, elems) matches Ok(s) ==> s.wf() && pair_le(
            state_epoch(current),
            state_version(current),
            state_epoch(s),
            state_version(s),
        ),
{
    let first = elems[0];
    let rest = elems.drop_first();
    assert(chain_wf(elems));
    assert(chain_elem_wf(first));
    if rest.len() > 0 {
        assert(elems.last() == rest.last());
    }
    assert(chain_wf(rest)) by {
        assert(forall|i: int| 0 <= i < rest.len() ==> rest[i] == elems[i + 1]);
    }
    match current {
        TrustedStateModel::Anchored(wp) => {
            let nes0 = first.commitment.next_epoch_state.unwrap();
            lemma_verify_rest_props(first, nes0, rest);
        },
        TrustedStateModel::Verified(es, lc) => {
            lemma_verify_rest_props(first, state_after(first, es), rest);
        },
    }
}

/// Monotonicity across any run of successful ratchets: the (epoch,
/// version) pair never decreases from the first state to the last.
pub proof fn lemma_ratchet_sequence_monotonic(
    states: Seq<TrustedStateModel>,
    proofs: Seq<Seq<SignedLedgerCommitmentModel>>,
)
    requires
        states.len() == proofs.len() + 1,
        states[0].wf(),
        forall|i: int|
            0 <= i < proofs.len() ==> ratchet_spec(#[trigger] states[i], proofs[i]) == Ok::<
                TrustedStateModel,
                VerifyError,
            >(states[i + 1]),
    ensures
        states.last().wf(),
        pair_le(
            state_epoch(states[0]),
            state_version(states[0]),
            state_epoch(states.last()),
            state_version(states.last()),
        ),
    decreases proofs.len(),
{
    if proofs.len() == 0 {
        assert(states.last() == states[0]);
    } else {
        lemma_ratchet_step(states[0], proofs[0]);
        let states2 = states.drop_first();
        let proofs2 = proofs.drop_first();
        assert(forall|i: int| 0 <= i < states2.len() ==> states2[i] == states[i + 1]);
        assert(forall|i: int| 0 <= i < proofs2.len() ==> proofs2[i] == proofs[i + 1]);
        lemma_ratchet_sequence_monotonic(states2, proofs2);
        assert(states.last() == states2.last());
    }
}

/// Waypoint binding: ratcheting from an anchored waypoint succeeds only if
/// the proof's first commitment carries the waypoint's epoch and hashes
/// exactly to the waypoint's commitment hash.
pub proof fn lemma_waypoint_binding(wp: WaypointModel, elems: Seq<SignedLedgerCommitmentModel>)
    requires
        ratchet_spec(TrustedStateModel::Anchored(wp), elems) is Ok,
    ensures
        elems.len() > 0,
        elems[0].commitment.epoch == wp.epoch,
        commitment_digest(elems[0].commitment) == wp.hash,
{
}

/// Idempotence: a successful ratchet whose proof only re-proves an (epoch,
/// version) no newer than the trusted one returns the unchanged state, not
/// an error.
pub proof fn lemma_ratchet_idempotent(
    es: EpochStateModel,
    lc: LedgerCommitmentModel,
    elems: Seq<SignedLedgerCommitmentModel>,
)
    requires
        ratchet_spec(TrustedStateModel::Verified(es, lc), elems) is Ok,
        pair_le(elems.last().commitment.epoch, elems.last().commitment.version, lc.epoch, lc.version),
    ensures
        ratchet_spec(TrustedStateModel::Verified(es, lc), elems) == Ok::<
            TrustedStateModel,
            VerifyError,
        >(TrustedStateModel::Verified(es, lc)),
{
}

/// Checks the structural validity of every chain element.
fn check_chain_wf(elems: &Vec<crate::ledger::SignedLedgerCommitment>) -> (r: bool)
    ensures
        r == chain_wf(elems@.map_values(|s: crate::ledger::SignedLedgerCommitment| s@)),
{
    let ghost ms = elems@.map_values(|s: crate::ledger::SignedLedgerCommitment| s@);
    let mut i: usize = 0;
    while i < elems.len()
        invariant
            i <= elems@.len(),
            ms == elems@.map_values(|s: crate::ledger::SignedLedgerCommitment| s@),
            ms.len() == elems@.len(),
            forall|j: int| 0 <= j < i ==> chain_elem_wf(#[trigger] ms[j]),
        decreases elems@.len() - i,
    {
        let ok = match &elems[i].commitment.next_epoch_state {
            None => true,
            Some(nes) => elems[i].commitment.epoch < u64::MAX && nes.epoch
                == elems[i].commitment.epoch + 1 && nes.is_wf(),
        };
        if !ok {
            proof {
                assert(!chain_elem_wf(ms[i as int]));
            }
            return false;
        }
        proof {
            assert(chain_elem_wf(ms[i as int]));
        }
        i = i + 1;
    }
    true
}

/// Walks the chain from its second element on, hop by hop, returning the
/// validator set in force after the last element.
fn walk_chain<'a>(
    elems: &'a Vec<crate::ledger::SignedLedgerCommitment>,
    fb0: &'a EpochState,
) -> (r: Result<&'a EpochState, VerifyError>)
    requires
        elems@.len() >= 1,
        chain_wf(elems@.map_values(|s: crate::ledger::SignedLedgerCommitment| s@)),
    ensures
        ({
            let ms = elems@.map_values(|s: crate::ledger::SignedLedgerCommitment| s@);
            match r {
                Ok(f) => verify_rest(ms[0], fb0@, ms.skip(1)) == Ok::<
                    EpochStateModel,
                    VerifyError,
                >(f@),
                Err(e) => verify_rest(ms[0], fb0@, ms.skip(1)) == Err::<
                    EpochStateModel,
                    VerifyError,
                >(e),
            }
        }),
{
    let ghost ms = elems@.map_values(|s: crate::ledger::SignedLedgerCommitment| s@);
    let ghost fb0m = fb0@;
    let mut i: usize = 0;
    let mut fb: &EpochState = fb0;
    while i < elems.len() - 1
        invariant
            i < elems@.len(),
            ms == elems@.map_values(|s: crate::ledger::SignedLedgerCommitment| s@),
            ms.len() == elems@.len(),
            chain_wf(ms),
            verify_rest(ms[i as int], fb@, ms.skip(i + 1)) == verify_rest(
                ms[0],
                fb0m,
                ms.skip(1),
            ),
        decreases elems@.len() - i,
    {
        let ghost lsk = ms.skip(i + 1);
        proof {
            assert(lsk[0] == ms[i + 1]);
            assert(lsk.drop_first() =~= ms.skip(i + 2));
        }
        let prev = &elems[i];
        let next = &elems[i + 1];
        if !(prev.commitment.epoch < u64::MAX && next.commitment.epoch == prev.commitment.epoch
            + 1) {
            proof {
                assert(verify_rest(ms[i as int], fb@, lsk) == Err::<
                    EpochStateModel,
                    VerifyError,
                >(VerifyError::EpochGap));
            }
            return Err(VerifyError::EpochGap);
        }
        match &prev.commitment.next_epoch_state {
            None => {
                proof {
                    assert(verify_rest(ms[i as int], fb@, lsk) == Err::<
                        EpochStateModel,
                        VerifyError,
                    >(VerifyError::MissingNextEpochState));
                }
                return Err(VerifyError::MissingNextEpochState);
            },
            Some(nes) => {
                proof {
                    assert(chain_elem_wf(ms[i as int]));
                    assert(nes@.wf());
                }
                match verify_quorum(nes, next) {
                    Err(e) => {
                        proof {
                            assert(verify_rest(ms[i as int], fb@, lsk) == Err::<
                                EpochStateModel,
                                VerifyError,
                            >(e));
                        }
                        return Err(e);
                    },
                    Ok(_) => {},
                }
                let newfb: &EpochState = match &next.commitment.next_epoch_state {
                    Some(n2) => n2,
                    None => nes,
                };
                proof {
                    assert(newfb@ == state_after(ms[i + 1], nes@));
                    assert(verify_rest(ms[i as int], fb@, lsk) == verify_rest(
                        ms[i + 1],
                        newfb@,
                        ms.skip(i + 2),
                    ));
                }
                fb = newfb;
            },
        }
        i = i + 1;
    }
    proof {
        assert(i + 1 == ms.len());
        assert(ms.skip(i + 1).len() == 0);
        assert(verify_rest(ms[i as int], fb@, ms.skip(i + 1)) == Ok::<
            EpochStateModel,
            VerifyError,
        >(fb@));
    }
    Ok(fb)
}

/// Ratchets the trusted state through an epoch-change proof.
///
/// Returns the advanced (or unchanged) state exactly as `ratchet_spec`
/// decides; on any failure the current state is untouched and the error
/// names the first check that failed.
#[verifier::rlimit(100)]
pub fn ratchet(current: &TrustedState, proof: &EpochChangeProof) -> (r: Result<
    TrustedState,
    VerifyError,
>)
    requires
        current@.wf(),
    ensures
        r matches Ok(s) ==> ratchet_spec(current@, proof@) == Ok::<
            TrustedStateModel,
            VerifyError,
        >(s@) && s@.wf(),
        r matches Err(e) ==> ratchet_spec(current@, proof@) == Err::<
            TrustedStateModel,
            VerifyError,
        >(e),
{
    let ghost ms = proof@;
    let elems = &proof.commitments;
    if elems.len() == 0 {
        return Err(VerifyError::DecodeError);
    }
    if !check_chain_wf(elems) {
        return Err(VerifyError::DecodeError);
    }
    let first = &elems[0];
    // check the first element against the current trust
    let fb0: &EpochState = match current {
        TrustedState::Anchored(wp) => {
            let d = first.commitment.digest();
            if first.commitment.epoch != wp.epoch || !d.equals(&wp.commitment_hash) {
                return Err(VerifyError::WaypointMismatch);
            }
            match &first.commitment.next_epoch_state {
                None => {
                    return Err(VerifyError::MissingNextEpochState);
                },
                Some(nes0) => nes0,
            }
        },
        TrustedState::Verified(es, _lc) => {
            if first.commitment.epoch != es.epoch {
                return Err(VerifyError::EpochGap);
            }
            match verify_quorum(es, first) {
                Err(e) => {
                    return Err(e);
                },
                Ok(_) => {
                    match &first.commitment.next_epoch_state {
                        Some(nes0) => nes0,
                        None => es,
                    }
                },
            }
        },
    };
    let ghost fb0m = fb0@;
    proof {
        assert(ms.drop_first() =~= ms.skip(1));
        assert(ratchet_spec(current@, ms) == finish_ratchet(
            current@,
            ms,
            verify_rest(ms[0], fb0m, ms.skip(1)),
        ));
    }
    // walk the remaining chain, then resolve the final state
    let fb: &EpochState = match walk_chain(elems, fb0) {
        Err(e) => {
            return Err(e);
        },
        Ok(f) => f,
    };
    let last = &elems[elems.len() - 1];
    proof {
        assert(ms.last() == ms[ms.len() - 1]);
    }
    match current {
        TrustedState::Anchored(_) => {
            let s = TrustedState::Verified(fb.clone(), last.commitment.clone());
            proof {
                assert(s@ == TrustedStateModel::Verified(fb@, ms.last().commitment));
                lemma_ratchet_step(current@, ms);
            }
            Ok(s)
        },
        TrustedState::Verified(es, lc) => {
            if last.commitment.epoch < lc.epoch || (last.commitment.epoch == lc.epoch
                && last.commitment.version <= lc.version) {
                let s = current.clone();
                Ok(s)
            } else {
                let s = TrustedState::Verified(fb.clone(), last.commitment.clone());
                proof {
                    assert(s@ == TrustedStateModel::Verified(fb@, ms.last().commitment));
                    lemma_ratchet_step(current@, ms);
                }
                Ok(s)
            }
        },
    }
}

} // verus!
