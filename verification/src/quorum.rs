//! Signature-quorum verification: whether a signed ledger commitment
//! carries enough validator voting power, under a given epoch's validator
//! set, to be accepted.

use vstd::prelude::*;

use crate::crypto::{ed25519_valid, ed25519_verify};
use crate::epoch_state::{
    has_validator, sum_voting_power, EpochState, EpochStateModel, ValidatorModel,
};
use crate::errors::VerifyError;
use crate::ledger::{
    commitment_digest, SignatureEntry, SignatureEntryModel, SignedLedgerCommitment,
    SignedLedgerCommitmentModel,
};

verus! {

/// The signature the entry list carries for an address: the first entry
/// with that address, if any.
pub open spec fn sig_for(sigs: Seq<SignatureEntryModel>, addr: Seq<u8>) -> Option<Seq<u8>>
    decreases sigs.len(),
{
    if sigs.len() == 0 {
        None
    } else if sigs[0].address == addr {
        Some(sigs[0].signature)
    } else {
        sig_for(sigs.drop_first(), addr)
    }
}

/// Whether a validator contributed a cryptographically valid signature
/// over `msg`.
pub open spec fn validator_signed(
    v: ValidatorModel,
    sigs: Seq<SignatureEntryModel>,
    msg: Seq<u8>,
) -> bool {
    match sig_for(sigs, v.address) {
        Some(s) => ed25519_valid(v.public_key, msg, s),
        None => false,
    }
}

/// The voting power of the validators that contributed a valid signature
/// over `msg`.  Each validator is counted once, whatever the entry list
/// holds.
pub open spec fn signed_voting_power(
    vs: Seq<ValidatorModel>,
    sigs: Seq<SignatureEntryModel>,
    msg: Seq<u8>,
) -> int
    decreases vs.len(),
{
    if vs.len() == 0 {
        0
    } else {
        signed_voting_power(vs.drop_last(), sigs, msg) + if validator_signed(
            vs.last(),
            sigs,
            msg,
        ) {
            vs.last().voting_power as int
        } else {
            0
        }
    }
}

/// Whether every signature entry names a validator of the set.
pub open spec fn all_signers_known(
    vs: Seq<ValidatorModel>,
    sigs: Seq<SignatureEntryModel>,
) -> bool {
    forall|j: int| 0 <= j < sigs.len() ==> has_validator(vs, (#[trigger] sigs[j]).address)
}

/// Whether the valid signatures carry a byzantine-fault-tolerant
/// supermajority: strictly more than two thirds of the total voting power.
pub open spec fn quorum_reached(es: EpochStateModel, slc: SignedLedgerCommitmentModel) -> bool {
    3 * signed_voting_power(es.validators, slc.signatures, commitment_digest(slc.commitment)) > 2
        * (es.total_voting_power as int)
}

/// What quorum verification decides: a signature from outside the set
/// aborts the whole check; otherwise the valid signatures must reach the
/// supermajority threshold.  Absent validators are permitted.
#[verifier::opaque]
pub open spec fn quorum_check_spec(
    es: EpochStateModel,
    slc: SignedLedgerCommitmentModel,
) -> Result<(), VerifyError> {
    if !all_signers_known(es.validators, slc.signatures) {
        Err(VerifyError::UnknownSigner)
    } else if !quorum_reached(es, slc) {
        Err(VerifyError::QuorumNotMet)
    } else {
        Ok(())
    }
}

/// The signed power of a prefix grows by the next validator's contribution.
pub proof fn lemma_signed_power_step(
    vs: Seq<ValidatorModel>,
    sigs: Seq<SignatureEntryModel>,
    msg: Seq<u8>,
    i: int,
)
    requires
        0 <= i < vs.len(),
    ensures
        signed_voting_power(vs.subrange(0, i + 1), sigs, msg) == signed_voting_power(
            vs.subrange(0, i),
            sigs,
            msg,
        ) + if validator_signed(vs[i], sigs, msg) {
            vs[i].voting_power as int
        } else {
            0
        },
{
    let longer = vs.subrange(0, i + 1);
    assert(longer.drop_last() =~= vs.subrange(0, i));
    assert(longer.last() == vs[i]);
}

/// The sum over a prefix never exceeds the sum over the whole sequence.
pub proof fn lemma_sum_prefix_le(vs: Seq<ValidatorModel>, k: int)
    requires
        0 <= k <= vs.len(),
    ensures
        sum_voting_power(vs.subrange(0, k)) <= sum_voting_power(vs),
    decreases vs.len() - k,
{
    if k < vs.len() {
        crate::epoch_state::lemma_sum_voting_power_prefix(vs, k);
        lemma_sum_prefix_le(vs, k + 1);
    } else {
        assert(vs.subrange(0, k) =~= vs);
    }
}

/// `sig_for` finds the first matching entry, or nothing matches.
pub proof fn lemma_sig_for(sigs: Seq<SignatureEntryModel>, addr: Seq<u8>)
    ensures
        sig_for(sigs, addr) is None ==> forall|j: int|
            0 <= j < sigs.len() ==> (#[trigger] sigs[j]).address != addr,
        sig_for(sigs, addr) matches Some(s) ==> exists|j: int|
            {
                &&& 0 <= j < sigs.len()
                &&& (#[trigger] sigs[j]).address == addr
                &&& sigs[j].signature == s
                &&& forall|k: int| 0 <= k < j ==> (#[trigger] sigs[k]).address != addr
            },
    decreases sigs.len(),
{
    if sigs.len() > 0 && sigs[0].address != addr {
        lemma_sig_for(sigs.drop_first(), addr);
        assert(forall|j: int| 0 < j < sigs.len() ==> sigs[j] == sigs.drop_first()[j - 1]);
        match sig_for(sigs.drop_first(), addr) {
            Some(s) => {
                let j0 = choose|j: int|
                    {
                        &&& 0 <= j < sigs.drop_first().len()
                        &&& (#[trigger] sigs.drop_first()[j]).address == addr
                        &&& sigs.drop_first()[j].signature == s
                        &&& forall|k: int|
                            0 <= k < j ==> (#[trigger] sigs.drop_first()[k]).address != addr
                    };
                assert(sigs[j0 + 1].address == addr && sigs[j0 + 1].signature == s);
                assert(forall|k: int| 0 <= k < j0 + 1 ==> (#[trigger] sigs[k]).address != addr);
            },
            None => {},
        }
    }
}

/// Finds the first signature entry for an address.
fn find_signature<'a>(sigs: &'a Vec<SignatureEntry>, addr: &Vec<u8>) -> (r: Option<&'a Vec<u8>>)
    ensures
        match r {
            Some(s) => sig_for(sigs@.map_values(|e: SignatureEntry| e@), addr@) == Some(s@),
            None => sig_for(sigs@.map_values(|e: SignatureEntry| e@), addr@) is None,
        },
{
    let ghost ms = sigs@.map_values(|e: SignatureEntry| e@);
    proof {
        lemma_sig_for(ms, addr@);
    }
    let mut j: usize = 0;
    while j < sigs.len()
        invariant
            j <= sigs.len(),
            ms == sigs@.map_values(|e: SignatureEntry| e@),
            forall|k: int| 0 <= k < j ==> (#[trigger] ms[k]).address != addr@,
        decreases sigs.len() - j,
    {
        let hit = &sigs[j].address == addr;
        proof {
            if hit {
                assert(sigs@[j as int].address@ =~= addr@);
                assert(ms[j as int].address == addr@);
            } else {
                if ms[j as int].address == addr@ {
                    assert(sigs@[j as int].address@ =~= addr@);
                }
                assert(ms[j as int].address != addr@);
            }
        }
        if hit {
            proof {
                lemma_sig_for(ms, addr@);
                if sig_for(ms, addr@) is None {
                    assert(false);
                }
            }
            return Some(&sigs[j].signature);
        }
        j = j + 1;
    }
    None
}

/// Checks that a signed ledger commitment reaches quorum under the given
/// epoch state.
///
/// Recomputes the canonical signing digest, rejects any signature from
/// outside the validator set, and sums the voting power of the validators
/// whose signature verifies; success needs strictly more than two thirds of
/// the total voting power.
pub fn verify_quorum(es: &EpochState, slc: &SignedLedgerCommitment) -> (r: Result<
    (),
    VerifyError,
>)
    requires
        es@.wf(),
    ensures
        r == quorum_check_spec(es@, slc@),
{
    let ghost vs = es@.validators;
    let ghost sgs = slc@.signatures;
    let digest = slc.commitment.digest();
    let msg = digest.as_bytes();
    // every signature must name a validator of the set
    let mut i: usize = 0;
    while i < slc.signatures.len()
        invariant
            i <= slc.signatures.len(),
            vs == es@.validators,
            sgs == slc@.signatures,
            sgs.len() == slc.signatures@.len(),
            forall|j: int| 0 <= j < i ==> has_validator(vs, (#[trigger] sgs[j]).address),
        decreases slc.signatures.len() - i,
    {
        match es.lookup_validator(&slc.signatures[i].address) {
            None => {
                proof {
                    reveal(quorum_check_spec);
                    assert(!has_validator(vs, sgs[i as int].address));
                    assert(!all_signers_known(vs, sgs));
                }
                return Err(VerifyError::UnknownSigner);
            },
            Some(_) => {
                proof {
                    assert(has_validator(vs, sgs[i as int].address));
                }
            },
        }
        i = i + 1;
    }
    proof {
        assert(all_signers_known(vs, sgs));
    }
    // sum the voting power of the validators with a valid signature
    let ghost msg_s = commitment_digest(slc@.commitment);
    let mut acc: u64 = 0;
    let mut k: usize = 0;
    while k < es.validators.len()
        invariant
            k <= es.validators.len(),
            vs == es@.validators,
            sgs == slc@.signatures,
            es@.wf(),
            vs.len() == es.validators@.len(),
            msg@ == msg_s,
            acc == signed_voting_power(vs.subrange(0, k as int), sgs, msg_s),
            acc <= sum_voting_power(vs.subrange(0, k as int)),
        decreases es.validators.len() - k,
    {
        let v = &es.validators[k];
        let contributed: bool = match find_signature(&slc.signatures, &v.address) {
            Some(sig) => ed25519_verify(
                v.public_key.as_slice(),
                msg.as_slice(),
                sig.as_slice(),
            ),
            None => false,
        };
        proof {
            assert(contributed == validator_signed(vs[k as int], sgs, msg_s));
            lemma_signed_power_step(vs, sgs, msg_s, k as int);
            crate::epoch_state::lemma_sum_voting_power_prefix(vs, k as int);
            lemma_sum_prefix_le(vs, k as int + 1);
            assert(sum_voting_power(vs) == es@.total_voting_power);
        }
        if contributed {
            acc = acc + v.voting_power;
        }
        k = k + 1;
    }
    proof {
        assert(vs.subrange(0, vs.len() as int) =~= vs);
    }
    proof {
        reveal(quorum_check_spec);
    }
    if (acc as u128) * 3 > (es.total_voting_power as u128) * 2 {
        Ok(())
    } else {
        Err(VerifyError::QuorumNotMet)
    }
}

/// Quorum threshold law: a commitment whose valid signatures total no more
/// than two thirds of the epoch's voting power is never accepted, whatever
/// the identity of the signers.
pub proof fn lemma_quorum_threshold(es: EpochStateModel, slc: SignedLedgerCommitmentModel)
    requires
        3 * signed_voting_power(
            es.validators,
            slc.signatures,
            commitment_digest(slc.commitment),
        ) <= 2 * (es.total_voting_power as int),
    ensures
        quorum_check_spec(es, slc) != Ok::<(), VerifyError>(()),
{
    reveal(quorum_check_spec);
}

} // verus!
