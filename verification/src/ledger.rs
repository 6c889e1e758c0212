//! Ledger commitments, their signatures, epoch-change chains and
//! per-transaction commitments.

use vstd::prelude::*;

use crate::codec::{append_bytes, append_u64_le, clone_bytes, u64_le_bytes};
use crate::crypto::{sha3_of, HashValue};
use crate::epoch_state::{encode_epoch_state, EpochState, EpochStateModel};

verus! {

/// The mathematical model of a ledger commitment.
#[verifier::ext_equal]
pub struct LedgerCommitmentModel {
    pub epoch: u64,
    pub version: u64,
    pub root: Seq<u8>,
    pub timestamp: u64,
    pub next_epoch_state: Option<EpochStateModel>,
}

/// The mathematical model of one validator's signature entry.
#[verifier::ext_equal]
pub struct SignatureEntryModel {
    pub address: Seq<u8>,
    pub signature: Seq<u8>,
}

/// The mathematical model of a signed ledger commitment.
#[verifier::ext_equal]
pub struct SignedLedgerCommitmentModel {
    pub commitment: LedgerCommitmentModel,
    pub signatures: Seq<SignatureEntryModel>,
}

/// A commitment to the chain state at a version: the epoch it was produced
/// in, the version it covers, the transaction-accumulator root hash, a
/// timestamp, and — on epoch-terminal commitments only — the validator set
/// of the following epoch.
#[derive(Debug, PartialEq, Eq)]
pub struct LedgerCommitment {
    pub epoch: u64,
    pub version: u64,
    pub accumulator_root_hash: HashValue,
    pub timestamp: u64,
    pub next_epoch_state: Option<EpochState>,
}

impl View for LedgerCommitment {
    type V = LedgerCommitmentModel;

    open spec fn view(&self) -> LedgerCommitmentModel {
        LedgerCommitmentModel {
            epoch: self.epoch,
            version: self.version,
            root: self.accumulator_root_hash@,
            timestamp: self.timestamp,
            next_epoch_state: match self.next_epoch_state {
                Some(es) => Some(es@),
                None => None,
            },
        }
    }
}

/// One validator's signature over a ledger commitment.
#[derive(Debug, PartialEq, Eq)]
pub struct SignatureEntry {
    pub address: Vec<u8>,
    pub signature: Vec<u8>,
}

impl View for SignatureEntry {
    type V = SignatureEntryModel;

    open spec fn view(&self) -> SignatureEntryModel {
        SignatureEntryModel { address: self.address@, signature: self.signature@ }
    }
}

/// A ledger commitment together with the validators' signatures over it.
#[derive(Debug, PartialEq, Eq)]
pub struct SignedLedgerCommitment {
    pub commitment: LedgerCommitment,
    pub signatures: Vec<SignatureEntry>,
}

impl View for SignedLedgerCommitment {
    type V = SignedLedgerCommitmentModel;

    open spec fn view(&self) -> SignedLedgerCommitmentModel {
        SignedLedgerCommitmentModel {
            commitment: self.commitment@,
            signatures: self.signatures@.map_values(|s: SignatureEntry| s@),
        }
    }
}

/// An ordered chain of signed ledger commitments crossing one epoch per
/// hop.
#[derive(Debug, PartialEq, Eq)]
pub struct EpochChangeProof {
    pub commitments: Vec<SignedLedgerCommitment>,
}

impl View for EpochChangeProof {
    type V = Seq<SignedLedgerCommitmentModel>;

    open spec fn view(&self) -> Seq<SignedLedgerCommitmentModel> {
        self.commitments@.map_values(|s: SignedLedgerCommitment| s@)
    }
}

/// The mathematical model of a per-transaction commitment.
#[verifier::ext_equal]
pub struct TransactionCommitmentModel {
    pub transaction_hash: Seq<u8>,
    pub state_root_hash: Seq<u8>,
    pub event_root_hash: Seq<u8>,
    pub gas_used: u64,
    pub status: u64,
}

/// The per-transaction leaf commitment hashed into the transaction
/// accumulator.
#[derive(Debug, PartialEq, Eq)]
pub struct TransactionCommitment {
    pub transaction_hash: HashValue,
    pub state_root_hash: HashValue,
    pub event_root_hash: HashValue,
    pub gas_used: u64,
    pub status: u64,
}

impl View for TransactionCommitment {
    type V = TransactionCommitmentModel;

    open spec fn view(&self) -> TransactionCommitmentModel {
        TransactionCommitmentModel {
            transaction_hash: self.transaction_hash@,
            state_root_hash: self.state_root_hash@,
            event_root_hash: self.event_root_hash@,
            gas_used: self.gas_used,
            status: self.status,
        }
    }
}

/// The canonical encoding of a ledger commitment: epoch, version,
/// length-prefixed root hash, timestamp, then a presence tag followed by the
/// successor validator set when there is one.
pub open spec fn encode_commitment(c: LedgerCommitmentModel) -> Seq<u8> {
    u64_le_bytes(c.epoch) + u64_le_bytes(c.version) + u64_le_bytes(c.root.len() as u64) + c.root
        + u64_le_bytes(c.timestamp) + match c.next_epoch_state {
        None => seq![0u8],
        Some(es) => seq![1u8] + encode_epoch_state(es),
    }
}

/// The canonical signing digest of a ledger commitment: the SHA3-256 digest
/// of its canonical encoding.  Validators sign exactly these 32 bytes.
#[verifier::opaque]
pub open spec fn commitment_digest(c: LedgerCommitmentModel) -> Seq<u8> {
    sha3_of(encode_commitment(c))
}

/// The canonical encoding of a per-transaction commitment.
pub open spec fn encode_transaction_commitment(t: TransactionCommitmentModel) -> Seq<u8> {
    u64_le_bytes(t.transaction_hash.len() as u64) + t.transaction_hash + u64_le_bytes(
        t.state_root_hash.len() as u64,
    ) + t.state_root_hash + u64_le_bytes(t.event_root_hash.len() as u64) + t.event_root_hash
        + u64_le_bytes(t.gas_used) + u64_le_bytes(t.status)
}

/// The accumulator leaf hash of a transaction commitment: the digest of its
/// canonical encoding under the leaf domain tag.
#[verifier::opaque]
pub open spec fn transaction_leaf_hash(t: TransactionCommitmentModel) -> Seq<u8> {
    sha3_of(seq![0u8] + encode_transaction_commitment(t))
}

impl LedgerCommitment {
    /// Appends the canonical encoding of the commitment to `out`.
    pub fn append_encoding(&self, out: &mut Vec<u8>)
        ensures
            final(out)@ == old(out)@ + encode_commitment(self@),
    {
        append_u64_le(out, self.epoch);
        append_u64_le(out, self.version);
        append_u64_le(out, self.accumulator_root_hash.as_bytes().len() as u64);
        append_bytes(out, self.accumulator_root_hash.as_bytes().as_slice());
        append_u64_le(out, self.timestamp);
        match &self.next_epoch_state {
            None => {
                out.push(0u8);
            },
            Some(es) => {
                out.push(1u8);
                crate::epoch_state::append_epoch_state(out, es);
            },
        }
        proof {
            assert(out@ =~= old(out)@ + encode_commitment(self@));
        }
    }

    /// The canonical signing digest of the commitment.
    pub fn digest(&self) -> (r: HashValue)
        ensures
            r@ == commitment_digest(self@),
            r.wf(),
    {
        let mut bytes: Vec<u8> = Vec::new();
        self.append_encoding(&mut bytes);
        proof {
            reveal(commitment_digest);
        }
        HashValue::digest_of(bytes.as_slice())
    }
}

impl Clone for LedgerCommitment {
    fn clone(&self) -> (r: Self)
        ensures
            r@ == self@,
    {
        let r = LedgerCommitment {
            epoch: self.epoch,
            version: self.version,
            accumulator_root_hash: self.accumulator_root_hash.clone(),
            timestamp: self.timestamp,
            next_epoch_state: match &self.next_epoch_state {
                Some(es) => Some(es.clone()),
                None => None,
            },
        };
        proof {
            assert(r@ =~= self@);
        }
        r
    }
}

impl Clone for SignatureEntry {
    fn clone(&self) -> (r: Self)
        ensures
            r@ == self@,
    {
        let r = SignatureEntry {
            address: clone_bytes(&self.address),
            signature: clone_bytes(&self.signature),
        };
        proof {
            assert(r@ =~= self@);
        }
        r
    }
}

impl Clone for SignedLedgerCommitment {
    fn clone(&self) -> (r: Self)
        ensures
            r@ == self@,
    {
        let mut signatures: Vec<SignatureEntry> = Vec::new();
        let mut i: usize = 0;
        while i < self.signatures.len()
            invariant
                i <= self.signatures.len(),
                signatures@.len() == i,
                forall|j: int| 0 <= j < i ==> #[trigger] signatures@[j]@ == self.signatures@[j]@,
            decreases self.signatures.len() - i,
        {
            signatures.push(self.signatures[i].clone());
            i = i + 1;
        }
        let r = SignedLedgerCommitment { commitment: self.commitment.clone(), signatures };
        proof {
            assert(r@.signatures =~= self@.signatures);
            assert(r@ =~= self@);
        }
        r
    }
}

impl TransactionCommitment {
    /// Appends one length-prefixed hash field to `out`.
    fn append_hash_field(out: &mut Vec<u8>, h: &HashValue)
        ensures
            final(out)@ == old(out)@ + u64_le_bytes(h@.len() as u64) + h@,
    {
        append_u64_le(out, h.as_bytes().len() as u64);
        append_bytes(out, h.as_bytes().as_slice());
    }

    /// Appends the canonical encoding of the commitment to `out`.
    #[verifier::rlimit(50)]
    pub fn append_encoding(&self, out: &mut Vec<u8>)
        ensures
            final(out)@ == old(out)@ + encode_transaction_commitment(self@),
    {
        Self::append_hash_field(out, &self.transaction_hash);
        Self::append_hash_field(out, &self.state_root_hash);
        Self::append_hash_field(out, &self.event_root_hash);
        append_u64_le(out, self.gas_used);
        append_u64_le(out, self.status);
        proof {
            assert(out@ =~= old(out)@ + encode_transaction_commitment(self@));
        }
    }

    /// The accumulator leaf hash of this commitment.
    pub fn leaf_hash(&self) -> (r: HashValue)
        ensures
            r@ == transaction_leaf_hash(self@),
            r.wf(),
    {
        let mut bytes: Vec<u8> = Vec::new();
        bytes.push(0u8);
        self.append_encoding(&mut bytes);
        proof {
            reveal(transaction_leaf_hash);
            assert(bytes@ =~= seq![0u8] + encode_transaction_commitment(self@));
        }
        HashValue::digest_of(bytes.as_slice())
    }
}

} // verus!
