//! Typed view objects for the remote query API: the plain-data shapes in
//! which decoded responses and account/transaction summaries travel.
//! Binary fields are carried hex-encoded in `BytesView`.

use vstd::prelude::*;

use crate::codec::{hex_decode, hex_decoded, hex_encode, hex_encoded_chars, hex_valid};
use crate::errors::VerifyError;

verus! {

/// An amount of some currency.
#[derive(Clone, Debug, PartialEq)]
pub struct AmountView {
    pub amount: u64,
    pub currency: String,
}

impl AmountView {
    /// Packs an amount with its currency code.
    pub fn new(amount: u64, currency: &str) -> (r: Self)
        ensures
            r.amount == amount,
            r.currency@ == currency@,
    {
        AmountView { amount, currency: currency.to_owned() }
    }
}

/// A binary field carried as a hex string.
#[derive(Clone, Debug, PartialEq)]
pub struct BytesView(pub String);

impl BytesView {
    /// Hex-encodes raw bytes into a view.
    pub fn from_bytes(bytes: &[u8]) -> (r: Self)
        ensures
            r.0@ == hex_encoded_chars(bytes@),
    {
        BytesView(hex_encode(bytes))
    }

    /// Decodes the hex string back into raw bytes; a string that is not
    /// well-formed hex is malformed data from the server.  The contract
    /// speaks of the string's UTF-8 bytes.
    pub fn into_bytes(self) -> (r: Result<Vec<u8>, VerifyError>)
        ensures
            match r {
                Ok(b) => hex_valid(vstd::utf8::encode_utf8(self.0@)) && b@ == hex_decoded(
                    vstd::utf8::encode_utf8(self.0@),
                ),
                Err(e) => !hex_valid(vstd::utf8::encode_utf8(self.0@)) && e
                    == VerifyError::DecodeError,
            },
    {
        match hex_decode(self.0.as_str().as_bytes()) {
            Some(b) => Ok(b),
            None => Err(VerifyError::DecodeError),
        }
    }
}

/// The role an account plays on the chain.
#[derive(Clone, Debug, PartialEq)]
pub enum AccountRoleView {
    Unknown,
    ChildVASP { parent_vasp_address: BytesView },
    ParentVASP {
        human_name: String,
        base_url: String,
        expiration_time: u64,
        compliance_key: BytesView,
        num_children: u64,
        compliance_key_rotation_events_key: BytesView,
        base_url_rotation_events_key: BytesView,
    },
    DesignatedDealer {
        human_name: String,
        base_url: String,
        expiration_time: u64,
        compliance_key: BytesView,
        preburn_balances: Vec<AmountView>,
        received_mint_events_key: BytesView,
        compliance_key_rotation_events_key: BytesView,
        base_url_rotation_events_key: BytesView,
    },
}

/// An account's decoded on-chain state.
#[derive(Clone, Debug, PartialEq)]
pub struct AccountView {
    pub address: BytesView,
    pub balances: Vec<AmountView>,
    pub sequence_number: u64,
    pub authentication_key: BytesView,
    pub sent_events_key: BytesView,
    pub received_events_key: BytesView,
    pub delegated_key_rotation_capability: bool,
    pub delegated_withdrawal_capability: bool,
    pub is_frozen: bool,
    pub role: AccountRoleView,
}

/// Chain metadata reported by the server.
#[derive(Clone, Debug, PartialEq)]
pub struct MetadataView {
    pub version: u64,
    pub timestamp: u64,
    pub chain_id: u8,
    pub script_hash_allow_list: Option<Vec<BytesView>>,
    pub module_publishing_allowed: Option<bool>,
    pub libra_version: Option<u64>,
}

/// A decoded abort explanation for a failed transaction.
#[derive(Clone, Debug, PartialEq)]
pub struct MoveAbortExplanationView {
    pub category: String,
    pub category_description: String,
    pub reason: String,
    pub reason_description: String,
}

/// The outcome the virtual machine reported for a kept transaction.
#[derive(Clone, Debug, PartialEq)]
pub enum VMStatusView {
    Executed,
    OutOfGas,
    MoveAbort {
        location: String,
        abort_code: u64,
        explanation: Option<MoveAbortExplanationView>,
    },
    ExecutionFailure { location: String, function_index: u16, code_offset: u16 },
    MiscellaneousError,
}

/// A transaction range response, with everything needed to verify it.
#[derive(Clone, Debug, PartialEq)]
pub struct TransactionsWithProofsView {
    pub first_transaction_version: Option<u64>,
    pub serialized_transactions: Vec<BytesView>,
    pub ledger_info: BytesView,
    pub proofs: TransactionsProofsView,
}

/// The proof bundle accompanying a transaction range response.
#[derive(Clone, Debug, PartialEq)]
pub struct TransactionsProofsView {
    pub ledger_info_to_transaction_infos_proof: BytesView,
    pub transaction_infos: BytesView,
}

/// The decoded payload of one transaction.
#[derive(Clone, Debug, PartialEq)]
pub enum TransactionDataView {
    BlockMetadata { timestamp_usecs: u64 },
    WriteSet {},
    UserTransaction {
        sender: String,
        signature_scheme: String,
        signature: String,
        public_key: String,
        sequence_number: u64,
        chain_id: u8,
        max_gas_amount: u64,
        gas_unit_price: u64,
        gas_currency: String,
        expiration_timestamp_secs: u64,
        script_hash: String,
        script_bytes: BytesView,
        script: ScriptView,
    },
    UnknownTransaction {},
}

/// The decoded script a user transaction carries.
#[derive(Clone, Debug, PartialEq)]
pub enum ScriptView {
    PeerToPeer {
        receiver: String,
        amount: u64,
        currency: String,
        metadata: BytesView,
        metadata_signature: BytesView,
    },
    Mint { receiver: String, currency: String, auth_key_prefix: BytesView, amount: u64 },
    Unknown {},
}

/// A state-proof response: the signed ledger commitment, the epoch-change
/// chain and the consistency proof, each as canonical bytes in hex.
#[derive(Clone, Debug, PartialEq)]
pub struct StateProofView {
    pub ledger_info_with_signatures: BytesView,
    pub epoch_change_proof: BytesView,
    pub ledger_consistency_proof: BytesView,
}

/// An account-state response with its inclusion proof.
#[derive(Clone, Debug, PartialEq)]
pub struct AccountStateWithProofView {
    pub version: u64,
    pub blob: Option<BytesView>,
    pub proof: AccountStateProofView,
}

/// The Merkle inclusion proof for one account's state.
#[derive(Clone, Debug, PartialEq)]
pub struct AccountStateProofView {
    pub ledger_info_to_transaction_info_proof: BytesView,
    pub transaction_info: BytesView,
    pub transaction_info_to_account_proof: BytesView,
}

} // verus!
