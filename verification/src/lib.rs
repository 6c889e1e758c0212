//! A verifying light client for a blockchain's remote query API.
//!
//! The client consumes responses from an untrusted server — ledger
//! commitments, transaction histories and cryptographic proofs — and
//! independently confirms their authenticity before any caller may rely on
//! them.  Trust is bootstrapped from a compact waypoint anchor, advanced
//! across validator-set changes only when a quorum of the previously trusted
//! validator set has signed the transition, and transaction ranges are
//! checked against a root-hash-committed Merkle accumulator.

pub mod errors;
pub mod crypto;
pub mod codec;
pub mod epoch_state;
pub mod ledger;
pub mod waypoint;
pub mod quorum;
pub mod accumulator;
pub mod trusted_state;
pub mod client;
pub mod views;
