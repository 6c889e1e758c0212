//! The Merkle accumulator: roots, range proofs, tampering.

use libra_verif::accumulator::{
    accumulator_root, gen_range_proof, verify_range, AccumulatorRangeProof,
};
use libra_verif::crypto::HashValue;
use libra_verif::errors::VerifyError;

fn leaf(i: u8) -> HashValue {
    HashValue::digest_of(&[i])
}

fn leaves(n: u8) -> Vec<HashValue> {
    (0..n).map(leaf).collect()
}

#[test]
fn empty_accumulator_has_zero_root() {
    let root = accumulator_root(&Vec::new());
    assert_eq!(root.as_bytes(), &vec![0u8; 32]);
}

#[test]
fn single_leaf_root_is_the_leaf() {
    let root = accumulator_root(&leaves(1));
    assert_eq!(root, leaf(0));
}

#[test]
fn empty_range_verifies_only_against_empty_root() {
    let empty = AccumulatorRangeProof { left_siblings: Vec::new(), right_siblings: Vec::new() };
    let zero = HashValue::from_vec(vec![0u8; 32]).unwrap();
    assert_eq!(verify_range(&zero, 0, &Vec::new(), &empty), Ok(()));
    let nonzero = accumulator_root(&leaves(3));
    let empty2 = AccumulatorRangeProof { left_siblings: Vec::new(), right_siblings: Vec::new() };
    assert_eq!(
        verify_range(&nonzero, 0, &Vec::new(), &empty2),
        Err(VerifyError::ProofVerificationFailed)
    );
}

#[test]
fn every_subrange_of_small_accumulators_verifies() {
    for n in 1..=8u8 {
        let all = leaves(n);
        let root = accumulator_root(&all);
        for first in 0..n as usize {
            for count in 1..=(n as usize - first) {
                let proof = gen_range_proof(&all, first, count);
                let run: Vec<HashValue> = (first..first + count).map(|i| leaf(i as u8)).collect();
                assert_eq!(
                    verify_range(&root, first as u64, &run, &proof),
                    Ok(()),
                    "range [{}, {}) of {} leaves",
                    first,
                    first + count,
                    n
                );
            }
        }
    }
}

#[test]
fn frontier_range_needs_fewer_siblings_than_interior() {
    let all = leaves(8);
    let extended = leaves(9);
    let interior = gen_range_proof(&extended, 6, 2);
    let frontier = gen_range_proof(&all, 6, 2);
    assert!(frontier.right_siblings.len() < interior.right_siblings.len());
}

#[test]
fn flipping_a_leaf_breaks_the_proof() {
    let all = leaves(7);
    let root = accumulator_root(&all);
    let proof = gen_range_proof(&all, 2, 3);
    let mut run: Vec<HashValue> = (2..5).map(|i| leaf(i as u8)).collect();
    let mut bytes = run[1].as_bytes().clone();
    bytes[0] ^= 1;
    run[1] = HashValue::from_vec(bytes).unwrap();
    assert_eq!(
        verify_range(&root, 2, &run, &proof),
        Err(VerifyError::ProofVerificationFailed)
    );
}

#[test]
fn flipping_a_sibling_breaks_the_proof() {
    let all = leaves(7);
    let root = accumulator_root(&all);
    let mut proof = gen_range_proof(&all, 2, 3);
    let run: Vec<HashValue> = (2..5).map(|i| leaf(i as u8)).collect();
    assert!(!proof.left_siblings.is_empty());
    let mut bytes = proof.left_siblings[0].as_bytes().clone();
    bytes[5] ^= 0x80;
    proof.left_siblings[0] = HashValue::from_vec(bytes).unwrap();
    assert_eq!(
        verify_range(&root, 2, &run, &proof),
        Err(VerifyError::ProofVerificationFailed)
    );
}

#[test]
fn wrong_position_breaks_the_proof() {
    let all = leaves(7);
    let root = accumulator_root(&all);
    let proof = gen_range_proof(&all, 2, 3);
    let run: Vec<HashValue> = (2..5).map(|i| leaf(i as u8)).collect();
    assert_eq!(
        verify_range(&root, 3, &run, &proof),
        Err(VerifyError::ProofVerificationFailed)
    );
}
