//! Hex codec, waypoint parsing, canonical integer encoding and the view
//! types.

use libra_verif::codec::append_u64_le;
use libra_verif::crypto::HashValue;
use libra_verif::errors::VerifyError;
use libra_verif::views::{AmountView, BytesView};
use libra_verif::waypoint::Waypoint;

#[test]
fn u64_encoding_is_little_endian() {
    let mut out: Vec<u8> = Vec::new();
    append_u64_le(&mut out, 0x0102030405060708);
    assert_eq!(out, vec![0x08, 0x07, 0x06, 0x05, 0x04, 0x03, 0x02, 0x01]);
}

#[test]
fn bytes_view_hex_round_trip() {
    let view = BytesView::from_bytes(&[0xab, 0x01, 0xff]);
    assert_eq!(view.0, "ab01ff");
    let back = view.into_bytes().unwrap();
    assert_eq!(back, vec![0xab, 0x01, 0xff]);
}

#[test]
fn bytes_view_accepts_uppercase_hex() {
    let view = BytesView("AB01FF".to_string());
    assert_eq!(view.into_bytes().unwrap(), vec![0xab, 0x01, 0xff]);
}

#[test]
fn bytes_view_rejects_bad_hex() {
    assert_eq!(
        BytesView("xyz1".to_string()).into_bytes(),
        Err(VerifyError::DecodeError)
    );
    assert_eq!(
        BytesView("abc".to_string()).into_bytes(),
        Err(VerifyError::DecodeError)
    );
}

#[test]
fn sha3_digest_of_empty_input() {
    // the SHA3-256 digest of the empty byte string
    let h = HashValue::digest_of(&[]);
    assert_eq!(
        BytesView::from_bytes(h.as_bytes()).0,
        "a7ffc6f8bf1ed76651c14756a061d662f580ff4de43b49fa82d80a4b80f8434a"
    );
}

#[test]
fn waypoint_parse_accepts_epoch_and_hash() {
    let hex = "00112233445566778899aabbccddeeff00112233445566778899aabbccddeeff";
    let wp = Waypoint::parse(&format!("7:{}", hex)).unwrap();
    assert_eq!(wp.epoch, 7);
    assert_eq!(wp.commitment_hash.as_bytes()[0], 0x00);
    assert_eq!(wp.commitment_hash.as_bytes()[1], 0x11);
    assert_eq!(wp.commitment_hash.as_bytes()[31], 0xff);
}

#[test]
fn waypoint_parse_rejects_malformed_strings() {
    let hex = "00112233445566778899aabbccddeeff00112233445566778899aabbccddeeff";
    // no colon
    assert!(Waypoint::parse("7").is_none());
    // empty epoch
    assert!(Waypoint::parse(&format!(":{}", hex)).is_none());
    // non-digit epoch
    assert!(Waypoint::parse(&format!("7a:{}", hex)).is_none());
    // epoch too large for 64 bits
    assert!(Waypoint::parse(&format!("99999999999999999999:{}", hex)).is_none());
    // hash too short
    assert!(Waypoint::parse("7:ab01").is_none());
    // hash not hex
    let bad = "zz112233445566778899aabbccddeeff00112233445566778899aabbccddeeff";
    assert!(Waypoint::parse(&format!("7:{}", bad)).is_none());
}

#[test]
fn waypoint_parse_largest_epoch() {
    let hex = "00112233445566778899aabbccddeeff00112233445566778899aabbccddeeff";
    let wp = Waypoint::parse(&format!("18446744073709551615:{}", hex)).unwrap();
    assert_eq!(wp.epoch, u64::MAX);
    assert!(Waypoint::parse(&format!("18446744073709551616:{}", hex)).is_none());
}

#[test]
fn amount_view_holds_amount_and_currency() {
    let a = AmountView::new(120, "LBR");
    assert_eq!(a.amount, 120);
    assert_eq!(a.currency, "LBR");
}

#[test]
fn retryable_errors_are_decode_and_transport() {
    assert!(VerifyError::DecodeError.is_retryable());
    assert!(VerifyError::TransportError.is_retryable());
    assert!(!VerifyError::QuorumNotMet.is_retryable());
    assert!(!VerifyError::WaypointMismatch.is_retryable());
    assert!(!VerifyError::ProofVerificationFailed.is_retryable());
}
