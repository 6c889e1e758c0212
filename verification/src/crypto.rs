//! Cryptographic primitives: 256-bit hash values, the SHA3-256 digest and
//! Ed25519 signature verification.
//!
//! The digest and the signature check are performed by outside crates; their
//! results are named by uninterpreted spec functions, and everything the
//! library proves about hashing and signing is stated over those names.

use vstd::prelude::*;

use crate::errors::VerifyError;

verus! {

/// The SHA3-256 digest of a byte string, as a 32-byte string.
pub uninterp spec fn sha3_of(bytes: Seq<u8>) -> Seq<u8>;

/// Whether `sig` is a valid Ed25519 signature over `msg` under the public
/// key `pk`.  False whenever `pk` or `sig` is not a well-formed key or
/// signature encoding.
pub uninterp spec fn ed25519_valid(pk: Seq<u8>, msg: Seq<u8>, sig: Seq<u8>) -> bool;

/// Computes the SHA3-256 digest of `bytes`.
///
/// Relies on `sha3::Sha3_256` (via the `Digest` trait): the digest is a
/// function of the input bytes alone and is 32 bytes long.
#[verifier::external_body]
pub fn sha3_256(bytes: &[u8]) -> (r: Vec<u8>)
    ensures
        r@ == sha3_of(bytes@),
        r@.len() == 32,
{
    <sha3::Sha3_256 as sha3::Digest>::digest(bytes).to_vec()
}

/// Checks an Ed25519 signature.
///
/// Relies on `ed25519_dalek::VerifyingKey::verify_strict`, with
/// `VerifyingKey::from_bytes` and `Signature::from_slice` converting the raw
/// arguments; a key or signature that does not parse makes the check false.
/// The outcome is a function of the three byte strings alone.
#[verifier::external_body]
pub fn ed25519_verify(pk: &[u8], msg: &[u8], sig: &[u8]) -> (r: bool)
    ensures
        r == ed25519_valid(pk@, msg@, sig@),
{
    let pk_bytes: [u8; 32] = match pk.try_into() {
        Ok(b) => b,
        Err(_) => return false,
    };
    let key = match ed25519_dalek::VerifyingKey::from_bytes(&pk_bytes) {
        Ok(k) => k,
        Err(_) => return false,
    };
    let signature = match ed25519_dalek::Signature::from_slice(sig) {
        Ok(s) => s,
        Err(_) => return false,
    };
    key.verify_strict(msg, &signature).is_ok()
}

/// A 256-bit hash value: exactly 32 bytes.
#[derive(Debug, PartialEq, Eq)]
pub struct HashValue {
    pub bytes: Vec<u8>,
}

impl View for HashValue {
    type V = Seq<u8>;

    open spec fn view(&self) -> Seq<u8> {
        self.bytes@
    }
}

impl HashValue {
    /// The well-formedness of a hash value: it is exactly 32 bytes.
    pub open spec fn wf(&self) -> bool {
        self@.len() == 32
    }

    /// Wraps 32 raw bytes as a hash value; `None` for any other length.
    pub fn from_vec(bytes: Vec<u8>) -> (r: Option<HashValue>)
        ensures
            match r {
                Some(h) => h.wf() && h@ == bytes@,
                None => bytes@.len() != 32,
            },
            bytes@.len() == 32 ==> r is Some,
    {
        if bytes.len() == 32 {
            Some(HashValue { bytes })
        } else {
            None
        }
    }

    /// The SHA3-256 digest of `data`, as a hash value.
    pub fn digest_of(data: &[u8]) -> (r: HashValue)
        ensures
            r@ == sha3_of(data@),
            r.wf(),
    {
        let bytes = sha3_256(data);
        HashValue { bytes }
    }

    /// The raw bytes of the hash value.
    pub fn as_bytes(&self) -> (r: &Vec<u8>)
        ensures
            r@ == self@,
    {
        &self.bytes
    }

    /// Whether two hash values hold the same bytes.
    pub fn equals(&self, other: &HashValue) -> (r: bool)
        ensures
            r == (self@ == other@),
    {
        let r = self.bytes == other.bytes;
        proof {
            if r {
                assert(self.bytes@ =~= other.bytes@);
            }
        }
        r
    }
}

impl Clone for HashValue {
    fn clone(&self) -> (r: Self)
        ensures
            r@ == self@,
    {
        HashValue { bytes: crate::codec::clone_bytes(&self.bytes) }
    }
}

} // verus!
