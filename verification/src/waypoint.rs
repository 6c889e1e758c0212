//! The waypoint trust anchor: an epoch number bound to the hash of the
//! ledger commitment that epoch produced.

use vstd::prelude::*;
use vstd::string::StringSliceAdditionalSpecFns;

use crate::codec::{hex_decode, hex_decoded, hex_valid};
use crate::crypto::HashValue;
use crate::ledger::{commitment_digest, LedgerCommitment};

verus! {

/// The mathematical model of a waypoint.
#[verifier::ext_equal]
pub struct WaypointModel {
    pub epoch: u64,
    pub hash: Seq<u8>,
}

/// An immutable, operator-supplied trust anchor.  Created once out-of-band
/// and never mutated; it only seeds the trusted state.
#[derive(Debug, PartialEq, Eq)]
pub struct Waypoint {
    pub epoch: u64,
    pub commitment_hash: HashValue,
}

impl View for Waypoint {
    type V = WaypointModel;

    open spec fn view(&self) -> WaypointModel {
        WaypointModel { epoch: self.epoch, hash: self.commitment_hash@ }
    }
}

impl Clone for Waypoint {
    fn clone(&self) -> (r: Self)
        ensures
            r@ == self@,
    {
        let r = Waypoint { epoch: self.epoch, commitment_hash: self.commitment_hash.clone() };
        proof {
            assert(r@ =~= self@);
        }
        r
    }
}

/// Whether a byte is an ASCII decimal digit.
pub open spec fn is_dec_digit(b: u8) -> bool {
    48 <= b && b <= 57
}

/// The number an ASCII digit string denotes, most significant digit first.
pub open spec fn dec_value(s: Seq<u8>) -> int
    decreases s.len(),
{
    if s.len() == 0 {
        0
    } else {
        dec_value(s.drop_last()) * 10 + (s.last() - 48)
    }
}

/// Whether a byte string is a decimal numeral that fits a 64-bit integer.
pub open spec fn dec_valid(s: Seq<u8>) -> bool {
    &&& s.len() > 0
    &&& forall|i: int| 0 <= i < s.len() ==> is_dec_digit(#[trigger] s[i])
    &&& dec_value(s) <= u64::MAX
}

/// The index of the first occurrence of `x` in `s`, or -1.
pub open spec fn find_byte(s: Seq<u8>, x: u8) -> int
    decreases s.len(),
{
    if s.len() == 0 {
        -1
    } else if s[0] == x {
        0
    } else {
        let r = find_byte(s.drop_first(), x);
        if r < 0 {
            -1
        } else {
            r + 1
        }
    }
}

/// `find_byte` gives the first occurrence: before it nothing matches, and
/// -1 means nothing matches at all.
pub proof fn lemma_find_byte(s: Seq<u8>, x: u8)
    ensures
        find_byte(s, x) == -1 ==> forall|j: int| 0 <= j < s.len() ==> s[j] != x,
        find_byte(s, x) >= 0 ==> {
            &&& find_byte(s, x) < s.len()
            &&& s[find_byte(s, x)] == x
            &&& forall|j: int| 0 <= j < find_byte(s, x) ==> s[j] != x
        },
    decreases s.len(),
{
    if s.len() > 0 && s[0] != x {
        lemma_find_byte(s.drop_first(), x);
        assert(forall|j: int| 0 < j < s.len() ==> s[j] == s.drop_first()[j - 1]);
    }
}

/// A digit string's value is non-negative.
pub proof fn lemma_dec_value_nonneg(s: Seq<u8>)
    requires
        forall|i: int| 0 <= i < s.len() ==> is_dec_digit(#[trigger] s[i]),
    ensures
        dec_value(s) >= 0,
    decreases s.len(),
{
    if s.len() > 0 {
        lemma_dec_value_nonneg(s.drop_last());
    }
}

/// Reading one more digit multiplies by ten and adds it.
pub proof fn lemma_dec_value_step(s: Seq<u8>, k: int)
    requires
        0 <= k < s.len(),
    ensures
        dec_value(s.subrange(0, k + 1)) == dec_value(s.subrange(0, k)) * 10 + (s[k] - 48),
{
    let longer = s.subrange(0, k + 1);
    assert(longer.drop_last() =~= s.subrange(0, k));
    assert(longer.last() == s[k]);
}

/// A digit string's value only grows as digits are appended.
pub proof fn lemma_dec_value_prefix_le(s: Seq<u8>, k: int)
    requires
        forall|i: int| 0 <= i < s.len() ==> is_dec_digit(#[trigger] s[i]),
        0 <= k <= s.len(),
    ensures
        dec_value(s.subrange(0, k)) <= dec_value(s),
    decreases s.len() - k,
{
    if k < s.len() {
        lemma_dec_value_step(s, k);
        lemma_dec_value_nonneg(s.subrange(0, k));
        lemma_dec_value_prefix_le(s, k + 1);
    } else {
        assert(s.subrange(0, k) =~= s);
    }
}

/// What a waypoint string denotes: a decimal epoch, a colon, then exactly
/// 64 hex digits of commitment hash.
pub open spec fn waypoint_parse_spec(b: Seq<u8>) -> Option<WaypointModel> {
    let i = find_byte(b, 58);
    if i < 0 {
        None
    } else {
        let ep = b.subrange(0, i);
        let hx = b.subrange(i + 1, b.len() as int);
        if dec_valid(ep) && hx.len() == 64 && hex_valid(hx) {
            Some(WaypointModel { epoch: dec_value(ep) as u64, hash: hex_decoded(hx) })
        } else {
            None
        }
    }
}

impl Waypoint {
    /// Packs an epoch and a commitment hash as a waypoint.
    pub fn new(epoch: u64, commitment_hash: HashValue) -> (r: Waypoint)
        ensures
            r@.epoch == epoch,
            r@.hash == commitment_hash@,
    {
        Waypoint { epoch, commitment_hash }
    }

    /// The waypoint for a known-good ledger commitment: its epoch and its
    /// canonical signing digest.
    pub fn for_commitment(c: &LedgerCommitment) -> (r: Waypoint)
        ensures
            r@.epoch == c@.epoch,
            r@.hash == commitment_digest(c@),
    {
        Waypoint { epoch: c.epoch, commitment_hash: c.digest() }
    }

    /// Parses an `epoch:hash` waypoint string: a decimal epoch that fits
    /// 64 bits, a colon, then the commitment hash as exactly 64 hex digits.
    pub fn parse(s: &str) -> (r: Option<Waypoint>)
        ensures
            match r {
                Some(wp) => waypoint_parse_spec(s.spec_bytes()) == Some(wp@),
                None => waypoint_parse_spec(s.spec_bytes()) is None,
            },
    {
        let bytes = s.as_bytes();
        let ghost b = s.spec_bytes();
        proof {
            lemma_find_byte(b, 58);
        }
        // find the colon
        let mut ci: usize = 0;
        while ci < bytes.len() && bytes[ci] != 58
            invariant
                ci <= b.len(),
                bytes@ == b,
                forall|j: int| 0 <= j < ci ==> b[j] != 58,
            decreases b.len() - ci,
        {
            ci = ci + 1;
        }
        if ci >= bytes.len() {
            proof {
                assert(find_byte(b, 58) == -1);
            }
            return None;
        }
        proof {
            assert(b[ci as int] == 58);
            assert(find_byte(b, 58) == ci);
        }
        let ghost ep = b.subrange(0, ci as int);
        // parse the decimal epoch
        if ci == 0 {
            return None;
        }
        let mut v: u64 = 0;
        let mut k: usize = 0;
        while k < ci
            invariant
                0 <= k <= ci < b.len(),
                bytes@ == b,
                b == s.spec_bytes(),
                find_byte(b, 58) == ci,
                ep == b.subrange(0, ci as int),
                forall|j: int| 0 <= j < k ==> is_dec_digit(#[trigger] ep[j]),
                v == dec_value(ep.subrange(0, k as int)),
            decreases ci - k,
        {
            let d = bytes[k];
            if d < 48 || d > 57 {
                proof {
                    assert(ep[k as int] == b[k as int]);
                    assert(!is_dec_digit(ep[k as int]));
                    assert(!dec_valid(ep));
                }
                return None;
            }
            proof {
                lemma_dec_value_step(ep, k as int);
                assert(ep.subrange(0, k as int).subrange(0, k as int) =~= ep.subrange(0, k as int));
            }
            if v > (u64::MAX - ((d - 48) as u64)) / 10 {
                proof {
                    assert(dec_value(ep.subrange(0, k + 1)) > u64::MAX);
                    if forall|i: int| 0 <= i < ep.len() ==> is_dec_digit(#[trigger] ep[i]) {
                        lemma_dec_value_prefix_le(ep, k + 1);
                    }
                    assert(!dec_valid(ep));
                }
                return None;
            }
            v = v * 10 + ((d - 48) as u64);
            k = k + 1;
        }
        proof {
            assert(ep.subrange(0, ci as int) =~= ep);
        }
        // decode the hash part
        let ghost hx = b.subrange(ci + 1, b.len() as int);
        let mut suffix: Vec<u8> = Vec::new();
        let mut j: usize = ci + 1;
        while j < bytes.len()
            invariant
                ci + 1 <= j <= b.len(),
                bytes@ == b,
                hx == b.subrange(ci + 1, b.len() as int),
                suffix@ == hx.subrange(0, j - ci - 1),
            decreases bytes@.len() - j,
        {
            suffix.push(bytes[j]);
            proof {
                assert(suffix@ =~= hx.subrange(0, j + 1 - ci - 1));
            }
            j = j + 1;
        }
        proof {
            assert(suffix@ =~= hx);
        }
        if suffix.len() != 64 {
            return None;
        }
        match hex_decode(suffix.as_slice()) {
            None => None,
            Some(decoded) => {
                match HashValue::from_vec(decoded) {
                    None => {
                        proof {
                            assert(hex_decoded(hx).len() == 32);
                        }
                        // unreachable: 64 hex digits decode to 32 bytes
                        None
                    },
                    Some(h) => Some(Waypoint { epoch: v, commitment_hash: h }),
                }
            },
        }
    }
}

} // verus!
