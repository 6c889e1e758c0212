//! The validator set authoritative during one epoch.

use vstd::prelude::*;

use crate::codec::{append_bytes, append_u64_le, clone_bytes, u64_le_bytes};

verus! {

/// The mathematical model of one validator entry: its identity, its public
/// key and its voting power.
#[verifier::ext_equal]
pub struct ValidatorModel {
    pub address: Seq<u8>,
    pub public_key: Seq<u8>,
    pub voting_power: u64,
}

/// The mathematical model of an epoch's validator set.
#[verifier::ext_equal]
pub struct EpochStateModel {
    pub epoch: u64,
    pub validators: Seq<ValidatorModel>,
    pub total_voting_power: u64,
}

/// One validator entry: identity, Ed25519 public key, voting power.
#[derive(Debug, PartialEq, Eq)]
pub struct ValidatorInfo {
    pub address: Vec<u8>,
    pub public_key: Vec<u8>,
    pub voting_power: u64,
}

impl View for ValidatorInfo {
    type V = ValidatorModel;

    open spec fn view(&self) -> ValidatorModel {
        ValidatorModel {
            address: self.address@,
            public_key: self.public_key@,
            voting_power: self.voting_power,
        }
    }
}

impl Clone for ValidatorInfo {
    fn clone(&self) -> (r: Self)
        ensures
            r@ == self@,
    {
        let r = ValidatorInfo {
            address: clone_bytes(&self.address),
            public_key: clone_bytes(&self.public_key),
            voting_power: self.voting_power,
        };
        proof {
            assert(r@ =~= self@);
        }
        r
    }
}

/// The validator set for one epoch, with its cached total voting power.
#[derive(Debug, PartialEq, Eq)]
pub struct EpochState {
    pub epoch: u64,
    pub validators: Vec<ValidatorInfo>,
    pub total_voting_power: u64,
}

impl View for EpochState {
    type V = EpochStateModel;

    open spec fn view(&self) -> EpochStateModel {
        EpochStateModel {
            epoch: self.epoch,
            validators: self.validators@.map_values(|v: ValidatorInfo| v@),
            total_voting_power: self.total_voting_power,
        }
    }
}

/// The sum of the voting powers of a sequence of validators.
pub open spec fn sum_voting_power(vs: Seq<ValidatorModel>) -> int
    decreases vs.len(),
{
    if vs.len() == 0 {
        0
    } else {
        sum_voting_power(vs.drop_last()) + vs.last().voting_power
    }
}

/// Whether no two validators share an address.
pub open spec fn unique_addresses(vs: Seq<ValidatorModel>) -> bool {
    forall|i: int, j: int|
        0 <= i < j < vs.len() ==> (#[trigger] vs[i]).address != (#[trigger] vs[j]).address
}

/// Whether some validator carries the given address.
pub open spec fn has_validator(vs: Seq<ValidatorModel>, addr: Seq<u8>) -> bool {
    exists|i: int| 0 <= i < vs.len() && (#[trigger] vs[i]).address == addr
}

impl EpochStateModel {
    /// Well-formedness: the set is non-empty, addresses are unique, and the
    /// cached total equals the sum of the entries' powers.
    pub open spec fn wf(self) -> bool {
        &&& self.validators.len() > 0
        &&& unique_addresses(self.validators)
        &&& sum_voting_power(self.validators) == self.total_voting_power
    }
}

/// The sum of any prefix of validator powers grows by the next entry.
pub proof fn lemma_sum_voting_power_prefix(vs: Seq<ValidatorModel>, i: int)
    requires
        0 <= i < vs.len(),
    ensures
        sum_voting_power(vs.subrange(0, i + 1)) == sum_voting_power(vs.subrange(0, i))
            + vs[i].voting_power,
{
    let longer = vs.subrange(0, i + 1);
    assert(longer.drop_last() =~= vs.subrange(0, i));
    assert(longer.last() == vs[i]);
}

impl EpochState {
    /// Builds a validated epoch state.
    ///
    /// Succeeds exactly when the set is non-empty, the addresses are unique
    /// and the summed voting power fits a 64-bit integer; the cached total
    /// is the sum of the entries.
    pub fn new(epoch: u64, validators: Vec<ValidatorInfo>) -> (r: Option<EpochState>)
        ensures
            match r {
                Some(es) => {
                    &&& es@.wf()
                    &&& es@.epoch == epoch
                    &&& es@.validators == validators@.map_values(|v: ValidatorInfo| v@)
                },
                None => {
                    let vs = validators@.map_values(|v: ValidatorInfo| v@);
                    ||| vs.len() == 0
                    ||| !unique_addresses(vs)
                    ||| sum_voting_power(vs) > u64::MAX
                },
            },
    {
        let ghost vs = validators@.map_values(|v: ValidatorInfo| v@);
        if validators.len() == 0 {
            return None;
        }
        // addresses must be unique
        let mut i: usize = 0;
        while i < validators.len()
            invariant
                i <= validators.len(),
                vs == validators@.map_values(|v: ValidatorInfo| v@),
                forall|a: int, b: int|
                    0 <= a < b < vs.len() && a < i ==> (#[trigger] vs[a]).address != (
                    #[trigger] vs[b]).address,
            decreases validators.len() - i,
        {
            let mut j: usize = i + 1;
            while j < validators.len()
                invariant
                    i < j <= validators.len(),
                    vs == validators@.map_values(|v: ValidatorInfo| v@),
                    forall|b: int| i < b < j ==> vs[i as int].address != (#[trigger] vs[b]).address,
                decreases validators.len() - j,
            {
                if validators[i].address == validators[j].address {
                    proof {
                        assert(vs[i as int].address == vs[j as int].address);
                    }
                    return None;
                }
                j = j + 1;
            }
            i = i + 1;
        }
        // the total voting power must fit a u64
        let mut sum: u128 = 0;
        let mut k: usize = 0;
        while k < validators.len()
            invariant
                k <= validators.len(),
                vs == validators@.map_values(|v: ValidatorInfo| v@),
                sum == sum_voting_power(vs.subrange(0, k as int)),
                sum <= (k as int) * (u64::MAX as int),
            decreases validators.len() - k,
        {
            proof {
                lemma_sum_voting_power_prefix(vs, k as int);
                assert((k as int) * (u64::MAX as int) + (u64::MAX as int) == ((k + 1) as int) * (
                u64::MAX as int)) by (nonlinear_arith);
            }
            sum = sum + validators[k].voting_power as u128;
            k = k + 1;
        }
        proof {
            assert(vs.subrange(0, vs.len() as int) =~= vs);
        }
        if sum > u64::MAX as u128 {
            return None;
        }
        let es = EpochState { epoch, validators, total_voting_power: sum as u64 };
        proof {
            assert(es@.validators == vs);
        }
        Some(es)
    }

    /// Whether this value satisfies the epoch-state invariant: non-empty,
    /// unique addresses, cached total equal to the summed voting power.
    pub fn is_wf(&self) -> (r: bool)
        ensures
            r == self@.wf(),
    {
        let ghost vs = self@.validators;
        if self.validators.len() == 0 {
            return false;
        }
        let mut i: usize = 0;
        while i < self.validators.len()
            invariant
                i <= self.validators.len(),
                vs == self@.validators,
                vs.len() == self.validators@.len(),
                forall|a: int, b: int|
                    0 <= a < b < vs.len() && a < i ==> (#[trigger] vs[a]).address != (
                    #[trigger] vs[b]).address,
            decreases self.validators.len() - i,
        {
            let mut j: usize = i + 1;
            while j < self.validators.len()
                invariant
                    i < j <= self.validators.len(),
                    vs == self@.validators,
                    vs.len() == self.validators@.len(),
                    forall|b: int| i < b < j ==> vs[i as int].address != (#[trigger] vs[b]).address,
                decreases self.validators.len() - j,
            {
                if self.validators[i].address == self.validators[j].address {
                    proof {
                        assert(vs[i as int].address == vs[j as int].address);
                        assert(!unique_addresses(vs));
                    }
                    return false;
                }
                j = j + 1;
            }
            i = i + 1;
        }
        let mut sum: u128 = 0;
        let mut k: usize = 0;
        while k < self.validators.len()
            invariant
                k <= self.validators.len(),
                vs == self@.validators,
                vs.len() == self.validators@.len(),
                sum == sum_voting_power(vs.subrange(0, k as int)),
                sum <= (k as int) * (u64::MAX as int),
            decreases self.validators.len() - k,
        {
            proof {
                lemma_sum_voting_power_prefix(vs, k as int);
                assert((k as int) * (u64::MAX as int) + (u64::MAX as int) == ((k + 1) as int) * (
                u64::MAX as int)) by (nonlinear_arith);
            }
            sum = sum + self.validators[k].voting_power as u128;
            k = k + 1;
        }
        proof {
            assert(vs.subrange(0, vs.len() as int) =~= vs);
        }
        sum == self.total_voting_power as u128
    }

    /// Looks up a validator by address; `Some` exactly when the address is
    /// in the set, giving the first matching index.
    pub fn lookup_validator(&self, addr: &Vec<u8>) -> (r: Option<usize>)
        ensures
            match r {
                Some(i) => i < self@.validators.len() && self@.validators[i as int].address
                    == addr@,
                None => !has_validator(self@.validators, addr@),
            },
    {
        let mut i: usize = 0;
        while i < self.validators.len()
            invariant
                i <= self@.validators.len(),
                self@.validators.len() == self.validators@.len(),
                forall|j: int|
                    0 <= j < i ==> (#[trigger] self@.validators[j]).address != addr@,
            decreases self.validators.len() - i,
        {
            let hit = &self.validators[i].address == addr;
            proof {
                if hit {
                    assert(self.validators@[i as int].address@ =~= addr@);
                    assert(self@.validators[i as int].address == addr@);
                } else {
                    if self.validators@[i as int].address@ == addr@ {
                        assert(self.validators@[i as int].address@ =~= addr@);
                    }
                    assert(self@.validators[i as int].address != addr@);
                }
            }
            if hit {
                return Some(i);
            }
            i = i + 1;
        }
        None
    }
}

impl Clone for EpochState {
    fn clone(&self) -> (r: Self)
        ensures
            r@ == self@,
    {
        let mut validators: Vec<ValidatorInfo> = Vec::new();
        let mut i: usize = 0;
        while i < self.validators.len()
            invariant
                i <= self.validators.len(),
                validators@.len() == i,
                forall|j: int| 0 <= j < i ==> #[trigger] validators@[j]@ == self.validators@[j]@,
            decreases self.validators.len() - i,
        {
            validators.push(self.validators[i].clone());
            i = i + 1;
        }
        let r = EpochState { epoch: self.epoch, validators, total_voting_power: self.total_voting_power };
        proof {
            assert(r@.validators =~= self@.validators);
            assert(r@ =~= self@);
        }
        r
    }
}

/// The canonical encoding of one validator entry: length-prefixed address,
/// length-prefixed public key, voting power.
pub open spec fn encode_validator(v: ValidatorModel) -> Seq<u8> {
    u64_le_bytes(v.address.len() as u64) + v.address + u64_le_bytes(v.public_key.len() as u64)
        + v.public_key + u64_le_bytes(v.voting_power)
}

/// The canonical encoding of a sequence of validator entries, in order.
pub open spec fn encode_validators(vs: Seq<ValidatorModel>) -> Seq<u8>
    decreases vs.len(),
{
    if vs.len() == 0 {
        Seq::empty()
    } else {
        encode_validators(vs.drop_last()) + encode_validator(vs.last())
    }
}

/// The canonical encoding of an epoch state: epoch, entry count, entries,
/// total voting power.
pub open spec fn encode_epoch_state(es: EpochStateModel) -> Seq<u8> {
    u64_le_bytes(es.epoch) + u64_le_bytes(es.validators.len() as u64) + encode_validators(
        es.validators,
    ) + u64_le_bytes(es.total_voting_power)
}

/// Appends the canonical encoding of `es` to `out`.
#[verifier::rlimit(50)]
pub fn append_epoch_state(out: &mut Vec<u8>, es: &EpochState)
    ensures
        final(out)@ == old(out)@ + encode_epoch_state(es@),
{
    let ghost vs = es@.validators;
    append_u64_le(out, es.epoch);
    append_u64_le(out, es.validators.len() as u64);
    let ghost mid = out@;
    let mut i: usize = 0;
    while i < es.validators.len()
        invariant
            i <= es.validators.len(),
            vs == es@.validators,
            vs.len() == es.validators@.len(),
            out@ == mid + encode_validators(vs.subrange(0, i as int)),
        decreases es.validators.len() - i,
    {
        let v = &es.validators[i];
        append_u64_le(out, v.address.len() as u64);
        append_bytes(out, v.address.as_slice());
        append_u64_le(out, v.public_key.len() as u64);
        append_bytes(out, v.public_key.as_slice());
        append_u64_le(out, v.voting_power);
        proof {
            let pre = vs.subrange(0, i as int);
            let post = vs.subrange(0, i + 1);
            assert(post.drop_last() =~= pre);
            assert(post.last() == vs[i as int]);
            assert(out@ =~= mid + encode_validators(post));
        }
        i = i + 1;
    }
    proof {
        assert(vs.subrange(0, vs.len() as int) =~= vs);
    }
    append_u64_le(out, es.total_voting_power);
    proof {
        assert(out@ =~= old(out)@ + encode_epoch_state(es@));
    }
}

} // verus!
