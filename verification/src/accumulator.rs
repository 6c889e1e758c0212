//! The append-only Merkle transaction accumulator: root computation, range
//! proofs and their verification.
//!
//! Levels are combined bottom-up: adjacent complete subtrees pair, and an
//! incomplete right-edge subtree carries forward without pairing.  A range
//! proof supplies the left and right sibling hashes needed, bottom-up, to
//! rebuild the root from a contiguous run of leaves; a run touching the
//! right frontier needs strictly fewer siblings than an interior run, so
//! the verifier uses only what the proof supplies.

use vstd::prelude::*;

use crate::codec::append_bytes;
use crate::crypto::{sha3_of, HashValue};
use crate::errors::VerifyError;

verus! {

/// The byte strings a sequence of hash values holds.
pub open spec fn hashes_of(s: Seq<HashValue>) -> Seq<Seq<u8>> {
    s.map_values(|h: HashValue| h@)
}

/// The defined root of an accumulator with no leaves: 32 zero bytes.
pub open spec fn empty_root() -> Seq<u8> {
    Seq::new(32, |i: int| 0u8)
}

/// An internal node's hash: the digest of its children under the internal
/// domain tag.
pub open spec fn node_hash(l: Seq<u8>, r: Seq<u8>) -> Seq<u8> {
    sha3_of(seq![1u8] + l + r)
}

/// One bottom-up combination step: adjacent nodes pair; an unpaired last
/// node carries forward.
pub open spec fn level_up(level: Seq<Seq<u8>>) -> Seq<Seq<u8>> {
    Seq::new(
        (level.len() + 1) / 2,
        |i: int|
            if 2 * i + 1 < level.len() {
                node_hash(level[2 * i], level[2 * i + 1])
            } else {
                level[2 * i]
            },
    )
}

/// The accumulator root of a sequence of leaf hashes.
pub open spec fn root_of(leaves: Seq<Seq<u8>>) -> Seq<u8>
    decreases leaves.len(),
{
    if leaves.len() == 0 {
        empty_root()
    } else if leaves.len() == 1 {
        leaves[0]
    } else {
        root_of(level_up(leaves))
    }
}

/// What the verifier rebuilds from a window of nodes starting at position
/// `pos` of some level, consuming left and right siblings bottom-up: the
/// root it arrives at, or `None` for a proof whose siblings cannot be
/// consumed.
pub open spec fn rebuild(
    pos: nat,
    window: Seq<Seq<u8>>,
    ls: Seq<Seq<u8>>,
    rs: Seq<Seq<u8>>,
) -> Option<Seq<u8>>
    decreases window.len() + ls.len() + rs.len(), pos,
{
    if window.len() == 0 {
        None
    } else if window.len() == 1 && ls.len() == 0 && rs.len() == 0 {
        Some(window[0])
    } else if pos % 2 == 1 && ls.len() == 0 {
        None
    } else if pos % 2 == 0 && window.len() == 1 && rs.len() == 0 && pos == 0 {
        None
    } else {
        let a: nat = pos % 2;
        let w0 = if a == 1 {
            seq![ls[0]] + window
        } else {
            window
        };
        let ls1 = if a == 1 {
            ls.drop_first()
        } else {
            ls
        };
        let use_r = w0.len() % 2 == 1 && rs.len() > 0;
        let w1 = if use_r {
            w0.push(rs[0])
        } else {
            w0
        };
        let rs1 = if use_r {
            rs.drop_first()
        } else {
            rs
        };
        rebuild(pos / 2, level_up(w1), ls1, rs1)
    }
}

/// The mathematical model of an accumulator range proof.
#[verifier::ext_equal]
pub struct AccumulatorRangeProofModel {
    pub left_siblings: Seq<Seq<u8>>,
    pub right_siblings: Seq<Seq<u8>>,
}

/// A proof that a contiguous run of leaves is exactly the stated range of
/// a root-hash-committed accumulator: the sibling hashes needed to rebuild
/// the root, bottom-up, on each side of the run.
#[derive(Debug, PartialEq, Eq)]
pub struct AccumulatorRangeProof {
    pub left_siblings: Vec<HashValue>,
    pub right_siblings: Vec<HashValue>,
}

impl View for AccumulatorRangeProof {
    type V = AccumulatorRangeProofModel;

    open spec fn view(&self) -> AccumulatorRangeProofModel {
        AccumulatorRangeProofModel {
            left_siblings: hashes_of(self.left_siblings@),
            right_siblings: hashes_of(self.right_siblings@),
        }
    }
}

/// What range verification decides: an empty range checks the proof is
/// empty and the root is the defined empty root; a non-empty range must
/// rebuild exactly the trusted root.
pub open spec fn range_check_spec(
    root: Seq<u8>,
    first: u64,
    leaves: Seq<Seq<u8>>,
    p: AccumulatorRangeProofModel,
) -> Result<(), VerifyError> {
    if leaves.len() == 0 {
        if p.left_siblings.len() == 0 && p.right_siblings.len() == 0 && root == empty_root() {
            Ok(())
        } else {
            Err(VerifyError::ProofVerificationFailed)
        }
    } else {
        if rebuild(first as nat, leaves, p.left_siblings, p.right_siblings) == Some(root) {
            Ok(())
        } else {
            Err(VerifyError::ProofVerificationFailed)
        }
    }
}

/// Combines two child hashes into their parent's hash.
pub fn combine(l: &HashValue, r: &HashValue) -> (h: HashValue)
    ensures
        h@ == node_hash(l@, r@),
        h.wf(),
{
    let mut bytes: Vec<u8> = Vec::new();
    bytes.push(1u8);
    append_bytes(&mut bytes, l.as_bytes().as_slice());
    append_bytes(&mut bytes, r.as_bytes().as_slice());
    proof {
        assert(bytes@ =~= seq![1u8] + l@ + r@);
    }
    HashValue::digest_of(bytes.as_slice())
}

/// One bottom-up combination step over concrete hash values.
fn level_up_exec(cur: &Vec<HashValue>) -> (next: Vec<HashValue>)
    requires
        cur@.len() >= 1,
    ensures
        hashes_of(next@) == level_up(hashes_of(cur@)),
        next@.len() == (cur@.len() + 1) / 2,
{
    let mut next: Vec<HashValue> = Vec::new();
    let mut i: usize = 0;
    while i < cur.len() / 2
        invariant
            cur@.len() >= 1,
            i <= cur@.len() / 2,
            next@.len() == i,
            forall|j: int|
                0 <= j < i ==> #[trigger] next@[j]@ == node_hash(
                    cur@[2 * j]@,
                    cur@[2 * j + 1]@,
                ),
        decreases cur@.len() / 2 - i,
    {
        next.push(combine(&cur[2 * i], &cur[2 * i + 1]));
        i = i + 1;
    }
    if cur.len() % 2 == 1 {
        next.push(cur[cur.len() - 1].clone());
    }
    proof {
        assert(hashes_of(next@) =~= level_up(hashes_of(cur@)));
    }
    next
}

/// A fresh copy of a list of hash values.
fn clone_hashes(v: &Vec<HashValue>) -> (r: Vec<HashValue>)
    ensures
        hashes_of(r@) == hashes_of(v@),
        r@.len() == v@.len(),
{
    let mut r: Vec<HashValue> = Vec::new();
    let mut i: usize = 0;
    while i < v.len()
        invariant
            i <= v@.len(),
            r@.len() == i,
            forall|j: int| 0 <= j < i ==> #[trigger] r@[j]@ == v@[j]@,
        decreases v@.len() - i,
    {
        r.push(v[i].clone());
        i = i + 1;
    }
    proof {
        assert(hashes_of(r@) =~= hashes_of(v@));
    }
    r
}

/// Whether a hash value is the defined empty-accumulator root.
fn is_empty_root(h: &HashValue) -> (r: bool)
    ensures
        r == (h@ == empty_root()),
{
    let bytes = h.as_bytes();
    if bytes.len() != 32 {
        proof {
            assert(h@ != empty_root());
        }
        return false;
    }
    let mut i: usize = 0;
    while i < bytes.len()
        invariant
            i <= bytes@.len(),
            bytes@.len() == 32,
            bytes@ == h@,
            forall|j: int| 0 <= j < i ==> h@[j] == 0u8,
        decreases bytes@.len() - i,
    {
        if bytes[i] != 0u8 {
            proof {
                assert(h@[i as int] != empty_root()[i as int]);
            }
            return false;
        }
        i = i + 1;
    }
    proof {
        assert(h@ =~= empty_root());
    }
    true
}

/// Computes the accumulator root of a sequence of leaf hashes.
pub fn accumulator_root(leaves: &Vec<HashValue>) -> (r: HashValue)
    ensures
        r@ == root_of(hashes_of(leaves@)),
{
    if leaves.len() == 0 {
        let mut bytes: Vec<u8> = Vec::new();
        let mut i: usize = 0;
        while i < 32
            invariant
                i <= 32,
                bytes@.len() == i,
                forall|j: int| 0 <= j < i ==> bytes@[j] == 0u8,
            decreases 32 - i,
        {
            bytes.push(0u8);
            i = i + 1;
        }
        proof {
            assert(bytes@ =~= empty_root());
        }
        let h = HashValue::from_vec(bytes);
        match h {
            Some(h) => h,
            None => {
                proof {
                    assert(false);
                }
                unreached()
            },
        }
    } else {
        let mut current = clone_hashes(leaves);
        while current.len() > 1
            invariant
                current@.len() >= 1,
                root_of(hashes_of(current@)) == root_of(hashes_of(leaves@)),
            decreases current@.len(),
        {
            current = level_up_exec(&current);
        }
        let r = current[0].clone();
        proof {
            assert(root_of(hashes_of(current@)) == hashes_of(current@)[0]);
        }
        r
    }
}

/// Verifies that `leaf_hashes` is exactly the run of leaves starting at
/// `first_index` of the accumulator committed to by `root`.
///
/// The rebuilt root must equal `root` bit for bit; an empty range verifies
/// only against the defined empty root, with an empty proof.
pub fn verify_range(
    root: &HashValue,
    first_index: u64,
    leaf_hashes: &Vec<HashValue>,
    proof: &AccumulatorRangeProof,
) -> (r: Result<(), VerifyError>)
    ensures
        r == range_check_spec(root@, first_index, hashes_of(leaf_hashes@), proof@),
{
    let ghost leaves0 = hashes_of(leaf_hashes@);
    let ghost ls0 = proof@.left_siblings;
    let ghost rs0 = proof@.right_siblings;
    if leaf_hashes.len() == 0 {
        if proof.left_siblings.len() == 0 && proof.right_siblings.len() == 0 && is_empty_root(
            root,
        ) {
            Ok(())
        } else {
            Err(VerifyError::ProofVerificationFailed)
        }
    } else {
        let ls_len = proof.left_siblings.len();
        let rs_len = proof.right_siblings.len();
        let mut window = clone_hashes(leaf_hashes);
        let mut pos: u64 = first_index;
        let mut li: usize = 0;
        let mut ri: usize = 0;
        proof {
            assert(ls0.skip(0) =~= ls0);
            assert(rs0.skip(0) =~= rs0);
        }
        while window.len() > 1 || li < ls_len || ri < rs_len
            invariant
                window@.len() >= 1,
                li <= ls_len,
                ri <= rs_len,
                ls0 == proof@.left_siblings,
                rs0 == proof@.right_siblings,
                leaves0 == hashes_of(leaf_hashes@),
                leaves0.len() >= 1,
                ls_len == ls0.len(),
                rs_len == rs0.len(),
                rebuild(
                    pos as nat,
                    hashes_of(window@),
                    ls0.skip(li as int),
                    rs0.skip(ri as int),
                ) == rebuild(first_index as nat, leaves0, ls0, rs0),
            decreases window@.len() + (ls_len - li) + (rs_len - ri), pos,
        {
            let ghost win = hashes_of(window@);
            let ghost lsk = ls0.skip(li as int);
            let ghost rsk = rs0.skip(ri as int);
            if pos % 2 == 1 && li == ls_len {
                proof {
                    assert(rebuild(pos as nat, win, lsk, rsk) is None);
                    assert(rebuild(first_index as nat, leaves0, ls0, rs0) is None);
                }
                return Err(VerifyError::ProofVerificationFailed);
            }
            if pos % 2 == 0 && window.len() == 1 && ri == rs_len && pos == 0 {
                proof {
                    assert(rebuild(pos as nat, win, lsk, rsk) is None);
                    assert(rebuild(first_index as nat, leaves0, ls0, rs0) is None);
                }
                return Err(VerifyError::ProofVerificationFailed);
            }
            let took_left: bool = pos % 2 == 1;
            let ghost a: int = if took_left { 1 } else { 0 };
            let mut run: Vec<HashValue> = Vec::new();
            if took_left {
                run.push(proof.left_siblings[li].clone());
                li = li + 1;
            }
            let mut j: usize = 0;
            while j < window.len()
                invariant
                    j <= window@.len(),
                    a == (if took_left { 1int } else { 0int }),
                    run@.len() == j + a,
                    took_left ==> lsk.len() >= 1 && run@[0]@ == lsk[0],
                    win == hashes_of(window@),
                    forall|t: int| 0 <= t < j ==> run@[a + t]@ == #[trigger] win[t],
                decreases window@.len() - j,
            {
                run.push(window[j].clone());
                j = j + 1;
            }
            proof {
                if took_left {
                    assert(hashes_of(run@) =~= seq![lsk[0]] + win);
                } else {
                    assert(hashes_of(run@) =~= win);
                }
            }
            let ghost w0 = hashes_of(run@);
            if run.len() % 2 == 1 && ri < rs_len {
                run.push(proof.right_siblings[ri].clone());
                ri = ri + 1;
                proof {
                    assert(hashes_of(run@) =~= w0.push(rsk[0]));
                }
            }
            let next = level_up_exec(&run);
            window = next;
            let ghost oldpos = pos as nat;
            pos = pos / 2;
            proof {
                assert(ls0.skip(li as int) =~= if oldpos % 2 == 1 {
                    lsk.drop_first()
                } else {
                    lsk
                });
                assert(rs0.skip(ri as int) =~= if w0.len() % 2 == 1 && rsk.len() > 0 {
                    rsk.drop_first()
                } else {
                    rsk
                });
                assert(rebuild(oldpos, win, lsk, rsk) == rebuild(
                    pos as nat,
                    hashes_of(window@),
                    ls0.skip(li as int),
                    rs0.skip(ri as int),
                ));
            }
        }
        proof {
            assert(ls0.skip(li as int) =~= Seq::<Seq<u8>>::empty());
            assert(rs0.skip(ri as int) =~= Seq::<Seq<u8>>::empty());
            assert(rebuild(first_index as nat, leaves0, ls0, rs0) == Some(
                hashes_of(window@)[0],
            ));
        }
        if window[0].equals(root) {
            Ok(())
        } else {
            Err(VerifyError::ProofVerificationFailed)
        }
    }
}

/// The sibling hashes an honest prover supplies for the run `[l, r)` of a
/// level, bottom-up: the node left of the run where the run starts at an
/// odd position, and the node right of it where the run ends at an even
/// position short of the frontier.
pub open spec fn gen_siblings(level: Seq<Seq<u8>>, l: int, r: int) -> (Seq<Seq<u8>>, Seq<Seq<u8>>)
    decreases level.len(),
{
    if level.len() <= 1 {
        (Seq::empty(), Seq::empty())
    } else {
        let lsib: Seq<Seq<u8>> = if l % 2 == 1 {
            seq![level[l - 1]]
        } else {
            Seq::empty()
        };
        let rsib: Seq<Seq<u8>> = if (r - 1) % 2 == 0 && r < level.len() {
            seq![level[r]]
        } else {
            Seq::empty()
        };
        let rest = gen_siblings(level_up(level), l / 2, (r - 1) / 2 + 1);
        (lsib + rest.0, rsib + rest.1)
    }
}

/// Combining a run of a level slice gives the matching slice of the
/// combined level, provided the run starts at an even position and either
/// ends on a pair boundary or reaches the frontier.
pub proof fn lemma_level_up_slice(level: Seq<Seq<u8>>, s: int, e: int)
    requires
        0 <= s < e <= level.len(),
        s % 2 == 0,
        (e - s) % 2 == 0 || e == level.len(),
    ensures
        level_up(level.subrange(s, e)) =~= level_up(level).subrange(s / 2, (e + 1) / 2),
{
    let sub = level.subrange(s, e);
    let lhs = level_up(sub);
    let rhs = level_up(level).subrange(s / 2, (e + 1) / 2);
    assert(lhs.len() == rhs.len());
    assert forall|i: int| 0 <= i < lhs.len() implies lhs[i] == rhs[i] by {
        assert(rhs[i] == level_up(level)[s / 2 + i]);
        assert(2 * (s / 2 + i) == s + 2 * i);
        if 2 * i + 1 < sub.len() {
            assert(lhs[i] == node_hash(level[s + 2 * i], level[s + 2 * i + 1]));
            assert(s + 2 * i + 1 < level.len());
        } else {
            assert(lhs[i] == level[s + 2 * i]);
            assert(!(s + 2 * i + 1 < level.len()));
        }
    };
}

/// A run that reaches the right frontier needs no right siblings, at this
/// level or above.
pub proof fn lemma_gen_right_frontier(level: Seq<Seq<u8>>, l: int, r: int)
    requires
        0 <= l < r,
        r == level.len(),
    ensures
        gen_siblings(level, l, r).1 =~= Seq::<Seq<u8>>::empty(),
    decreases level.len(),
{
    if level.len() > 1 {
        let n = level.len() as int;
        let rp = (r - 1) / 2 + 1;
        assert(rp == level_up(level).len());
        lemma_gen_right_frontier(level_up(level), l / 2, rp);
    }
}

/// A run with no left siblings at any level starts at the very left edge.
pub proof fn lemma_gen_left_empty(level: Seq<Seq<u8>>, l: int, r: int)
    requires
        0 <= l < r <= level.len(),
        gen_siblings(level, l, r).0.len() == 0,
    ensures
        l == 0,
    decreases level.len(),
{
    if level.len() > 1 {
        let rp = (r - 1) / 2 + 1;
        assert(l % 2 == 0);
        lemma_gen_left_empty(level_up(level), l / 2, rp);
    }
}

/// Accumulator round-trip: for any level and any contiguous run of its
/// nodes, rebuilding from the run with the honestly generated siblings
/// arrives exactly at the accumulator root of the level.
pub proof fn lemma_range_proof_round_trip(level: Seq<Seq<u8>>, l: int, r: int)
    requires
        0 <= l < r <= level.len(),
    ensures
        rebuild(
            l as nat,
            level.subrange(l, r),
            gen_siblings(level, l, r).0,
            gen_siblings(level, l, r).1,
        ) == Some(root_of(level)),
    decreases level.len(),
{
    let n = level.len() as int;
    let win = level.subrange(l, r);
    let g = gen_siblings(level, l, r);
    let ls = g.0;
    let rs = g.1;
    if n == 1 {
        assert(win.len() == 1);
        assert(win[0] == level[0]);
    } else {
        let level2 = level_up(level);
        let lsib: Seq<Seq<u8>> = if l % 2 == 1 {
            seq![level[l - 1]]
        } else {
            Seq::empty()
        };
        let rsib: Seq<Seq<u8>> = if (r - 1) % 2 == 0 && r < n {
            seq![level[r]]
        } else {
            Seq::empty()
        };
        let rp = (r - 1) / 2 + 1;
        let rest = gen_siblings(level2, l / 2, rp);
        assert(ls == lsib + rest.0);
        assert(rs == rsib + rest.1);
        assert(0 <= l / 2 < rp <= level2.len());
        // the rebuild cannot stop early: a one-node window with no
        // siblings at all would put the run at the left edge and the right
        // frontier at once, making this the top level
        if win.len() == 1 && ls.len() == 0 && rs.len() == 0 {
            lemma_gen_left_empty(level, l, r);
            assert(r == 1);
            assert(rsib.len() == 0);
            assert((r - 1) % 2 == 0);
            assert(!(r < n));
            assert(false);
        }
        if l % 2 == 1 {
            assert(lsib =~= seq![level[l - 1]]);
            assert(ls.len() >= 1 && ls[0] == level[l - 1]);
            assert(ls.drop_first() =~= rest.0);
        } else {
            assert(ls =~= rest.0);
        }
        // the stuck case cannot arise either
        if l == 0 && win.len() == 1 && rs.len() == 0 {
            assert(r == 1);
            assert((r - 1) % 2 == 0);
            assert(!(r < n));
            assert(false);
        }
        let a = l % 2;
        let w0 = if a == 1 {
            seq![ls[0]] + win
        } else {
            win
        };
        assert(w0 =~= level.subrange(l - a, r));
        assert(w0.len() == r - (l - a));
        let ls1 = if a == 1 {
            ls.drop_first()
        } else {
            ls
        };
        assert(ls1 == rest.0);
        if w0.len() % 2 == 1 {
            assert((r - 1) % 2 == 0);
            if r < n {
                assert(rsib =~= seq![level[r]]);
                assert(rs.len() >= 1 && rs[0] == level[r]);
                assert(rs.drop_first() =~= rest.1);
                let w1 = w0.push(rs[0]);
                assert(w1 =~= level.subrange(l - a, r + 1));
                lemma_level_up_slice(level, l - a, r + 1);
                assert((l - a) / 2 == l / 2);
                assert((r + 2) / 2 == rp);
                assert(level_up(w1) == level2.subrange(l / 2, rp));
                lemma_range_proof_round_trip(level2, l / 2, rp);
                assert(rebuild(l as nat, win, ls, rs) == rebuild(
                    (l / 2) as nat,
                    level_up(w1),
                    rest.0,
                    rest.1,
                ));
            } else {
                lemma_gen_right_frontier(level, l, r);
                assert(rs.len() == 0);
                lemma_level_up_slice(level, l - a, r);
                assert((l - a) / 2 == l / 2);
                assert((r + 1) / 2 == rp);
                assert(level_up(w0) == level2.subrange(l / 2, rp));
                lemma_range_proof_round_trip(level2, l / 2, rp);
                assert(rebuild(l as nat, win, ls, rs) == rebuild(
                    (l / 2) as nat,
                    level_up(w0),
                    rest.0,
                    rest.1,
                ));
            }
        } else {
            assert((r - 1) % 2 == 1);
            assert(rsib.len() == 0);
            assert(rs =~= rest.1);
            lemma_level_up_slice(level, l - a, r);
            assert((l - a) / 2 == l / 2);
            assert((r + 1) / 2 == rp);
            assert(level_up(w0) == level2.subrange(l / 2, rp));
            lemma_range_proof_round_trip(level2, l / 2, rp);
            assert(rebuild(l as nat, win, ls, rs) == rebuild(
                (l / 2) as nat,
                level_up(w0),
                rest.0,
                rest.1,
            ));
        }
        assert(root_of(level) == root_of(level2));
    }
}

/// Builds the range proof for the run `[first, first + count)` of
/// `leaves`: exactly the sibling hashes the verifier will consume.
pub fn gen_range_proof(leaves: &Vec<HashValue>, first: usize, count: usize) -> (p:
    AccumulatorRangeProof)
    requires
        1 <= count,
        first + count <= leaves@.len(),
    ensures
        p@.left_siblings == gen_siblings(
            hashes_of(leaves@),
            first as int,
            first + count,
        ).0,
        p@.right_siblings == gen_siblings(
            hashes_of(leaves@),
            first as int,
            first + count,
        ).1,
{
    let ghost level0 = hashes_of(leaves@);
    let ghost l0: int = first as int;
    let ghost r0: int = first + count;
    let n = leaves.len();
    let mut cur = clone_hashes(leaves);
    let mut l: usize = first;
    let mut r: usize = first + count;
    let mut left: Vec<HashValue> = Vec::new();
    let mut right: Vec<HashValue> = Vec::new();
    while cur.len() > 1
        invariant
            1 <= cur@.len(),
            l < r <= cur@.len(),
            level0 == hashes_of(leaves@),
            l0 == first as int,
            r0 == first + count,
            gen_siblings(level0, l0, r0).0 == hashes_of(left@) + gen_siblings(
                hashes_of(cur@),
                l as int,
                r as int,
            ).0,
            gen_siblings(level0, l0, r0).1 == hashes_of(right@) + gen_siblings(
                hashes_of(cur@),
                l as int,
                r as int,
            ).1,
        decreases cur@.len(),
    {
        let ghost curv = hashes_of(cur@);
        let ghost lefts0 = hashes_of(left@);
        let ghost rights0 = hashes_of(right@);
        let ghost lsib: Seq<Seq<u8>> = if l % 2 == 1 {
            seq![curv[l - 1]]
        } else {
            Seq::empty()
        };
        let ghost rsib: Seq<Seq<u8>> = if (r - 1) % 2 == 0 && r < cur@.len() {
            seq![curv[r as int]]
        } else {
            Seq::empty()
        };
        if l % 2 == 1 {
            left.push(cur[l - 1].clone());
        }
        proof {
            assert(hashes_of(left@) =~= lefts0 + lsib);
        }
        if (r - 1) % 2 == 0 && r < cur.len() {
            right.push(cur[r].clone());
        }
        proof {
            assert(hashes_of(right@) =~= rights0 + rsib);
        }
        let ghost oldl: int = l as int;
        let ghost oldr: int = r as int;
        let next = level_up_exec(&cur);
        cur = next;
        l = l / 2;
        r = (r - 1) / 2 + 1;
        proof {
            let rest = gen_siblings(hashes_of(cur@), l as int, r as int);
            assert(gen_siblings(curv, oldl, oldr).0 == lsib + rest.0);
            assert(gen_siblings(curv, oldl, oldr).1 == rsib + rest.1);
            assert((lefts0 + lsib) + rest.0 =~= lefts0 + (lsib + rest.0));
            assert((rights0 + rsib) + rest.1 =~= rights0 + (rsib + rest.1));
        }
    }
    proof {
        assert(gen_siblings(hashes_of(cur@), l as int, r as int).0 =~= Seq::<Seq<u8>>::empty());
        assert(gen_siblings(hashes_of(cur@), l as int, r as int).1 =~= Seq::<Seq<u8>>::empty());
        assert(hashes_of(left@) + Seq::<Seq<u8>>::empty() =~= hashes_of(left@));
        assert(hashes_of(right@) + Seq::<Seq<u8>>::empty() =~= hashes_of(right@));
    }
    AccumulatorRangeProof { left_siblings: left, right_siblings: right }
}

/// Accumulator round-trip law: for an accumulator built from any leaves,
/// the honestly generated proof for any non-empty contiguous subrange
/// rebuilds exactly the accumulator's root, so range verification accepts
/// it.
pub proof fn lemma_accumulator_round_trip(leaves: Seq<Seq<u8>>, first: u64, count: int)
    requires
        1 <= count,
        first + count <= leaves.len(),
    ensures
        range_check_spec(
            root_of(leaves),
            first,
            leaves.subrange(first as int, first as int + count),
            AccumulatorRangeProofModel {
                left_siblings: gen_siblings(leaves, first as int, first as int + count).0,
                right_siblings: gen_siblings(leaves, first as int, first as int + count).1,
            },
        ) == Ok::<(), VerifyError>(()),
{
    lemma_range_proof_round_trip(leaves, first as int, first as int + count);
}

} // verus!
