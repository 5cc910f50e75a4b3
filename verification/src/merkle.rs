//! Canonical Merkle tree over an ordered sequence of 32-byte leaf hashes.
//!
//! Children are combined in leaf-index order; an odd node at the end of a
//! level is promoted unchanged to the next level. A multi-proof for a set of
//! leaf indices is the minimal set of sibling hashes, each tagged with its
//! index within its level, emitted level by level in the order a verifier
//! consumes them.

use vstd::prelude::*;

use crate::hashing::hash_pair;
use crate::hashing::node_hash;

verus! {

/// The index of a node's sibling within its level.
pub open spec fn sib(i: int) -> int {
    if i % 2 == 0 {
        i + 1
    } else {
        i - 1
    }
}

/// One level up: adjacent pairs are combined in index order, a trailing
/// unpaired node is promoted unchanged.
pub open spec fn next_level(l: Seq<[u8; 32]>) -> Seq<[u8; 32]> {
    Seq::new(((l.len() + 1) / 2) as nat, |i: int|
        if 2 * i + 1 < l.len() {
            node_hash(l[2 * i], l[2 * i + 1])
        } else {
            l[2 * i]
        }
    )
}

/// The root obtained by repeatedly combining levels; meaningful for a
/// non-empty leaf sequence.
pub open spec fn root_of(l: Seq<[u8; 32]>) -> [u8; 32]
    recommends
        l.len() >= 1,
    decreases l.len(),
{
    if l.len() <= 1 {
        l[0]
    } else {
        root_of(next_level(l))
    }
}

/// Indices are strictly ascending and within the leaf count.
pub open spec fn idx_ok(idx: Seq<usize>, len: int) -> bool {
    &&& forall|m: int| 0 <= m < idx.len() ==> #[trigger] idx[m] < len
    &&& forall|m: int| 0 <= m < idx.len() - 1 ==> #[trigger] idx[m] < idx[m + 1]
}

/// The sibling hashes this level contributes to a multi-proof, walking the
/// known indices from position `k`: a pair of known siblings needs nothing, a
/// known node whose sibling exists but is unknown contributes that sibling,
/// and a trailing node without a sibling contributes nothing.
pub open spec fn level_proof_from(idx: Seq<usize>, l: Seq<[u8; 32]>, k: int) -> Seq<(usize, [u8; 32])>
    decreases idx.len() - k,
{
    if k < 0 || k >= idx.len() {
        Seq::empty()
    } else {
        let i = idx[k] as int;
        if k + 1 < idx.len() && idx[k + 1] == i + 1 && i % 2 == 0 {
            level_proof_from(idx, l, k + 2)
        } else if sib(i) < l.len() {
            seq![(sib(i) as usize, l[sib(i)])] + level_proof_from(idx, l, k + 1)
        } else {
            level_proof_from(idx, l, k + 1)
        }
    }
}

/// The known indices at the next level: each processed node or pair yields
/// its parent index.
pub open spec fn next_idx_from(idx: Seq<usize>, k: int) -> Seq<usize>
    decreases idx.len() - k,
{
    if k < 0 || k >= idx.len() {
        Seq::empty()
    } else {
        let i = idx[k] as int;
        if k + 1 < idx.len() && idx[k + 1] == i + 1 && i % 2 == 0 {
            seq![(i / 2) as usize] + next_idx_from(idx, k + 2)
        } else {
            seq![(i / 2) as usize] + next_idx_from(idx, k + 1)
        }
    }
}

/// The full multi-proof: each level's sibling hashes, bottom to top.
pub open spec fn multi_proof_spec(idx: Seq<usize>, l: Seq<[u8; 32]>) -> Seq<(usize, [u8; 32])>
    decreases l.len(),
{
    if l.len() <= 1 {
        Seq::empty()
    } else {
        level_proof_from(idx, l, 0) + multi_proof_spec(next_idx_from(idx, 0), next_level(l))
    }
}

/// The (index, hash) pairs a verifier starts from: the leaves at the chosen
/// indices.
pub open spec fn known_of(idx: Seq<usize>, l: Seq<[u8; 32]>) -> Seq<(usize, [u8; 32])> {
    Seq::new(idx.len(), |k: int| (idx[k], l[idx[k] as int]))
}

/// One verification step over a level, walking the known nodes from position
/// `k` and consuming sibling hashes from the front of `pf`: returns the known
/// nodes of the next level and the unconsumed remainder of `pf`, or `None`
/// when the proof does not supply the sibling the position demands.
pub open spec fn step_from(
    known: Seq<(usize, [u8; 32])>,
    pf: Seq<(usize, [u8; 32])>,
    len: int,
    k: int,
) -> Option<(Seq<(usize, [u8; 32])>, Seq<(usize, [u8; 32])>)>
    decreases known.len() - k,
{
    if k < 0 || k >= known.len() {
        Some((Seq::empty(), pf))
    } else {
        let i = known[k].0 as int;
        let h = known[k].1;
        if k + 1 < known.len() && known[k + 1].0 == i + 1 && i % 2 == 0 {
            match step_from(known, pf, len, k + 2) {
                None => None,
                Some((nk, rest)) => Some(
                    (seq![((i / 2) as usize, node_hash(h, known[k + 1].1))] + nk, rest),
                ),
            }
        } else if sib(i) < len {
            if pf.len() >= 1 && pf[0].0 == sib(i) {
                let combined = if i % 2 == 0 {
                    node_hash(h, pf[0].1)
                } else {
                    node_hash(pf[0].1, h)
                };
                match step_from(known, pf.skip(1), len, k + 1) {
                    None => None,
                    Some((nk, rest)) => Some((seq![((i / 2) as usize, combined)] + nk, rest)),
                }
            } else {
                None
            }
        } else {
            match step_from(known, pf, len, k + 1) {
                None => None,
                Some((nk, rest)) => Some((seq![((i / 2) as usize, h)] + nk, rest)),
            }
        }
    }
}

/// Whether the proof reconstructs `root` from the known nodes, over a level
/// of `len` nodes.
pub open spec fn verify_rec(
    known: Seq<(usize, [u8; 32])>,
    pf: Seq<(usize, [u8; 32])>,
    len: int,
    root: [u8; 32],
) -> bool
    decreases len,
{
    if len <= 0 {
        false
    } else if len == 1 {
        pf.len() == 0 && (known.len() == 0 || (known.len() == 1 && known[0].0 == 0
            && known[0].1 == root))
    } else {
        match step_from(known, pf, len, 0) {
            None => false,
            Some((nk, rest)) => verify_rec(nk, rest, (len + 1) / 2, root),
        }
    }
}

/// Whether `pf` proves that the leaves in `known` stand at their stated
/// positions in a tree of `leaf_count` leaves with the given root.
pub open spec fn verify_spec(
    leaf_count: int,
    known: Seq<(usize, [u8; 32])>,
    pf: Seq<(usize, [u8; 32])>,
    root: [u8; 32],
) -> bool {
    verify_rec(known, pf, leaf_count, root)
}

/// A Merkle tree kept as its full sequence of levels, leaves first.
pub struct MerkleTree {
    levels: Vec<Vec<[u8; 32]>>,
}

impl MerkleTree {
    /// The levels as mathematical sequences.
    pub closed spec fn levels_seq(&self) -> Seq<Seq<[u8; 32]>> {
        self.levels@.map_values(|v: Vec<[u8; 32]>| v@)
    }

    /// The leaf sequence the tree was built from.
    pub closed spec fn leaves(&self) -> Seq<[u8; 32]> {
        self.levels_seq()[0]
    }

    /// Structural soundness: every level is the combination of the one below,
    /// and the top level holds the single root.
    pub closed spec fn wf(&self) -> bool {
        &&& self.levels_seq().len() >= 1
        &&& self.levels_seq()[self.levels_seq().len() - 1].len() == 1
        &&& forall|j: int| 0 <= j < self.levels_seq().len() - 1 ==> (#[trigger] self.levels_seq()[j]).len()
            >= 2
        &&& forall|j: int| 0 <= j < self.levels_seq().len() - 1 ==> #[trigger] self.levels_seq()[
            j + 1
        ] == next_level(self.levels_seq()[j])
    }

    /// Builds the tree from a non-empty leaf sequence.
    pub fn from_leaves(leaf_hashes: &Vec<[u8; 32]>) -> (r: MerkleTree)
        requires
            leaf_hashes@.len() >= 1,
        ensures
            r.wf(),
            r.leaves() == leaf_hashes@,
    {
        let base = copy_hashes(leaf_hashes);
        let mut levels: Vec<Vec<[u8; 32]>> = Vec::new();
        levels.push(base);
        while levels[levels.len() - 1].len() > 1
            invariant
                levels@.len() >= 1,
                levels@[0]@ == leaf_hashes@,
                forall|j: int| 0 <= j < levels@.len() - 1 ==> (#[trigger] levels@[j]@).len() >= 2,
                forall|j: int| 0 <= j < levels@.len() - 1 ==> #[trigger] levels@[j + 1]@
                    == next_level(levels@[j]@),
                forall|j: int| 0 <= j < levels@.len() ==> (#[trigger] levels@[j]@).len() >= 1,
            decreases levels@[levels@.len() - 1]@.len(),
        {
            let cur_len = levels.len();
            let next = combine_level(&levels[cur_len - 1]);
            levels.push(next);
        }
        let r = MerkleTree { levels };
        proof {
            assert(r.levels_seq().len() == r.levels@.len());
            assert(r.levels_seq()[0] == r.levels@[0]@);
        }
        r
    }

    /// The root hash.
    pub fn root(&self) -> (r: [u8; 32])
        requires
            self.wf(),
        ensures
            r == root_of(self.leaves()),
    {
        proof {
            lemma_root_chain(self.levels_seq(), 0);
        }
        let top = self.levels.len() - 1;
        self.levels[top][0]
    }

    /// The number of leaves.
    pub fn leaf_count(&self) -> (r: usize)
        requires
            self.wf(),
        ensures
            r == self.leaves().len(),
    {
        self.levels[0].len()
    }

    /// The minimal set of sibling hashes needed to recompute the root from
    /// the leaves at `indices`, each tagged with its index within its level,
    /// in verification order. An empty `indices` set yields an empty proof.
    pub fn multi_proof(&self, indices: &Vec<usize>) -> (r: Vec<(usize, [u8; 32])>)
        requires
            self.wf(),
            idx_ok(indices@, self.leaves().len() as int),
        ensures
            r@ == multi_proof_spec(indices@, self.leaves()),
    {
        let mut out: Vec<(usize, [u8; 32])> = Vec::new();
        let mut idx = copy_indices(indices);
        let mut j: usize = 0;
        proof {
            assert(out@ + multi_proof_spec(idx@, self.levels_seq()[0]) =~= multi_proof_spec(
                indices@,
                self.leaves(),
            ));
        }
        while j < self.levels.len() - 1
            invariant
                self.wf(),
                j < self.levels_seq().len(),
                idx_ok(idx@, self.levels_seq()[j as int].len() as int),
                multi_proof_spec(indices@, self.leaves()) == out@ + multi_proof_spec(
                    idx@,
                    self.levels_seq()[j as int],
                ),
            decreases self.levels@.len() - j,
        {
            let level = &self.levels[j];
            let ghost lv = self.levels_seq()[j as int];
            let ghost out_before = out@;
            let ghost idx_before = idx@;
            proof {
                assert(lv == self.levels@[j as int]@);
                lemma_step_preserves_idx_ok(idx@, lv.len() as int, 0);
            }
            let next = emit_level(&idx, level, &mut out);
            idx = next;
            j = j + 1;
            proof {
                assert(self.levels_seq()[j as int] == next_level(lv));
                // unfold the spec one level: the emitted siblings are the
                // spec's level proof, and the remaining work is the spec over
                // the next level
                assert(lv.len() >= 2);
                assert(multi_proof_spec(idx_before, lv) == level_proof_from(idx_before, lv, 0)
                    + multi_proof_spec(next_idx_from(idx_before, 0), next_level(lv)));
                assert(out_before + multi_proof_spec(idx_before, lv) =~= out@ + multi_proof_spec(
                    idx@,
                    self.levels_seq()[j as int],
                ));
            }
        }
        proof {
            assert(self.levels_seq()[j as int].len() == 1);
            assert(multi_proof_spec(idx@, self.levels_seq()[j as int]) =~= Seq::empty());
            assert(out@ =~= multi_proof_spec(indices@, self.leaves()));
        }
        out
    }
}

/// Copies a hash vector.
fn copy_hashes(v: &Vec<[u8; 32]>) -> (r: Vec<[u8; 32]>)
    ensures
        r@ == v@,
{
    let mut r: Vec<[u8; 32]> = Vec::new();
    let mut i: usize = 0;
    while i < v.len()
        invariant
            i <= v@.len(),
            r@ =~= v@.subrange(0, i as int),
        decreases v@.len() - i,
    {
        r.push(v[i]);
        i = i + 1;
    }
    proof {
        assert(r@ =~= v@);
    }
    r
}

/// Copies an index vector.
fn copy_indices(v: &Vec<usize>) -> (r: Vec<usize>)
    ensures
        r@ == v@,
{
    let mut r: Vec<usize> = Vec::new();
    let mut i: usize = 0;
    while i < v.len()
        invariant
            i <= v@.len(),
            r@ =~= v@.subrange(0, i as int),
        decreases v@.len() - i,
    {
        r.push(v[i]);
        i = i + 1;
    }
    proof {
        assert(r@ =~= v@);
    }
    r
}

/// Computes the next level up from a level of at least two nodes.
fn combine_level(level: &Vec<[u8; 32]>) -> (r: Vec<[u8; 32]>)
    requires
        level@.len() >= 1,
    ensures
        r@ == next_level(level@),
{
    let mut r: Vec<[u8; 32]> = Vec::new();
    let mut pos: usize = 0;
    while pos < level.len()
        invariant
            pos <= level@.len(),
            pos == 2 * r@.len() || (pos == 2 * r@.len() - 1 && pos == level@.len()),
            r@ =~= next_level(level@).subrange(0, r@.len() as int),
        decreases level@.len() - pos,
    {
        if pos + 1 < level.len() {
            let h = hash_pair(&level[pos], &level[pos + 1]);
            r.push(h);
            pos = pos + 2;
        } else {
            // the promoted node closes the level
            r.push(level[pos]);
            pos = pos + 1;
        }
        proof {
            assert(r@ =~= next_level(level@).subrange(0, r@.len() as int));
        }
    }
    proof {
        assert(r@.len() == next_level(level@).len());
        assert(r@ =~= next_level(level@));
    }
    r
}

/// Walks one level: appends this level's sibling hashes to `out` and returns
/// the known indices of the next level.
fn emit_level(idx: &Vec<usize>, level: &Vec<[u8; 32]>, out: &mut Vec<(usize, [u8; 32])>) -> (nidx: Vec<
    usize,
>)
    requires
        idx_ok(idx@, level@.len() as int),
    ensures
        final(out)@ == old(out)@ + level_proof_from(idx@, level@, 0),
        nidx@ == next_idx_from(idx@, 0),
{
    let ghost out0 = out@;
    let mut nidx: Vec<usize> = Vec::new();
    let mut k: usize = 0;
    while k < idx.len()
        invariant
            idx_ok(idx@, level@.len() as int),
            k <= idx@.len(),
            out0 + level_proof_from(idx@, level@, 0) == out@ + level_proof_from(
                idx@,
                level@,
                k as int,
            ),
            next_idx_from(idx@, 0) == nidx@ + next_idx_from(idx@, k as int),
        decreases idx@.len() - k,
    {
        let i = idx[k];
        assert(i < level@.len());
        if i % 2 == 0 && k + 1 < idx.len() && idx[k + 1] == i + 1 {
            nidx.push(i / 2);
            proof {
                assert(next_idx_from(idx@, k as int) =~= seq![((i as int) / 2) as usize]
                    + next_idx_from(idx@, k + 2));
                assert(next_idx_from(idx@, 0) =~= nidx@ + next_idx_from(idx@, k + 2));
                assert(level_proof_from(idx@, level@, k as int) == level_proof_from(
                    idx@,
                    level@,
                    k + 2,
                ));
            }
            k = k + 2;
        } else {
            let s = if i % 2 == 0 {
                i + 1
            } else {
                i - 1
            };
            proof {
                assert(s as int == sib(i as int));
            }
            if s < level.len() {
                out.push((s, level[s]));
                proof {
                    assert(level_proof_from(idx@, level@, k as int) =~= seq![
                        (s, level@[s as int]),
                    ] + level_proof_from(idx@, level@, k + 1));
                    assert(out@ + level_proof_from(idx@, level@, k + 1) =~= out0
                        + level_proof_from(idx@, level@, 0));
                }
            } else {
                proof {
                    assert(level_proof_from(idx@, level@, k as int) == level_proof_from(
                        idx@,
                        level@,
                        k + 1,
                    ));
                }
            }
            nidx.push(i / 2);
            proof {
                assert(next_idx_from(idx@, k as int) =~= seq![((i as int) / 2) as usize]
                    + next_idx_from(idx@, k + 1));
                assert(next_idx_from(idx@, 0) =~= nidx@ + next_idx_from(idx@, k + 1));
            }
            k = k + 1;
        }
    }
    proof {
        assert(out@ =~= out0 + level_proof_from(idx@, level@, 0));
        assert(nidx@ =~= next_idx_from(idx@, 0));
    }
    nidx
}

/// Compares two 32-byte hashes.
pub fn hash_eq(a: &[u8; 32], b: &[u8; 32]) -> (r: bool)
    ensures
        r == (*a == *b),
{
    let mut i: usize = 0;
    while i < 32
        invariant
            i <= 32,
            forall|j: int| 0 <= j < i ==> a@[j] == b@[j],
        decreases 32 - i,
    {
        if a[i] != b[i] {
            return false;
        }
        i = i + 1;
    }
    proof {
        broadcast use vstd::array::axiom_array_ext_equal;

        assert(forall|j: int| 0 <= j < 32 ==> a@[j] == b@[j]);
        assert(*a =~= *b);
    }
    true
}

/// One exec verification step over a level: consumes sibling hashes from `pf`
/// starting at cursor `p0`.
fn step_level_exec(
    known: &Vec<(usize, [u8; 32])>,
    pf: &Vec<(usize, [u8; 32])>,
    len: usize,
    p0: usize,
) -> (r: Option<(Vec<(usize, [u8; 32])>, usize)>)
    requires
        p0 <= pf@.len(),
    ensures
        match r {
            Some(pair) => pair.1 <= pf@.len() && step_from(known@, pf@.skip(p0 as int), len as int, 0)
                == Some((pair.0@, pf@.skip(pair.1 as int))),
            None => step_from(known@, pf@.skip(p0 as int), len as int, 0) is None,
        },
{
    let mut nk: Vec<(usize, [u8; 32])> = Vec::new();
    let mut k: usize = 0;
    let mut p: usize = p0;
    while k < known.len()
        invariant
            p0 <= p <= pf@.len(),
            k <= known@.len(),
            step_from(known@, pf@.skip(p0 as int), len as int, 0) == (match step_from(
                known@,
                pf@.skip(p as int),
                len as int,
                k as int,
            ) {
                None => None::<(Seq<(usize, [u8; 32])>, Seq<(usize, [u8; 32])>)>,
                Some(st) => Some((nk@ + st.0, st.1)),
            }),
        decreases known@.len() - k,
    {
        let (i, h) = known[k];
        if i % 2 == 0 && k + 1 < known.len() && known[k + 1].0 == i + 1 {
            let combined = hash_pair(&h, &known[k + 1].1);
            nk.push((i / 2, combined));
            proof {
                lemma_step_unfold_pair(known@, pf@.skip(p as int), len as int, k as int);
            }
            k = k + 2;
        } else {
            // the sibling index; for an even node i the sum cannot overflow,
            // since usize::MAX is odd
            let s: usize = if i % 2 == 0 {
                i + 1
            } else {
                i - 1
            };
            proof {
                assert(s as int == sib(i as int));
            }
            if s < len {
                if p < pf.len() && pf[p].0 == s {
                    let combined = if i % 2 == 0 {
                        hash_pair(&h, &pf[p].1)
                    } else {
                        hash_pair(&pf[p].1, &h)
                    };
                    nk.push((i / 2, combined));
                    proof {
                        assert(pf@.skip(p as int)[0] == pf@[p as int]);
                        assert(pf@.skip(p as int).skip(1) =~= pf@.skip(p + 1));
                        lemma_step_unfold_sib(known@, pf@.skip(p as int), len as int, k as int);
                    }
                    p = p + 1;
                    k = k + 1;
                } else {
                    proof {
                        assert(pf@.skip(p as int).len() >= 1 ==> pf@.skip(p as int)[0] == pf@[
                            p as int
                        ]);
                        assert(step_from(known@, pf@.skip(p as int), len as int, k as int) is None);
                    }
                    return None;
                }
            } else {
                nk.push((i / 2, h));
                proof {
                    lemma_step_unfold_promote(known@, pf@.skip(p as int), len as int, k as int);
                }
                k = k + 1;
            }
        }
    }
    proof {
        assert(step_from(known@, pf@.skip(p as int), len as int, k as int) == Some(
            (Seq::<(usize, [u8; 32])>::empty(), pf@.skip(p as int)),
        ));
        assert(nk@ + Seq::<(usize, [u8; 32])>::empty() =~= nk@);
    }
    Some((nk, p))
}

/// Checks a multi-proof: reconstructs the root of a tree of `leaf_count`
/// leaves from the leaves in `known` (each at its stated index) and the
/// sibling hashes in `pf`, and compares it against `root`. With an empty
/// `known` set it accepts exactly the empty proof.
pub fn verify_multi_proof(
    leaf_count: usize,
    known: &Vec<(usize, [u8; 32])>,
    pf: &Vec<(usize, [u8; 32])>,
    root: &[u8; 32],
) -> (r: bool)
    ensures
        r == verify_spec(leaf_count as int, known@, pf@, *root),
{
    if leaf_count == 0 {
        return false;
    }
    let mut cur = copy_pairs(known);
    let mut len = leaf_count;
    let mut p: usize = 0;
    proof {
        assert(pf@.skip(0) =~= pf@);
    }
    while len > 1
        invariant
            p <= pf@.len(),
            len >= 1,
            verify_spec(leaf_count as int, known@, pf@, *root) == verify_rec(
                cur@,
                pf@.skip(p as int),
                len as int,
                *root,
            ),
        decreases len,
    {
        match step_level_exec(&cur, pf, len, p) {
            None => {
                return false;
            },
            Some(next) => {
                let ghost prev_len = len as int;
                cur = next.0;
                p = next.1;
                len = len / 2 + len % 2;
                proof {
                    assert(len as int == (prev_len + 1) / 2);
                }
            },
        }
    }
    // top level: the proof must be fully consumed, and the single known node,
    // if any, must be the root at position 0
    if p != pf.len() {
        return false;
    }
    if cur.len() == 0 {
        return true;
    }
    if cur.len() != 1 {
        return false;
    }
    let (pos, h) = cur[0];
    if pos != 0 {
        return false;
    }
    hash_eq(&h, root)
}

/// Copies a vector of (index, hash) pairs.
fn copy_pairs(v: &Vec<(usize, [u8; 32])>) -> (r: Vec<(usize, [u8; 32])>)
    ensures
        r@ == v@,
{
    let mut r: Vec<(usize, [u8; 32])> = Vec::new();
    let mut i: usize = 0;
    while i < v.len()
        invariant
            i <= v@.len(),
            r@ =~= v@.subrange(0, i as int),
        decreases v@.len() - i,
    {
        r.push(v[i]);
        i = i + 1;
    }
    proof {
        assert(r@ =~= v@);
    }
    r
}

// ------------------------------------------------------------------
// Lemmas
// ------------------------------------------------------------------

/// Unfolds one pair step of `step_from` for the exec loop invariant.
proof fn lemma_step_unfold_pair(
    known: Seq<(usize, [u8; 32])>,
    pf: Seq<(usize, [u8; 32])>,
    len: int,
    k: int,
)
    requires
        0 <= k < known.len(),
        k + 1 < known.len(),
        known[k + 1].0 == known[k].0 + 1,
        known[k].0 as int % 2 == 0,
    ensures
        step_from(known, pf, len, k) == (match step_from(known, pf, len, k + 2) {
            None => None::<(Seq<(usize, [u8; 32])>, Seq<(usize, [u8; 32])>)>,
            Some(st) => Some(
                (
                    seq![
                        (((known[k].0 as int) / 2) as usize, node_hash(known[k].1, known[k + 1].1)),
                    ] + st.0,
                    st.1,
                ),
            ),
        }),
{
}

/// Unfolds one sibling-consuming step of `step_from`.
proof fn lemma_step_unfold_sib(
    known: Seq<(usize, [u8; 32])>,
    pf: Seq<(usize, [u8; 32])>,
    len: int,
    k: int,
)
    requires
        0 <= k < known.len(),
        !(k + 1 < known.len() && known[k + 1].0 == known[k].0 + 1 && known[k].0 as int % 2 == 0),
        sib(known[k].0 as int) < len,
        pf.len() >= 1,
        pf[0].0 == sib(known[k].0 as int),
    ensures
        step_from(known, pf, len, k) == (match step_from(known, pf.skip(1), len, k + 1) {
            None => None::<(Seq<(usize, [u8; 32])>, Seq<(usize, [u8; 32])>)>,
            Some(st) => Some(
                (
                    seq![
                        (
                            ((known[k].0 as int) / 2) as usize,
                            if known[k].0 as int % 2 == 0 {
                                node_hash(known[k].1, pf[0].1)
                            } else {
                                node_hash(pf[0].1, known[k].1)
                            },
                        ),
                    ] + st.0,
                    st.1,
                ),
            ),
        }),
{
}

/// Unfolds one promotion step of `step_from`.
proof fn lemma_step_unfold_promote(
    known: Seq<(usize, [u8; 32])>,
    pf: Seq<(usize, [u8; 32])>,
    len: int,
    k: int,
)
    requires
        0 <= k < known.len(),
        !(k + 1 < known.len() && known[k + 1].0 == known[k].0 + 1 && known[k].0 as int % 2 == 0),
        sib(known[k].0 as int) >= len,
    ensures
        step_from(known, pf, len, k) == (match step_from(known, pf, len, k + 1) {
            None => None::<(Seq<(usize, [u8; 32])>, Seq<(usize, [u8; 32])>)>,
            Some(st) => Some(
                (seq![(((known[k].0 as int) / 2) as usize, known[k].1)] + st.0, st.1),
            ),
        }),
{
}

/// The known indices of the next level are again strictly ascending and in
/// range for the next level's length.
pub proof fn lemma_step_preserves_idx_ok(idx: Seq<usize>, len: int, k: int)
    requires
        idx_ok(idx, len),
        0 <= k,
    ensures
        idx_ok(next_idx_from(idx, k), (len + 1) / 2),
        next_idx_from(idx, k).len() > 0 ==> k < idx.len() && next_idx_from(idx, k)[0] == ((
        idx[k] as int) / 2) as usize,
    decreases idx.len() - k,
{
    if k >= idx.len() {
    } else {
        let i = idx[k] as int;
        if k + 1 < idx.len() && idx[k + 1] == i + 1 && i % 2 == 0 {
            lemma_step_preserves_idx_ok(idx, len, k + 2);
            let rest = next_idx_from(idx, k + 2);
            if rest.len() > 0 {
                assert(idx[k + 1] < idx[k + 2]);
                assert(rest[0] == ((idx[k + 2] as int) / 2) as usize);
                assert(i / 2 < (idx[k + 2] as int) / 2);
            }
        } else {
            lemma_step_preserves_idx_ok(idx, len, k + 1);
            let rest = next_idx_from(idx, k + 1);
            if rest.len() > 0 {
                assert(rest[0] == ((idx[k + 1] as int) / 2) as usize);
                let j = idx[k + 1] as int;
                assert(i < j);
                if i % 2 == 0 {
                    assert(j != i + 1);
                    assert(j >= i + 2);
                    assert(i / 2 < j / 2);
                } else {
                    assert(i / 2 < j / 2);
                }
            }
        }
    }
}

/// A verification step applied to the known leaves of a level, against that
/// level's proof followed by anything, combines them into exactly the known
/// nodes of the next level and leaves the remainder untouched.
proof fn lemma_step_level(
    idx: Seq<usize>,
    l: Seq<[u8; 32]>,
    k: int,
    rest: Seq<(usize, [u8; 32])>,
)
    requires
        idx_ok(idx, l.len() as int),
        l.len() >= 2,
        0 <= k,
    ensures
        step_from(known_of(idx, l), level_proof_from(idx, l, k) + rest, l.len() as int, k) == Some(
            (known_of(next_idx_from(idx, k), next_level(l)), rest),
        ),
    decreases idx.len() - k,
{
    let known = known_of(idx, l);
    let nl = next_level(l);
    if k >= idx.len() {
        assert(level_proof_from(idx, l, k) + rest =~= rest);
        assert(known_of(next_idx_from(idx, k), nl) =~= Seq::<(usize, [u8; 32])>::empty());
    } else {
        let i = idx[k] as int;
        assert(known[k].0 == idx[k]);
        assert(known[k].1 == l[i]);
        if k + 1 < idx.len() && idx[k + 1] == i + 1 && i % 2 == 0 {
            lemma_step_level(idx, l, k + 2, rest);
            assert(level_proof_from(idx, l, k) == level_proof_from(idx, l, k + 2));
            assert(known[k + 1].0 == idx[k + 1]);
            assert(known[k + 1].1 == l[i + 1]);
            // the combined node is the parent in the next level
            assert(2 * (i / 2) == i);
            assert(nl[i / 2] == node_hash(l[i], l[i + 1]));
            assert(known_of(next_idx_from(idx, k), nl) =~= seq![
                ((i / 2) as usize, nl[i / 2]),
            ] + known_of(next_idx_from(idx, k + 2), nl));
        } else if sib(i) < l.len() {
            lemma_step_level(idx, l, k + 1, rest);
            let pf = level_proof_from(idx, l, k) + rest;
            assert(level_proof_from(idx, l, k) =~= seq![((sib(i)) as usize, l[sib(i)])]
                + level_proof_from(idx, l, k + 1));
            assert(pf[0] == ((sib(i)) as usize, l[sib(i)]));
            assert(pf.skip(1) =~= level_proof_from(idx, l, k + 1) + rest);
            if i % 2 == 0 {
                assert(2 * (i / 2) == i);
                assert(nl[i / 2] == node_hash(l[i], l[i + 1]));
            } else {
                assert(2 * (i / 2) == i - 1);
                assert(nl[i / 2] == node_hash(l[i - 1], l[i]));
            }
            assert(known_of(next_idx_from(idx, k), nl) =~= seq![
                ((i / 2) as usize, nl[i / 2]),
            ] + known_of(next_idx_from(idx, k + 1), nl));
        } else {
            lemma_step_level(idx, l, k + 1, rest);
            assert(level_proof_from(idx, l, k) == level_proof_from(idx, l, k + 1));
            // no sibling: the node is promoted unchanged
            assert(i % 2 == 0);
            assert(2 * (i / 2) == i);
            assert(2 * (i / 2) + 1 >= l.len());
            assert(nl[i / 2] == l[i]);
            assert(known_of(next_idx_from(idx, k), nl) =~= seq![
                ((i / 2) as usize, nl[i / 2]),
            ] + known_of(next_idx_from(idx, k + 1), nl));
        }
    }
}

/// A well-formed level chain ends in the root of its first level.
proof fn lemma_root_chain(levels: Seq<Seq<[u8; 32]>>, j: int)
    requires
        levels.len() >= 1,
        levels[levels.len() - 1].len() == 1,
        forall|m: int| 0 <= m < levels.len() - 1 ==> (#[trigger] levels[m]).len() >= 2,
        forall|m: int| 0 <= m < levels.len() - 1 ==> #[trigger] levels[m + 1] == next_level(
            levels[m],
        ),
        0 <= j < levels.len(),
    ensures
        root_of(levels[j]) == levels[levels.len() - 1][0],
    decreases levels.len() - j,
{
    if j == levels.len() - 1 {
        assert(root_of(levels[j]) == levels[j][0]);
    } else {
        assert(levels[j].len() >= 2);
        assert(levels[j + 1] == next_level(levels[j]));
        lemma_root_chain(levels, j + 1);
    }
}

/// The authentication path of the leaf at index `i`: its sibling at every
/// level that has one, bottom to top, each tagged with the sibling's index
/// within its level.
pub open spec fn leaf_path(i: int, l: Seq<[u8; 32]>) -> Seq<(usize, [u8; 32])>
    decreases l.len(),
{
    if l.len() <= 1 {
        Seq::empty()
    } else {
        (if sib(i) < l.len() {
            seq![(sib(i) as usize, l[sib(i)])]
        } else {
            Seq::empty()
        }) + leaf_path(i / 2, next_level(l))
    }
}

/// The root reconstructed by following an authentication path from the node
/// `h` at index `i` of a level of `len` nodes; `None` when the path does not
/// supply the sibling the position demands.
pub open spec fn path_root(i: int, h: [u8; 32], path: Seq<(usize, [u8; 32])>, len: int) -> Option<
    [u8; 32],
>
    decreases len,
{
    if len <= 0 {
        None
    } else if len == 1 {
        if path.len() == 0 && i == 0 {
            Some(h)
        } else {
            None
        }
    } else {
        if sib(i) < len {
            if path.len() >= 1 && path[0].0 == sib(i) {
                let combined = if i % 2 == 0 {
                    node_hash(h, path[0].1)
                } else {
                    node_hash(path[0].1, h)
                };
                path_root(i / 2, combined, path.skip(1), (len + 1) / 2)
            } else {
                None
            }
        } else {
            path_root(i / 2, h, path, (len + 1) / 2)
        }
    }
}

/// Generates one authentication path per requested leaf index: the proof's
/// outer dimension is positionally correlated with `indices`.
pub fn merkle_proof(leaf_hashes: &Vec<[u8; 32]>, indices: &Vec<usize>) -> (r: Vec<
    Vec<(usize, [u8; 32])>,
>)
    requires
        leaf_hashes@.len() >= 1,
        forall|m: int| 0 <= m < indices@.len() ==> #[trigger] indices@[m] < leaf_hashes@.len(),
    ensures
        r@.len() == indices@.len(),
        forall|m: int| 0 <= m < indices@.len() ==> (#[trigger] r@[m])@ == leaf_path(
            indices@[m] as int,
            leaf_hashes@,
        ),
{
    let tree = MerkleTree::from_leaves(leaf_hashes);
    let mut r: Vec<Vec<(usize, [u8; 32])>> = Vec::new();
    let mut m: usize = 0;
    while m < indices.len()
        invariant
            tree.wf(),
            tree.leaves() == leaf_hashes@,
            m <= indices@.len(),
            forall|q: int| 0 <= q < indices@.len() ==> #[trigger] indices@[q] < leaf_hashes@.len(),
            r@.len() == m,
            forall|q: int| 0 <= q < m ==> (#[trigger] r@[q])@ == leaf_path(
                indices@[q] as int,
                leaf_hashes@,
            ),
        decreases indices@.len() - m,
    {
        let path = tree.leaf_auth_path(indices[m]);
        r.push(path);
        m = m + 1;
    }
    r
}

impl MerkleTree {
    /// The authentication path of the leaf at `index`.
    pub fn leaf_auth_path(&self, index: usize) -> (r: Vec<(usize, [u8; 32])>)
        requires
            self.wf(),
            index < self.leaves().len(),
        ensures
            r@ == leaf_path(index as int, self.leaves()),
    {
        let mut r: Vec<(usize, [u8; 32])> = Vec::new();
        let mut i = index;
        let mut j: usize = 0;
        proof {
            assert(r@ + leaf_path(i as int, self.levels_seq()[0]) =~= leaf_path(
                index as int,
                self.leaves(),
            ));
        }
        while j < self.levels.len() - 1
            invariant
                self.wf(),
                j < self.levels_seq().len(),
                i < self.levels_seq()[j as int].len(),
                leaf_path(index as int, self.leaves()) == r@ + leaf_path(
                    i as int,
                    self.levels_seq()[j as int],
                ),
            decreases self.levels@.len() - j,
        {
            let ghost lv = self.levels_seq()[j as int];
            let level = &self.levels[j];
            proof {
                assert(lv == self.levels@[j as int]@);
                assert(lv.len() >= 2);
            }
            // for an even node the sum cannot overflow, since usize::MAX is odd
            let s: usize = if i % 2 == 0 {
                i + 1
            } else {
                i - 1
            };
            proof {
                assert(s as int == sib(i as int));
            }
            if s < level.len() {
                r.push((s, level[s]));
            }
            i = i / 2;
            j = j + 1;
            proof {
                assert(self.levels_seq()[j as int] == next_level(lv));
                assert(i < self.levels_seq()[j as int].len());
                assert(leaf_path(index as int, self.leaves()) =~= r@ + leaf_path(
                    i as int,
                    self.levels_seq()[j as int],
                ));
            }
        }
        proof {
            assert(self.levels_seq()[j as int].len() == 1);
            assert(leaf_path(i as int, self.levels_seq()[j as int]) =~= Seq::empty());
            assert(r@ =~= leaf_path(index as int, self.leaves()));
        }
        r
    }
}

/// Follows an authentication path from the leaf at `index` and compares the
/// reconstructed root against `root`.
pub fn verify_leaf_path(
    leaf_count: usize,
    index: usize,
    leaf: &[u8; 32],
    path: &Vec<(usize, [u8; 32])>,
    root: &[u8; 32],
) -> (r: bool)
    ensures
        r == (path_root(index as int, *leaf, path@, leaf_count as int) == Some(*root)),
{
    let mut i = index;
    let mut h = *leaf;
    let mut len = leaf_count;
    let mut p: usize = 0;
    if len == 0 {
        return false;
    }
    proof {
        assert(path@.skip(0) =~= path@);
    }
    while len > 1
        invariant
            len >= 1,
            p <= path@.len(),
            path_root(index as int, *leaf, path@, leaf_count as int) == path_root(
                i as int,
                h,
                path@.skip(p as int),
                len as int,
            ),
        decreases len,
    {
        // for an even node the sum cannot overflow, since usize::MAX is odd
        let s: usize = if i % 2 == 0 {
            i + 1
        } else {
            i - 1
        };
        proof {
            assert(s as int == sib(i as int));
        }
        let ghost prev_len = len as int;
        if s < len {
            if p < path.len() && path[p].0 == s {
                let combined = if i % 2 == 0 {
                    hash_pair(&h, &path[p].1)
                } else {
                    hash_pair(&path[p].1, &h)
                };
                proof {
                    assert(path@.skip(p as int)[0] == path@[p as int]);
                    assert(path@.skip(p as int).skip(1) =~= path@.skip(p + 1));
                }
                h = combined;
                p = p + 1;
            } else {
                proof {
                    assert(path@.skip(p as int).len() >= 1 ==> path@.skip(p as int)[0] == path@[
                        p as int
                    ]);
                }
                return false;
            }
        }
        i = i / 2;
        len = len / 2 + len % 2;
        proof {
            assert(len as int == (prev_len + 1) / 2);
        }
    }
    if p != path.len() {
        return false;
    }
    if i != 0 {
        return false;
    }
    hash_eq(&h, root)
}

/// A leaf's authentication path resolves that leaf, at its own position, to
/// the root of the tree it was extracted from.
pub proof fn lemma_leaf_path_resolves(i: int, l: Seq<[u8; 32]>)
    requires
        l.len() >= 1,
        l.len() <= usize::MAX,
        0 <= i < l.len(),
    ensures
        path_root(i, l[i], leaf_path(i, l), l.len() as int) == Some(root_of(l)),
    decreases l.len(),
{
    if l.len() == 1 {
        assert(i == 0);
    } else {
        let nl = next_level(l);
        let rest = leaf_path(i / 2, nl);
        assert(nl.len() == (l.len() + 1) / 2);
        assert(0 <= i / 2 < nl.len());
        if sib(i) < l.len() {
            assert(0 <= sib(i) <= usize::MAX);
            assert(leaf_path(i, l) =~= seq![(sib(i) as usize, l[sib(i)])] + rest);
            assert(leaf_path(i, l)[0].0 as int == sib(i));
            assert(leaf_path(i, l).skip(1) =~= rest);
            let combined = if i % 2 == 0 {
                node_hash(l[i], l[i + 1])
            } else {
                node_hash(l[i - 1], l[i])
            };
            if i % 2 == 0 {
                assert(2 * (i / 2) == i);
                assert(nl[i / 2] == combined);
            } else {
                assert(2 * (i / 2) == i - 1);
                assert(nl[i / 2] == combined);
            }
            lemma_leaf_path_resolves(i / 2, nl);
        } else {
            assert(i % 2 == 0);
            assert(leaf_path(i, l) =~= rest);
            assert(2 * (i / 2) == i);
            assert(2 * (i / 2) + 1 >= l.len());
            assert(nl[i / 2] == l[i]);
            lemma_leaf_path_resolves(i / 2, nl);
        }
        assert(root_of(l) == root_of(nl));
    }
}

/// Merkle round trip: for every non-empty leaf sequence and every strictly
/// ascending, in-range index subset, the multi-proof extracted from the tree
/// reconstructs the tree's root from exactly the leaves at those indices.
pub proof fn lemma_multi_proof_round_trip(leaf_hashes: Seq<[u8; 32]>, indices: Seq<usize>)
    requires
        leaf_hashes.len() >= 1,
        idx_ok(indices, leaf_hashes.len() as int),
    ensures
        verify_spec(
            leaf_hashes.len() as int,
            known_of(indices, leaf_hashes),
            multi_proof_spec(indices, leaf_hashes),
            root_of(leaf_hashes),
        ),
    decreases leaf_hashes.len(),
{
    let known = known_of(indices, leaf_hashes);
    let pf = multi_proof_spec(indices, leaf_hashes);
    if leaf_hashes.len() == 1 {
        assert(pf.len() == 0);
        if indices.len() == 0 {
            assert(known.len() == 0);
        } else {
            assert(indices[0] < 1);
            if indices.len() >= 2 {
                assert(indices[0] < indices[1]);
                assert(false);
            }
            assert(known.len() == 1);
            assert(known[0].0 == 0);
            assert(known[0].1 == leaf_hashes[0]);
            assert(root_of(leaf_hashes) == leaf_hashes[0]);
        }
    } else {
        let nl = next_level(leaf_hashes);
        let nidx = next_idx_from(indices, 0);
        let rest = multi_proof_spec(nidx, nl);
        assert(pf == level_proof_from(indices, leaf_hashes, 0) + rest);
        lemma_step_level(indices, leaf_hashes, 0, rest);
        lemma_step_preserves_idx_ok(indices, leaf_hashes.len() as int, 0);
        assert(nl.len() == (leaf_hashes.len() + 1) / 2);
        lemma_multi_proof_round_trip(nl, nidx);
        assert(root_of(leaf_hashes) == root_of(nl));
    }
}

} // verus!
