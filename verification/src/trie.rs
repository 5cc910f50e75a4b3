//! Builds a Merkle-Patricia trie over a block's extrinsics and extracts a
//! compact existence proof for the timestamp extrinsic at key 0.
//!
//! Keys are the compact little-endian encoding of the extrinsic's position,
//! mirroring how the source chain indexes extrinsics; the trie itself, its
//! root and the recorded lookup nodes come from the source chain's own trie
//! layout, so the root is bit-compatible with the source chain's.

use vstd::prelude::*;

use crate::error::Error;
use crate::messaging::bytes_eq;
use vstd::pervasive::unreached;

verus! {

/// The compact (variable-length) little-endian encoding of a 32-bit value:
/// the two low bits of the first byte select the width.
pub open spec fn compact_u32_spec(v: u32) -> Seq<u8> {
    let x = v as int;
    if x < 64 {
        seq![(x * 4) as u8]
    } else if x < 16384 {
        let w = x * 4 + 1;
        seq![(w % 256) as u8, ((w / 256) % 256) as u8]
    } else if x < 0x4000_0000 {
        let w = x * 4 + 2;
        seq![
            (w % 256) as u8,
            ((w / 256) % 256) as u8,
            ((w / 65536) % 256) as u8,
            ((w / 16777216) % 256) as u8,
        ]
    } else {
        seq![
            3u8,
            (x % 256) as u8,
            ((x / 256) % 256) as u8,
            ((x / 65536) % 256) as u8,
            ((x / 16777216) % 256) as u8,
        ]
    }
}

/// Encodes a 32-bit value in the compact little-endian form used for
/// extrinsic trie keys.
pub fn compact_u32_encode(v: u32) -> (r: Vec<u8>)
    ensures
        r@ == compact_u32_spec(v),
{
    let mut r: Vec<u8> = Vec::new();
    if v < 64 {
        r.push((v * 4) as u8);
        proof {
            assert(r@ =~= compact_u32_spec(v));
        }
    } else if v < 16384 {
        let w: u32 = v * 4 + 1;
        r.push((w % 256) as u8);
        r.push((w / 256) as u8);
        proof {
            assert(w / 256 < 256);
            assert(r@ =~= compact_u32_spec(v));
        }
    } else if v < 0x4000_0000 {
        let w: u32 = v * 4 + 2;
        r.push((w % 256) as u8);
        r.push((w / 256 % 256) as u8);
        r.push((w / 65536 % 256) as u8);
        r.push((w / 16777216) as u8);
        proof {
            assert(w / 16777216 < 256);
            assert(r@ =~= compact_u32_spec(v));
        }
    } else {
        r.push(3u8);
        r.push((v % 256) as u8);
        r.push((v / 256 % 256) as u8);
        r.push((v / 65536 % 256) as u8);
        r.push((v / 16777216) as u8);
        proof {
            assert(v / 16777216 < 256);
            assert(r@ =~= compact_u32_spec(v));
        }
    }
    r
}

/// A positive position never encodes to the key of position 0.
pub proof fn lemma_compact_keys_distinct(j: u32)
    requires
        j > 0,
    ensures
        compact_u32_spec(j) != compact_u32_spec(0),
        compact_u32_spec(0) == seq![0u8],
{
    assert(compact_u32_spec(0) =~= seq![0u8]);
    let x = j as int;
    if x < 64 {
        assert(compact_u32_spec(j)[0] != 0);
    } else if x < 16384 {
        let w = x * 4 + 1;
        assert(w % 2 == 1);
        assert(w % 256 != 0) by {
            assert(w % 256 % 2 == w % 2) by (nonlinear_arith);
        }
        assert(compact_u32_spec(j)[0] != 0);
    } else if x < 0x4000_0000 {
        let w = x * 4 + 2;
        assert(w % 4 == 2) by (nonlinear_arith)
            requires
                w == x * 4 + 2,
                x >= 0,
        ;
        assert(w % 256 % 4 == w % 4) by (nonlinear_arith);
        assert(compact_u32_spec(j)[0] != 0);
    } else {
        assert(compact_u32_spec(j)[0] != 0);
    }
}

/// The contents of the extrinsics trie: each of the first `n` items keyed by
/// the compact encoding of its position.
pub open spec fn extrinsics_map_upto(e: Seq<Vec<u8>>, n: int) -> Map<Seq<u8>, Seq<u8>>
    decreases n,
{
    if n <= 0 {
        Map::empty()
    } else {
        extrinsics_map_upto(e, n - 1).insert(compact_u32_spec((n - 1) as u32), e[n - 1]@)
    }
}

/// The contents of the extrinsics trie over the whole item list.
pub open spec fn extrinsics_map(e: Seq<Vec<u8>>) -> Map<Seq<u8>, Seq<u8>> {
    extrinsics_map_upto(e, e.len() as int)
}

/// The trie over a non-empty item list holds the first item at key 0.
pub proof fn lemma_key0_present(e: Seq<Vec<u8>>, n: int)
    requires
        1 <= n <= e.len(),
        e.len() <= u32::MAX,
    ensures
        extrinsics_map_upto(e, n).contains_key(compact_u32_spec(0)),
        extrinsics_map_upto(e, n)[compact_u32_spec(0)] == e[0]@,
    decreases n,
{
    if n == 1 {
        assert((n - 1) as u32 == 0u32);
    } else {
        lemma_key0_present(e, n - 1);
        lemma_compact_keys_distinct((n - 1) as u32);
    }
}

/// An in-memory Merkle-Patricia trie over the source chain's layout, held
/// with its committed root.
#[verifier::external_body]
pub struct ExtrinsicsTrie {
    db: sp_trie::MemoryDB<sp_runtime::traits::Keccak256>,
    root: sp_core::H256,
}

/// The key-value contents of an extrinsics trie.
pub uninterp spec fn trie_map_of(t: ExtrinsicsTrie) -> Map<Seq<u8>, Seq<u8>>;

/// The trie root determined by a trie's contents.
pub uninterp spec fn trie_root_of(m: Map<Seq<u8>, Seq<u8>>) -> [u8; 32];

/// The set of encoded trie nodes a lookup of `key` touches in the trie with
/// contents `m`.
pub uninterp spec fn trie_proof_nodes_of(m: Map<Seq<u8>, Seq<u8>>, key: Seq<u8>) -> Set<Seq<u8>>;

/// The contents of a trie holding nothing.
pub open spec fn empty_trie_contents() -> Map<Seq<u8>, Seq<u8>> {
    Map::empty()
}

/// Relies on `sp_trie::TrieDBMutBuilder::new`: building and committing a
/// trie over a fresh in-memory database yields the empty trie.
#[verifier::external_body]
pub fn trie_new() -> (t: ExtrinsicsTrie)
    ensures
        trie_map_of(t) == empty_trie_contents(),
{
    let mut db = sp_trie::MemoryDB::<sp_runtime::traits::Keccak256>::default();
    let mut root = sp_core::H256::default();
    {
        let _ = sp_trie::TrieDBMutBuilder::<
            sp_trie::LayoutV0<sp_runtime::traits::Keccak256>,
        >::new(&mut db, &mut root).build();
    }
    ExtrinsicsTrie { db, root }
}

/// Relies on `sp_trie::TrieDBMut::insert` (committed on drop): the trie's
/// contents gain exactly this mapping and the root is recomputed over the new
/// contents. The call succeeds on every input: the trie errors only on
/// missing or undecodable database nodes, and these wrappers alone build and
/// mutate the in-memory database, keeping it complete.
#[verifier::external_body]
pub fn trie_insert(t: &mut ExtrinsicsTrie, key: &Vec<u8>, value: &Vec<u8>) -> (ok: bool)
    ensures
        ok,
        trie_map_of(*final(t)) == trie_map_of(*old(t)).insert(key@, value@),
{
    let mut trie = sp_trie::TrieDBMutBuilder::<
        sp_trie::LayoutV0<sp_runtime::traits::Keccak256>,
    >::from_existing(&mut t.db, &mut t.root).build();
    sp_trie::TrieMut::insert(&mut trie, key, value).is_ok()
}

/// Relies on the root committed by `sp_trie::TrieDBMut`: the trie root is a
/// pure function of the trie's contents.
#[verifier::external_body]
pub fn trie_root(t: &ExtrinsicsTrie) -> (r: [u8; 32])
    ensures
        r == trie_root_of(trie_map_of(*t)),
{
    t.root.0
}

/// Relies on `sp_trie::TrieDBBuilder` with a recording layer: over a complete
/// in-memory database the lookup returns the stored value exactly for keys
/// the trie holds, and the recorder captures precisely the nodes the lookup
/// touches — a pure function of the trie's contents and the key.
#[verifier::external_body]
pub fn trie_get_recorded(t: &ExtrinsicsTrie, key: &Vec<u8>) -> (r: Option<(Vec<u8>, Vec<Vec<u8>>)>)
    ensures
        r is Some <==> trie_map_of(*t).contains_key(key@),
        r matches Some(pr) ==> pr.0@ == trie_map_of(*t)[key@] && pr.1@.map_values(
            |n: Vec<u8>| n@,
        ).to_set() == trie_proof_nodes_of(trie_map_of(*t), key@),
{
    let mut recorder = sp_trie::Recorder::<
        sp_trie::LayoutV0<sp_runtime::traits::Keccak256>,
    >::new();
    let value = {
        let trie = sp_trie::TrieDBBuilder::<
            sp_trie::LayoutV0<sp_runtime::traits::Keccak256>,
        >::new(&t.db, &t.root).with_recorder(&mut recorder).build();
        sp_trie::Trie::get(&trie, key).ok().flatten()
    };
    value.map(|v| (v, recorder.drain().into_iter().map(|rec| rec.data).collect()))
}

/// Holds the timestamp extrinsic alongside a Merkle-Patricia trie existence
/// proof for it: the recorded trie nodes, deduplicated, in no canonical
/// order.
#[derive(Clone, Debug, PartialEq, Eq)]
pub struct TimeStampExtWithProof {
    /// The encoded timestamp extrinsic.
    pub ext: Vec<u8>,
    /// The recorded trie nodes proving the extrinsic's existence at key 0.
    pub proof: Vec<Vec<u8>>,
}

/// Whether the byte sequence `x` occurs among the first `n` entries of `s`.
pub open spec fn occurs_in(x: Seq<u8>, s: Seq<Vec<u8>>, n: int) -> bool {
    exists|j: int| 0 <= j < n && (#[trigger] s[j])@ == x
}

/// Whether the byte sequence of `x` already occurs in `v`.
fn contains_bytes(v: &Vec<Vec<u8>>, x: &Vec<u8>) -> (r: bool)
    ensures
        r == occurs_in(x@, v@, v@.len() as int),
{
    let mut i: usize = 0;
    while i < v.len()
        invariant
            i <= v@.len(),
            forall|j: int| 0 <= j < i ==> (#[trigger] v@[j])@ != x@,
        decreases v@.len() - i,
    {
        if bytes_eq(&v[i], x) {
            return true;
        }
        i = i + 1;
    }
    false
}

/// Copies a byte vector.
fn copy_bytes(v: &Vec<u8>) -> (r: Vec<u8>)
    ensures
        r@ == v@,
{
    let mut r: Vec<u8> = Vec::new();
    let mut i: usize = 0;
    while i < v.len()
        invariant
            i <= v@.len(),
            r@ =~= v@.subrange(0, i as int),
        decreases v@.len() - i,
    {
        r.push(v[i]);
        i = i + 1;
    }
    proof {
        assert(r@ =~= v@);
    }
    r
}

/// Keeps the first occurrence of each recorded node: the result holds the
/// same set of byte sequences with no repeats; order is irrelevant to
/// verification.
fn dedup_nodes(nodes: &Vec<Vec<u8>>) -> (r: Vec<Vec<u8>>)
    ensures
        r@.map_values(|n: Vec<u8>| n@).to_set() == nodes@.map_values(|n: Vec<u8>| n@).to_set(),
        forall|i: int, j: int| 0 <= i < j < r@.len() ==> (#[trigger] r@[i])@ != (#[trigger] r@[j])@,
{
    let mut r: Vec<Vec<u8>> = Vec::new();
    let mut m: usize = 0;
    while m < nodes.len()
        invariant
            m <= nodes@.len(),
            forall|i: int, j: int| 0 <= i < j < r@.len() ==> (#[trigger] r@[i])@ != (
            #[trigger] r@[j])@,
            forall|i: int| 0 <= i < r@.len() ==> occurs_in((#[trigger] r@[i])@, nodes@, m as int),
            forall|j: int| 0 <= j < m ==> occurs_in((#[trigger] nodes@[j])@, r@, r@.len() as int),
        decreases nodes@.len() - m,
    {
        let ghost r_old = r@;
        if !contains_bytes(&r, &nodes[m]) {
            r.push(copy_bytes(&nodes[m]));
            proof {
                assert(forall|i: int| 0 <= i < r_old.len() ==> #[trigger] r@[i] == r_old[i]);
                assert(r@[r@.len() - 1]@ == nodes@[m as int]@);
                // the fresh element is distinct from everything already kept
                assert forall|i: int| 0 <= i < r@.len() - 1 implies (#[trigger] r@[i])@ != r@[
                    r@.len() - 1
                ]@ by {
                    if r@[i]@ == nodes@[m as int]@ {
                        assert(occurs_in(nodes@[m as int]@, r_old, r_old.len() as int));
                    }
                }
            }
        }
        proof {
            // everything kept so far still occurs among the first m + 1 nodes,
            // and every seen node occurs among the kept entries
            assert forall|i: int| 0 <= i < r@.len() implies occurs_in(
                (#[trigger] r@[i])@,
                nodes@,
                m + 1,
            ) by {
                if i < r_old.len() {
                    let j = choose|j: int| 0 <= j < m && (#[trigger] nodes@[j])@ == r_old[i]@;
                    assert(nodes@[j]@ == r@[i]@);
                } else {
                    assert(nodes@[m as int]@ == r@[i]@);
                }
            }
            assert forall|j: int| 0 <= j < m + 1 implies occurs_in(
                (#[trigger] nodes@[j])@,
                r@,
                r@.len() as int,
            ) by {
                if j < m {
                    let i = choose|i: int| 0 <= i < r_old.len() && (#[trigger] r_old[i])@
                        == nodes@[j]@;
                    assert(r@[i]@ == nodes@[j]@);
                } else {
                    let i = choose|i: int| 0 <= i < r@.len() && (#[trigger] r@[i])@ == nodes@[
                        m as int
                    ]@;
                    assert(r@[i]@ == nodes@[j]@);
                }
            }
        }
        m = m + 1;
    }
    proof {
        assert(m == nodes@.len());
        lemma_same_members_same_set(r@, nodes@);
    }
    r
}

/// Two node lists whose byte sequences occur in each other map to the same
/// set.
proof fn lemma_same_members_same_set(a: Seq<Vec<u8>>, b: Seq<Vec<u8>>)
    requires
        forall|i: int| 0 <= i < a.len() ==> occurs_in((#[trigger] a[i])@, b, b.len() as int),
        forall|j: int| 0 <= j < b.len() ==> occurs_in((#[trigger] b[j])@, a, a.len() as int),
    ensures
        a.map_values(|n: Vec<u8>| n@).to_set() == b.map_values(|n: Vec<u8>| n@).to_set(),
{
    let sa = a.map_values(|n: Vec<u8>| n@);
    let sb = b.map_values(|n: Vec<u8>| n@);
    assert forall|x: Seq<u8>| sa.to_set().contains(x) implies sb.to_set().contains(x) by {
        let i = choose|i: int| 0 <= i < sa.len() && sa[i] == x;
        assert(a[i]@ == x);
        let j = choose|j: int| 0 <= j < b.len() && (#[trigger] b[j])@ == a[i]@;
        assert(sb[j] == x);
    }
    assert forall|x: Seq<u8>| sb.to_set().contains(x) implies sa.to_set().contains(x) by {
        let j = choose|j: int| 0 <= j < sb.len() && sb[j] == x;
        assert(b[j]@ == x);
        let i = choose|i: int| 0 <= i < a.len() && (#[trigger] a[i])@ == b[j]@;
        assert(sa[i] == x);
    }
    assert(sa.to_set() =~= sb.to_set());
}

/// Inserts every item into a fresh trie, keyed by the compact encoding of
/// its position.
fn build_extrinsics_trie(extrinsics: &Vec<Vec<u8>>) -> (t: ExtrinsicsTrie)
    requires
        extrinsics@.len() <= u32::MAX,
    ensures
        trie_map_of(t) == extrinsics_map(extrinsics@),
{
    let mut t = trie_new();
    let mut i: usize = 0;
    while i < extrinsics.len()
        invariant
            extrinsics@.len() <= u32::MAX,
            i <= extrinsics@.len(),
            trie_map_of(t) == extrinsics_map_upto(extrinsics@, i as int),
        decreases extrinsics@.len() - i,
    {
        let key = compact_u32_encode(i as u32);
        trie_insert(&mut t, &key, &extrinsics[i]);
        proof {
            assert(trie_map_of(t) == extrinsics_map_upto(extrinsics@, i + 1));
        }
        i = i + 1;
    }
    t
}

/// The root of the extrinsics trie over the given items: the anchor a proof
/// extracted by [`timestamp_extrinsic_with_proof`] verifies against. An empty
/// item list is a hard error; every non-empty list yields a root.
pub fn extrinsics_trie_root(extrinsics: &Vec<Vec<u8>>) -> (r: Result<[u8; 32], Error>)
    requires
        extrinsics@.len() <= u32::MAX,
    ensures
        r is Ok <==> extrinsics@.len() > 0,
        r is Err ==> r == Err::<[u8; 32], Error>(Error::EmptyExtrinsicList),
        r matches Ok(root) ==> root == trie_root_of(extrinsics_map(extrinsics@)),
{
    if extrinsics.len() == 0 {
        return Err(Error::EmptyExtrinsicList);
    }
    let t = build_extrinsics_trie(extrinsics);
    Ok(trie_root(&t))
}

/// Builds the extrinsics trie over the given items and extracts the
/// timestamp extrinsic at key 0 with its deduplicated existence proof. An
/// empty item list is a hard error; every non-empty list yields a proof, and
/// no partial proof is ever returned.
pub fn timestamp_extrinsic_with_proof(extrinsics: &Vec<Vec<u8>>) -> (r: Result<
    TimeStampExtWithProof,
    Error,
>)
    requires
        extrinsics@.len() <= u32::MAX,
    ensures
        r is Ok <==> extrinsics@.len() > 0,
        r is Err ==> r == Err::<TimeStampExtWithProof, Error>(Error::EmptyExtrinsicList),
        r matches Ok(out) ==> {
            &&& out.ext@ == extrinsics@[0]@
            &&& out.proof@.map_values(|n: Vec<u8>| n@).to_set() == trie_proof_nodes_of(
                extrinsics_map(extrinsics@),
                compact_u32_spec(0),
            )
            &&& forall|i: int, j: int| 0 <= i < j < out.proof@.len() ==> (#[trigger] out.proof@[
                i
            ])@ != (#[trigger] out.proof@[j])@
        },
{
    if extrinsics.len() == 0 {
        return Err(Error::EmptyExtrinsicList);
    }
    let t = build_extrinsics_trie(extrinsics);
    proof {
        lemma_key0_present(extrinsics@, extrinsics@.len() as int);
    }
    let key0 = compact_u32_encode(0);
    proof {
        lemma_compact_keys_distinct(1);
        assert(key0@ == compact_u32_spec(0));
    }
    match trie_get_recorded(&t, &key0) {
        Some(pr) => {
            let nodes = dedup_nodes(&pr.1);
            Ok(TimeStampExtWithProof { ext: pr.0, proof: nodes })
        },
        None => {
            // unreachable: key 0 is present in the trie of a non-empty list
            proof {
                assert(false);
            }
            unreached()
        },
    }
}

} // verus!
