//! The authority prover: selects the signers of a finality commitment,
//! normalizes their signatures, and produces one Merkle authentication path
//! per signer against the full authority-set root.

use vstd::prelude::*;

use crate::crypto::decompress_pubkey;
use crate::crypto::secp_key_ok;
use crate::crypto::secp_uncompressed_of;
use crate::error::Error;
use crate::hashing::keccak_256;
use crate::hashing::keccak_of;
use crate::merkle::leaf_path;
use crate::merkle::merkle_proof;
use crate::merkle::path_root;
use crate::merkle::root_of;

verus! {

/// A signer's 65-byte recoverable signature together with its position in
/// the authority set.
#[derive(Clone, Copy, Debug, PartialEq, Eq)]
pub struct SignatureWithAuthorityIndex {
    pub index: u32,
    pub signature: [u8; 65],
}

/// One Merkle authentication path per signature, positionally correlated via
/// the signature's authority index, alongside the signatures themselves.
#[derive(Clone, Debug, PartialEq, Eq)]
pub struct AuthorityProofWithSignatures {
    pub authority_proof: Vec<Vec<(usize, [u8; 32])>>,
    pub signatures: Vec<SignatureWithAuthorityIndex>,
}

/// Proof that a parachain header was included in the parachain-heads tree of
/// a finality leaf; the total count is needed to reconstruct the tree shape.
#[derive(Clone, Debug, PartialEq, Eq)]
pub struct ParaHeadsProof {
    pub parachain_heads_proof: Vec<[u8; 32]>,
    pub para_head: Vec<u8>,
    pub heads_leaf_index: u32,
    pub heads_total_count: u32,
}

/// A finality commitment: authority signatures over a finalized block,
/// indexed by authority position; absent entries denote non-signers.
#[derive(Clone, Debug, PartialEq, Eq)]
pub struct SignedCommitment {
    pub commitment_block_number: u32,
    pub validator_signatures: Vec<Option<Vec<u8>>>,
}

/// The recovery-byte shift applied to an exactly-65-byte signature: the first
/// 64 bytes are kept, the final byte moves from the `{0,1}` to the `{27,28}`
/// convention.
pub open spec fn norm65(sig: Seq<u8>) -> Seq<u8> {
    sig.update(64, ((sig[64] + 27) % 256) as u8)
}

/// Normalizes a recoverable signature to the 65-byte wire form the verifier
/// expects: any input that is not exactly 65 bytes long counts as "no
/// signature".
pub open spec fn normalize_signature_spec(sig: Seq<u8>) -> Option<Seq<u8>> {
    if sig.len() == 65 {
        Some(norm65(sig))
    } else {
        None
    }
}

/// Shifts the recovery byte of an exactly-65-byte recoverable signature by
/// 27; signatures of any other length are treated as absent, not as an error.
pub fn normalize_signature(sig: &Vec<u8>) -> (r: Option<[u8; 65]>)
    ensures
        match r {
            Some(out) => normalize_signature_spec(sig@) == Some(out@),
            None => normalize_signature_spec(sig@) is None,
        },
{
    if sig.len() == 65 {
        let mut out: [u8; 65] = [0u8; 65];
        let mut i: usize = 0;
        while i < 65
            invariant
                i <= 65,
                sig@.len() == 65,
                forall|j: int| 0 <= j < i ==> out@[j] == sig@[j],
            decreases 65 - i,
        {
            out[i] = sig[i];
            i = i + 1;
        }
        let rec = out[64];
        out[64] = rec.wrapping_add(27);
        proof {
            assert(out@ =~= norm65(sig@));
        }
        Some(out)
    } else {
        None
    }
}

/// Signature normalization, stated once and for all: it is a pure function of
/// the raw input that keeps the first 64 bytes unchanged and increments the
/// recovery byte by exactly 27, exactly once per 65-byte input.
pub proof fn lemma_normalize_signature(sig: Seq<u8>)
    requires
        sig.len() == 65,
        sig[64] + 27 <= 255,
    ensures
        normalize_signature_spec(sig) == Some(norm65(sig)),
        norm65(sig).len() == 65,
        forall|j: int| 0 <= j < 64 ==> norm65(sig)[j] == sig[j],
        norm65(sig)[64] == sig[64] + 27,
{
}

/// The bytes held in a signature slot; empty for a non-signer.
pub open spec fn slot_bytes(vs: Seq<Option<Vec<u8>>>, i: int) -> Seq<u8> {
    match vs[i] {
        Some(v) => v@,
        None => Seq::empty(),
    }
}

/// The authority indices whose slot holds an exactly-65-byte signature, in
/// ascending order, starting the walk at slot `k`.
pub open spec fn signer_indices_from(vs: Seq<Option<Vec<u8>>>, k: int) -> Seq<int>
    decreases vs.len() - k,
{
    if k < 0 || k >= vs.len() {
        Seq::empty()
    } else if vs[k] matches Some(v) && v@.len() == 65 {
        seq![k] + signer_indices_from(vs, k + 1)
    } else {
        signer_indices_from(vs, k + 1)
    }
}

/// The signer indices are ascending slot positions holding 65-byte
/// signatures.
pub proof fn lemma_signer_indices_props(vs: Seq<Option<Vec<u8>>>, k: int)
    requires
        0 <= k,
    ensures
        forall|m: int| 0 <= m < signer_indices_from(vs, k).len() ==> k
            <= #[trigger] signer_indices_from(vs, k)[m] < vs.len(),
        forall|m: int| 0 <= m < signer_indices_from(vs, k).len() ==> slot_bytes(
            vs,
            #[trigger] signer_indices_from(vs, k)[m],
        ).len() == 65,
        forall|m: int| 0 <= m < signer_indices_from(vs, k).len() - 1 ==> #[trigger] signer_indices_from(
            vs,
            k,
        )[m] < signer_indices_from(vs, k)[m + 1],
    decreases vs.len() - k,
{
    if k >= vs.len() {
    } else {
        lemma_signer_indices_props(vs, k + 1);
        let rest = signer_indices_from(vs, k + 1);
        if vs[k] matches Some(v) && v@.len() == 65 {
            let cur = signer_indices_from(vs, k);
            assert(cur == seq![k] + rest);
            assert forall|m: int| 0 <= m < cur.len() - 1 implies #[trigger] cur[m] < cur[m + 1] by {
                if m == 0 {
                    assert(cur[0] == k);
                    assert(cur[1] == rest[0]);
                    assert(rest[0] >= k + 1);
                } else {
                    assert(cur[m] == rest[m - 1]);
                    assert(cur[m + 1] == rest[m]);
                }
            }
        }
    }
}

/// The indices carried by a signature list.
pub open spec fn indices_of(s: Seq<SignatureWithAuthorityIndex>) -> Seq<int> {
    s.map_values(|x: SignatureWithAuthorityIndex| x.index as int)
}

/// Iterates the fixed-size signature slots in authority-index order, keeping
/// index and normalized signature together and dropping slots without an
/// exactly-65-byte signature.
pub fn collect_signatures(signed_commitment: &SignedCommitment) -> (r: Vec<
    SignatureWithAuthorityIndex,
>)
    requires
        signed_commitment.validator_signatures@.len() <= u32::MAX,
    ensures
        indices_of(r@) == signer_indices_from(signed_commitment.validator_signatures@, 0),
        forall|m: int| 0 <= m < r@.len() ==> (#[trigger] r@[m]).signature@ == norm65(
            slot_bytes(signed_commitment.validator_signatures@, r@[m].index as int),
        ),
{
    let vs = &signed_commitment.validator_signatures;
    let mut r: Vec<SignatureWithAuthorityIndex> = Vec::new();
    let mut k: usize = 0;
    while k < vs.len()
        invariant
            vs@.len() <= u32::MAX,
            vs == &signed_commitment.validator_signatures,
            k <= vs@.len(),
            signer_indices_from(vs@, 0) == indices_of(r@) + signer_indices_from(vs@, k as int),
            forall|m: int| 0 <= m < r@.len() ==> (#[trigger] r@[m]).index < k,
            forall|m: int| 0 <= m < r@.len() ==> (#[trigger] r@[m]).signature@ == norm65(
                slot_bytes(vs@, r@[m].index as int),
            ),
        decreases vs@.len() - k,
    {
        let ghost r_old = r@;
        match &vs[k] {
            Some(sig) => {
                if sig.len() == 65 {
                    match normalize_signature(sig) {
                        Some(arr) => {
                            r.push(
                                SignatureWithAuthorityIndex { index: k as u32, signature: arr },
                            );
                            proof {
                                assert(slot_bytes(vs@, k as int) == sig@);
                                assert(arr@ == norm65(slot_bytes(vs@, k as int)));
                                assert(indices_of(r@) =~= indices_of(r_old).push(k as int));
                                assert(signer_indices_from(vs@, k as int) == seq![k as int]
                                    + signer_indices_from(vs@, k + 1));
                                assert(indices_of(r@) + signer_indices_from(vs@, k + 1)
                                    =~= indices_of(r_old) + signer_indices_from(vs@, k as int));
                            }
                        },
                        None => {
                            proof {
                                assert(false);
                            }
                        },
                    }
                } else {
                    proof {
                        assert(signer_indices_from(vs@, k as int) == signer_indices_from(
                            vs@,
                            k + 1,
                        ));
                    }
                }
            },
            None => {
                proof {
                    assert(signer_indices_from(vs@, k as int) == signer_indices_from(
                        vs@,
                        k + 1,
                    ));
                }
            },
        }
        k = k + 1;
    }
    proof {
        assert(signer_indices_from(vs@, k as int) =~= Seq::<int>::empty());
        assert(indices_of(r@) + signer_indices_from(vs@, k as int) =~= indices_of(r@));
    }
    r
}

/// Computes the signer set of a commitment and the Merkle authentication
/// paths of those signers against the full, position-keyed authority set:
/// the proof is meaningful only paired with this exact ordering of
/// `authority_address_hashes`. A signer index outside the authority set is a
/// structural error and no partial proof is returned.
pub fn prove_authority_set(
    signed_commitment: &SignedCommitment,
    authority_address_hashes: Vec<[u8; 32]>,
) -> (r: Result<AuthorityProofWithSignatures, Error>)
    requires
        signed_commitment.validator_signatures@.len() <= u32::MAX,
    ensures
        ({
            let si = signer_indices_from(signed_commitment.validator_signatures@, 0);
            &&& (r is Err <==> exists|m: int|
                0 <= m < si.len() && #[trigger] si[m] >= authority_address_hashes@.len())
            &&& (r matches Err(e) ==> e matches Error::MerkleIndexOutOfRange {
                index,
                leaf_count,
            } && leaf_count == authority_address_hashes@.len() && exists|m: int|
                0 <= m < si.len() && #[trigger] si[m] == index && si[m]
                    >= authority_address_hashes@.len() && (forall|q: int|
                    0 <= q < m ==> #[trigger] si[q] < authority_address_hashes@.len()))
            &&& (r matches Ok(out) ==> {
                &&& indices_of(out.signatures@) == si
                &&& forall|m: int| 0 <= m < out.signatures@.len() ==> (#[trigger] out.signatures@[
                    m
                ]).signature@ == norm65(
                    slot_bytes(
                        signed_commitment.validator_signatures@,
                        out.signatures@[m].index as int,
                    ),
                )
                &&& out.authority_proof@.len() == out.signatures@.len()
                &&& forall|m: int| 0 <= m < si.len() ==> (#[trigger] out.authority_proof@[m])@
                    == leaf_path(si[m], authority_address_hashes@)
            })
        }),
{
    let sigs = collect_signatures(signed_commitment);
    let ghost si = signer_indices_from(signed_commitment.validator_signatures@, 0);
    let mut indices: Vec<usize> = Vec::new();
    let mut bad: Option<usize> = None;
    let mut m: usize = 0;
    while m < sigs.len() && bad.is_none()
        invariant
            indices_of(sigs@) == si,
            m <= sigs@.len(),
            match bad {
                Some(b) => exists|q: int|
                    0 <= q < si.len() && #[trigger] si[q] == b as int && si[q]
                        >= authority_address_hashes@.len() && (forall|p: int|
                        0 <= p < q ==> #[trigger] si[p] < authority_address_hashes@.len()),
                None => {
                    &&& indices@.len() == m
                    &&& forall|q: int| 0 <= q < m ==> #[trigger] indices@[q] == sigs@[
                        q
                    ].index as usize
                    &&& forall|q: int| 0 <= q < m ==> #[trigger] indices@[q]
                        < authority_address_hashes@.len()
                },
            },
        decreases sigs@.len() - m,
    {
        let idx = sigs[m].index as usize;
        if idx >= authority_address_hashes.len() {
            proof {
                assert(si.len() == sigs@.len());
                assert(si[m as int] == sigs@[m as int].index as int);
                // every signer before this one was in range
                assert forall|p: int| 0 <= p < m as int implies #[trigger] si[p]
                    < authority_address_hashes@.len() by {
                    assert(si[p] == sigs@[p].index as int);
                    assert(indices@[p] == sigs@[p].index as usize);
                    assert(indices@[p] < authority_address_hashes@.len());
                }
            }
            bad = Some(idx);
        } else {
            indices.push(idx);
        }
        m = m + 1;
    }
    match bad {
        Some(b) => {
            return Err(
                Error::MerkleIndexOutOfRange {
                    index: b,
                    leaf_count: authority_address_hashes.len(),
                },
            );
        },
        None => {},
    }
    proof {
        assert(si.len() == sigs@.len());
        assert forall|q: int| 0 <= q < si.len() implies #[trigger] si[q]
            < authority_address_hashes@.len() by {
            assert(si[q] == sigs@[q].index as int);
            assert(indices@[q] == sigs@[q].index as usize);
            assert(indices@[q] < authority_address_hashes@.len());
        }
    }
    if indices.len() == 0 {
        return Ok(
            AuthorityProofWithSignatures { authority_proof: Vec::new(), signatures: sigs },
        );
    }
    proof {
        assert(indices@[0] < authority_address_hashes@.len());
        assert(authority_address_hashes@.len() >= 1);
        assert forall|q: int| 0 <= q < indices@.len() implies #[trigger] indices@[q]
            < authority_address_hashes@.len() by {}
    }
    let paths = merkle_proof(&authority_address_hashes, &indices);
    proof {
        assert forall|q: int| 0 <= q < si.len() implies (#[trigger] paths@[q])@ == leaf_path(
            si[q],
            authority_address_hashes@,
        ) by {
            assert(indices@[q] == sigs@[q].index as usize);
            assert(si[q] == sigs@[q].index as int);
            assert(paths@[q]@ == leaf_path(indices@[q] as int, authority_address_hashes@));
        }
    }
    Ok(AuthorityProofWithSignatures { authority_proof: paths, signatures: sigs })
}

/// Authority proof/signature correlation: the proof carries exactly one
/// authentication path per signature, and the path paired with the signature
/// of authority index `i` resolves the leaf originally at position `i` of
/// `authority_address_hashes` to the authority set's root.
pub proof fn lemma_authority_proof_correlation(
    vs: Seq<Option<Vec<u8>>>,
    authority_address_hashes: Seq<[u8; 32]>,
)
    requires
        authority_address_hashes.len() >= 1,
        authority_address_hashes.len() <= usize::MAX,
        forall|m: int| 0 <= m < signer_indices_from(vs, 0).len()
            ==> #[trigger] signer_indices_from(vs, 0)[m] < authority_address_hashes.len(),
    ensures
        forall|m: int| 0 <= m < signer_indices_from(vs, 0).len() ==> path_root(
            #[trigger] signer_indices_from(vs, 0)[m],
            authority_address_hashes[signer_indices_from(vs, 0)[m]],
            leaf_path(signer_indices_from(vs, 0)[m], authority_address_hashes),
            authority_address_hashes.len() as int,
        ) == Some(root_of(authority_address_hashes)),
{
    let si = signer_indices_from(vs, 0);
    lemma_signer_indices_props(vs, 0);
    assert forall|m: int| 0 <= m < si.len() implies path_root(
        #[trigger] si[m],
        authority_address_hashes[si[m]],
        leaf_path(si[m], authority_address_hashes),
        authority_address_hashes.len() as int,
    ) == Some(root_of(authority_address_hashes)) by {
        crate::merkle::lemma_leaf_path_resolves(si[m], authority_address_hashes);
    }
}

/// The address-preimage of an authority leaf: the 20-byte Ethereum address of
/// a valid compressed key, or empty bytes when the 33 bytes do not denote a
/// curve point.
pub open spec fn eth_address_of_key(k33: Seq<u8>) -> Seq<u8> {
    if secp_key_ok(k33) {
        keccak_of(secp_uncompressed_of(k33))@.subrange(12, 32)
    } else {
        Seq::empty()
    }
}

/// The Merkle leaf standing for one encoded authority public key.
pub open spec fn authority_leaf(key: Seq<u8>) -> [u8; 32] {
    keccak_of(eth_address_of_key(key.subrange(0, 33)))
}

/// Maps each encoded authority public key to the hash of its on-chain
/// address representation. A key too short to decode is a hard error: the
/// whole batch fails, since a partial authority set would silently produce a
/// wrong Merkle root.
pub fn hash_authority_addresses(encoded_public_keys: Vec<Vec<u8>>) -> (r: Result<
    Vec<[u8; 32]>,
    Error,
>)
    ensures
        (r is Ok <==> forall|m: int| 0 <= m < encoded_public_keys@.len()
            ==> (#[trigger] encoded_public_keys@[m])@.len() >= 33),
        r matches Err(e) ==> e matches Error::AuthorityKeyDecode { index } && 0 <= index
            < encoded_public_keys@.len() && encoded_public_keys@[index as int]@.len() < 33,
        r matches Ok(v) ==> v@.len() == encoded_public_keys@.len() && forall|m: int|
            0 <= m < v@.len() ==> #[trigger] v@[m] == authority_leaf(encoded_public_keys@[m]@),
{
    let mut out: Vec<[u8; 32]> = Vec::new();
    let mut m: usize = 0;
    while m < encoded_public_keys.len()
        invariant
            m <= encoded_public_keys@.len(),
            out@.len() == m,
            forall|q: int| 0 <= q < m ==> (#[trigger] encoded_public_keys@[q])@.len() >= 33,
            forall|q: int| 0 <= q < m ==> #[trigger] out@[q] == authority_leaf(
                encoded_public_keys@[q]@,
            ),
        decreases encoded_public_keys@.len() - m,
    {
        let key = &encoded_public_keys[m];
        if key.len() < 33 {
            return Err(Error::AuthorityKeyDecode { index: m });
        }
        let k33 = take_prefix(key, 33);
        let leaf = match decompress_pubkey(&k33) {
            Some(uncompressed) => {
                let digest = keccak_256(&uncompressed);
                let address = bytes_12_to_32(&digest);
                proof {
                    assert(address@ == eth_address_of_key(key@.subrange(0, 33)));
                }
                keccak_256(&address)
            },
            None => {
                let empty: Vec<u8> = Vec::new();
                proof {
                    assert(empty@ =~= eth_address_of_key(key@.subrange(0, 33)));
                }
                keccak_256(&empty)
            },
        };
        out.push(leaf);
        m = m + 1;
    }
    Ok(out)
}

/// Copies the first `n` bytes of a vector.
fn take_prefix(v: &Vec<u8>, n: usize) -> (r: Vec<u8>)
    requires
        n <= v@.len(),
    ensures
        r@ == v@.subrange(0, n as int),
{
    let mut r: Vec<u8> = Vec::new();
    let mut i: usize = 0;
    while i < n
        invariant
            i <= n,
            n <= v@.len(),
            r@ =~= v@.subrange(0, i as int),
        decreases n - i,
    {
        r.push(v[i]);
        i = i + 1;
    }
    proof {
        assert(r@ =~= v@.subrange(0, n as int));
    }
    r
}

/// Copies bytes 12 to 32 of a 32-byte digest: the address tail of a hashed
/// public key.
fn bytes_12_to_32(h: &[u8; 32]) -> (r: Vec<u8>)
    ensures
        r@ == h@.subrange(12, 32),
{
    let mut r: Vec<u8> = Vec::new();
    let mut i: usize = 12;
    while i < 32
        invariant
            12 <= i <= 32,
            r@ =~= h@.subrange(12, i as int),
        decreases 32 - i,
    {
        r.push(h[i]);
        i = i + 1;
    }
    proof {
        assert(r@ =~= h@.subrange(12, 32));
    }
    r
}

} // verus!
