use ismp_core::error::Error;
use ismp_core::hashing::MerkleHasher;
use ismp_core::merkle::verify_leaf_path;
use ismp_core::merkle::MerkleTree;
use ismp_core::prover::collect_signatures;
use ismp_core::prover::hash_authority_addresses;
use ismp_core::prover::normalize_signature;
use ismp_core::prover::prove_authority_set;
use ismp_core::prover::SignedCommitment;

fn raw_sig(fill: u8, recovery: u8) -> Vec<u8> {
    let mut s = vec![fill; 65];
    s[64] = recovery;
    s
}

#[test]
fn normalize_keeps_body_and_shifts_recovery_byte() {
    let sig = raw_sig(0x42, 0);
    let out = normalize_signature(&sig).unwrap();
    assert_eq!(&out[..64], &sig[..64]);
    assert_eq!(out[64], 27);

    let sig1 = raw_sig(0x42, 1);
    let out1 = normalize_signature(&sig1).unwrap();
    assert_eq!(out1[64], 28);
}

#[test]
fn normalize_shifts_unconditionally() {
    // the shift is applied to the raw input as-is, even when the input
    // already uses the shifted convention
    let sig = raw_sig(0x01, 27);
    let out = normalize_signature(&sig).unwrap();
    assert_eq!(out[64], 54);
    let sig = raw_sig(0x01, 28);
    let out = normalize_signature(&sig).unwrap();
    assert_eq!(out[64], 55);
}

#[test]
fn normalize_rejects_wrong_lengths() {
    assert!(normalize_signature(&vec![0u8; 64]).is_none());
    assert!(normalize_signature(&vec![0u8; 66]).is_none());
    assert!(normalize_signature(&Vec::new()).is_none());
}

#[test]
fn collect_signatures_keeps_index_and_drops_absent_slots() {
    let commitment = SignedCommitment {
        commitment_block_number: 7,
        validator_signatures: vec![
            None,
            Some(raw_sig(0xaa, 0)),
            Some(vec![0u8; 64]),
            Some(raw_sig(0xbb, 1)),
            None,
        ],
    };
    let sigs = collect_signatures(&commitment);
    assert_eq!(sigs.len(), 2);
    assert_eq!(sigs[0].index, 1);
    assert_eq!(sigs[0].signature[0], 0xaa);
    assert_eq!(sigs[0].signature[64], 27);
    assert_eq!(sigs[1].index, 3);
    assert_eq!(sigs[1].signature[64], 28);
}

fn authority_hashes() -> Vec<[u8; 32]> {
    (0u8..5).map(|i| MerkleHasher::hash(&vec![i; 20])).collect()
}

#[test]
fn prove_authority_set_end_to_end() {
    // authority set of 5 hashed addresses, commitment signed by the
    // authorities at indices 1 and 3
    let hashes = authority_hashes();
    let commitment = SignedCommitment {
        commitment_block_number: 10,
        validator_signatures: vec![
            None,
            Some(raw_sig(0x11, 0)),
            None,
            Some(raw_sig(0x33, 1)),
            None,
        ],
    };
    let out = prove_authority_set(&commitment, hashes.clone()).unwrap();
    assert_eq!(out.signatures.len(), 2);
    assert_eq!(out.authority_proof.len(), out.signatures.len());
    assert_eq!(out.signatures[0].index, 1);
    assert_eq!(out.signatures[1].index, 3);

    // a verifier reconstructing the root from those two leaves plus the
    // returned siblings obtains exactly the original 5-leaf root
    let tree = MerkleTree::from_leaves(&hashes);
    let root = tree.root();
    for k in 0..2usize {
        let idx = out.signatures[k].index as usize;
        assert!(verify_leaf_path(5, idx, &hashes[idx], &out.authority_proof[k], &root));
    }
}

#[test]
fn prove_authority_set_rejects_out_of_range_signer() {
    let hashes = authority_hashes();
    let mut slots: Vec<Option<Vec<u8>>> = vec![None; 8];
    slots[7] = Some(raw_sig(0x77, 0));
    let commitment = SignedCommitment { commitment_block_number: 1, validator_signatures: slots };
    let err = prove_authority_set(&commitment, hashes).unwrap_err();
    assert_eq!(err, Error::MerkleIndexOutOfRange { index: 7, leaf_count: 5 });
}

#[test]
fn prove_authority_set_reports_the_first_out_of_range_signer() {
    let hashes = authority_hashes();
    let mut slots: Vec<Option<Vec<u8>>> = vec![None; 8];
    slots[2] = Some(raw_sig(0x22, 0));
    slots[6] = Some(raw_sig(0x66, 0));
    slots[7] = Some(raw_sig(0x77, 1));
    let commitment = SignedCommitment { commitment_block_number: 1, validator_signatures: slots };
    let err = prove_authority_set(&commitment, hashes).unwrap_err();
    assert_eq!(err, Error::MerkleIndexOutOfRange { index: 6, leaf_count: 5 });
}

#[test]
fn prove_authority_set_with_no_signers_is_empty() {
    let hashes = authority_hashes();
    let commitment = SignedCommitment {
        commitment_block_number: 1,
        validator_signatures: vec![None, None, None, None, None],
    };
    let out = prove_authority_set(&commitment, hashes).unwrap();
    assert!(out.signatures.is_empty());
    assert!(out.authority_proof.is_empty());
}

#[test]
fn hash_authority_addresses_hashes_known_key() {
    // the compressed generator point: the public key of the secret scalar 1,
    // whose account address is well known
    let generator: Vec<u8> = vec![
        0x02, 0x79, 0xbe, 0x66, 0x7e, 0xf9, 0xdc, 0xbb, 0xac, 0x55, 0xa0, 0x62, 0x95, 0xce, 0x87,
        0x0b, 0x07, 0x02, 0x9b, 0xfc, 0xdb, 0x2d, 0xce, 0x28, 0xd9, 0x59, 0xf2, 0x81, 0x5b, 0x16,
        0xf8, 0x17, 0x98,
    ];
    let address: Vec<u8> = vec![
        0x7e, 0x5f, 0x45, 0x52, 0x09, 0x1a, 0x69, 0x12, 0x5d, 0x5d, 0xfc, 0xb7, 0xb8, 0xc2, 0x65,
        0x90, 0x29, 0x39, 0x5b, 0xdf,
    ];
    let leaves = hash_authority_addresses(vec![generator]).unwrap();
    assert_eq!(leaves.len(), 1);
    assert_eq!(leaves[0], sp_io::hashing::keccak_256(&address));
}

#[test]
fn hash_authority_addresses_invalid_point_hashes_empty_preimage() {
    // 33 bytes that parse to no curve point: the conversion yields no
    // address bytes, and the leaf is the hash of the empty preimage
    let mut bogus = vec![0x02u8];
    bogus.extend_from_slice(&[0xff; 32]);
    let leaves = hash_authority_addresses(vec![bogus]).unwrap();
    assert_eq!(leaves[0], sp_io::hashing::keccak_256(&[]));
}

#[test]
fn hash_authority_addresses_rejects_short_key() {
    let err = hash_authority_addresses(vec![vec![0x02; 33], vec![0x01; 20]]).unwrap_err();
    assert_eq!(err, Error::AuthorityKeyDecode { index: 1 });
}
