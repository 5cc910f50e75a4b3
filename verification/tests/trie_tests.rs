use ismp_core::error::Error;
use ismp_core::trie::compact_u32_encode;
use ismp_core::trie::extrinsics_trie_root;
use ismp_core::trie::timestamp_extrinsic_with_proof;
use ismp_core::trie::trie_get_recorded;
use ismp_core::trie::trie_insert;
use ismp_core::trie::trie_new;
use ismp_core::trie::trie_root;

use sp_runtime::traits::Keccak256;
use sp_trie::LayoutV0;
use sp_trie::StorageProof;
use sp_trie::Trie;
use sp_trie::TrieDBBuilder;
use sp_trie::TrieDBMutBuilder;
use sp_trie::TrieMut;

#[test]
fn compact_encoding_matches_reference_values() {
    assert_eq!(compact_u32_encode(0), vec![0x00]);
    assert_eq!(compact_u32_encode(1), vec![0x04]);
    assert_eq!(compact_u32_encode(2), vec![0x08]);
    assert_eq!(compact_u32_encode(63), vec![0xfc]);
    assert_eq!(compact_u32_encode(64), vec![0x01, 0x01]);
    assert_eq!(compact_u32_encode(16383), vec![0xfd, 0xff]);
    assert_eq!(compact_u32_encode(16384), vec![0x02, 0x00, 0x01, 0x00]);
    assert_eq!(compact_u32_encode(0x3fff_ffff), vec![0xfe, 0xff, 0xff, 0xff]);
    assert_eq!(compact_u32_encode(0x4000_0000), vec![0x03, 0x00, 0x00, 0x00, 0x40]);
    assert_eq!(compact_u32_encode(u32::MAX), vec![0x03, 0xff, 0xff, 0xff, 0xff]);
}

fn extrinsics() -> Vec<Vec<u8>> {
    vec![b"timestamp-inherent".to_vec(), b"transfer".to_vec(), b"remark".to_vec()]
}

/// Builds the same trie directly through the trie crate, with hand-encoded
/// compact keys, and returns its root.
fn reference_root(items: &[Vec<u8>]) -> [u8; 32] {
    let keys: Vec<Vec<u8>> = vec![vec![0x00], vec![0x04], vec![0x08]];
    assert_eq!(items.len(), 3);
    let mut db = sp_trie::MemoryDB::<Keccak256>::default();
    let mut root = Default::default();
    {
        let mut trie = TrieDBMutBuilder::<LayoutV0<Keccak256>>::new(&mut db, &mut root).build();
        for (k, item) in keys.iter().zip(items.iter()) {
            trie.insert(k, item).unwrap();
        }
    }
    root.0
}

#[test]
fn trie_wrappers_agree_with_direct_construction() {
    let items = extrinsics();
    let mut t = trie_new();
    for (i, item) in items.iter().enumerate() {
        let key = compact_u32_encode(i as u32);
        assert!(trie_insert(&mut t, &key, item));
    }
    assert_eq!(trie_root(&t), reference_root(&items));
    assert_eq!(extrinsics_trie_root(&items).unwrap(), reference_root(&items));

    let key0 = compact_u32_encode(0);
    let (value, nodes) = trie_get_recorded(&t, &key0).unwrap();
    assert_eq!(value, items[0]);
    assert!(!nodes.is_empty());

    let missing = trie_get_recorded(&t, &vec![0x55]);
    assert!(missing.is_none());
}

#[test]
fn timestamp_proof_verifies_against_the_root() {
    let items = extrinsics();
    let out = timestamp_extrinsic_with_proof(&items).unwrap();
    assert_eq!(out.ext, items[0]);
    assert!(!out.proof.is_empty());

    // no node repeats
    for i in 0..out.proof.len() {
        for j in (i + 1)..out.proof.len() {
            assert_ne!(out.proof[i], out.proof[j]);
        }
    }

    // reconstruct the root from the recorded nodes alone and resolve key 0
    let library_root = extrinsics_trie_root(&items).unwrap();
    assert_eq!(library_root, reference_root(&items));
    let root = sp_core::H256(library_root);
    let db = StorageProof::new(out.proof.clone()).into_memory_db::<Keccak256>();
    let trie = TrieDBBuilder::<LayoutV0<Keccak256>>::new(&db, &root).build();
    let got = trie.get(&[0x00]).unwrap().unwrap();
    assert_eq!(got, items[0]);
}

#[test]
fn timestamp_proof_does_not_verify_against_another_root() {
    let items = extrinsics();
    let out = timestamp_extrinsic_with_proof(&items).unwrap();

    let mut altered = items.clone();
    altered[1] = b"transfer-altered".to_vec();
    let other_root = sp_core::H256(reference_root(&altered));
    assert_ne!(other_root.0, reference_root(&items));

    let db = StorageProof::new(out.proof.clone()).into_memory_db::<Keccak256>();
    let trie = TrieDBBuilder::<LayoutV0<Keccak256>>::new(&db, &other_root).build();
    match trie.get(&[0x00]) {
        Err(_) => {},
        Ok(v) => assert_ne!(v, Some(items[0].clone())),
    }
}

#[test]
fn empty_extrinsic_list_is_a_hard_error() {
    let err = timestamp_extrinsic_with_proof(&Vec::new()).unwrap_err();
    assert_eq!(err, Error::EmptyExtrinsicList);
    let err = extrinsics_trie_root(&Vec::new()).unwrap_err();
    assert_eq!(err, Error::EmptyExtrinsicList);
}

#[test]
fn single_extrinsic_block_proves_key_zero() {
    let items = vec![b"only".to_vec()];
    let out = timestamp_extrinsic_with_proof(&items).unwrap();
    assert_eq!(out.ext, items[0]);
}
