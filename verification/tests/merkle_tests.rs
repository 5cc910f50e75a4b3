use ismp_core::hashing::MerkleHasher;
use ismp_core::merkle::verify_leaf_path;
use ismp_core::merkle::verify_multi_proof;
use ismp_core::merkle::MerkleTree;

fn leaf(data: &[u8]) -> [u8; 32] {
    MerkleHasher::hash(&data.to_vec())
}

fn five_leaves() -> Vec<[u8; 32]> {
    vec![leaf(b"alpha"), leaf(b"beta"), leaf(b"gamma"), leaf(b"delta"), leaf(b"epsilon")]
}

#[test]
fn keccak_matches_known_digests() {
    let empty = MerkleHasher::hash(&Vec::new());
    let expected_empty: [u8; 32] = [
        0xc5, 0xd2, 0x46, 0x01, 0x86, 0xf7, 0x23, 0x3c, 0x92, 0x7e, 0x7d, 0xb2, 0xdc, 0xc7, 0x03,
        0xc0, 0xe5, 0x00, 0xb6, 0x53, 0xca, 0x82, 0x27, 0x3b, 0x7b, 0xfa, 0xd8, 0x04, 0x5d, 0x85,
        0xa4, 0x70,
    ];
    assert_eq!(empty, expected_empty);

    let abc = MerkleHasher::hash(&b"abc".to_vec());
    let expected_abc: [u8; 32] = [
        0x4e, 0x03, 0x65, 0x7a, 0xea, 0x45, 0xa9, 0x4f, 0xc7, 0xd4, 0x7b, 0xa8, 0x26, 0xc8, 0xd6,
        0x67, 0xc0, 0xd1, 0xe6, 0xe3, 0x3a, 0x64, 0xa0, 0x36, 0xec, 0x44, 0xf5, 0x8f, 0xa1, 0x2d,
        0x6c, 0x45,
    ];
    assert_eq!(abc, expected_abc);
}

#[test]
fn root_matches_independent_computation() {
    // three leaves: the root is hash(hash(l0 ++ l1) ++ l2), with the odd leaf
    // promoted unchanged
    let leaves = vec![leaf(b"a"), leaf(b"b"), leaf(b"c")];
    let tree = MerkleTree::from_leaves(&leaves);
    let root = tree.root();

    let mut pair = Vec::new();
    pair.extend_from_slice(&leaves[0]);
    pair.extend_from_slice(&leaves[1]);
    let inner = sp_io::hashing::keccak_256(&pair);
    let mut top = Vec::new();
    top.extend_from_slice(&inner);
    top.extend_from_slice(&leaves[2]);
    let expected = sp_io::hashing::keccak_256(&top);
    assert_eq!(root, expected);
}

#[test]
fn multi_proof_round_trip_five_leaves() {
    let leaves = five_leaves();
    let tree = MerkleTree::from_leaves(&leaves);
    assert_eq!(tree.leaf_count(), 5);
    let root = tree.root();
    let indices = vec![1usize, 3usize];
    let proof = tree.multi_proof(&indices);
    let known = vec![(1usize, leaves[1]), (3usize, leaves[3])];
    assert!(verify_multi_proof(5, &known, &proof, &root));
}

#[test]
fn multi_proof_round_trip_all_subsets_of_six() {
    let mut leaves = five_leaves();
    leaves.push(leaf(b"zeta"));
    let tree = MerkleTree::from_leaves(&leaves);
    let root = tree.root();
    for mask in 0u32..64 {
        let mut indices = Vec::new();
        let mut known = Vec::new();
        for i in 0..6usize {
            if mask & (1 << i) != 0 {
                indices.push(i);
                known.push((i, leaves[i]));
            }
        }
        let proof = tree.multi_proof(&indices);
        assert!(verify_multi_proof(6, &known, &proof, &root), "subset {mask} failed");
    }
}

#[test]
fn multi_proof_empty_indices_is_empty() {
    let leaves = five_leaves();
    let tree = MerkleTree::from_leaves(&leaves);
    let root = tree.root();
    let proof = tree.multi_proof(&Vec::new());
    assert!(proof.is_empty());
    assert!(verify_multi_proof(5, &Vec::new(), &proof, &root));
}

#[test]
fn single_leaf_tree_root_is_leaf() {
    let leaves = vec![leaf(b"solo")];
    let tree = MerkleTree::from_leaves(&leaves);
    assert_eq!(tree.root(), leaves[0]);
    let proof = tree.multi_proof(&vec![0usize]);
    assert!(proof.is_empty());
    assert!(verify_multi_proof(1, &vec![(0usize, leaves[0])], &proof, &tree.root()));
}

#[test]
fn tampered_sibling_fails_verification() {
    let leaves = five_leaves();
    let tree = MerkleTree::from_leaves(&leaves);
    let root = tree.root();
    let indices = vec![1usize, 3usize];
    let mut proof = tree.multi_proof(&indices);
    assert!(!proof.is_empty());
    proof[0].1[0] ^= 0x01;
    let known = vec![(1usize, leaves[1]), (3usize, leaves[3])];
    assert!(!verify_multi_proof(5, &known, &proof, &root));
}

#[test]
fn tampered_leaf_fails_verification() {
    let leaves = five_leaves();
    let tree = MerkleTree::from_leaves(&leaves);
    let root = tree.root();
    let indices = vec![1usize, 3usize];
    let proof = tree.multi_proof(&indices);
    let mut bad = leaves[1];
    bad[5] ^= 0xff;
    let known = vec![(1usize, bad), (3usize, leaves[3])];
    assert!(!verify_multi_proof(5, &known, &proof, &root));
}

#[test]
fn wrong_root_fails_verification() {
    let leaves = five_leaves();
    let tree = MerkleTree::from_leaves(&leaves);
    let mut root = tree.root();
    root[0] ^= 0x80;
    let indices = vec![2usize];
    let proof = tree.multi_proof(&indices);
    let known = vec![(2usize, leaves[2])];
    assert!(!verify_multi_proof(5, &known, &proof, &root));
}

#[test]
fn leaf_paths_resolve_every_position() {
    let leaves = five_leaves();
    let tree = MerkleTree::from_leaves(&leaves);
    let root = tree.root();
    for i in 0..5usize {
        let path = tree.leaf_auth_path(i);
        assert!(verify_leaf_path(5, i, &leaves[i], &path, &root));
        // the same path at another position must not resolve
        let other = (i + 1) % 5;
        assert!(!verify_leaf_path(5, other, &leaves[i], &path, &root)
            || leaves[i] == leaves[other]);
    }
}

#[test]
fn odd_and_even_leaf_counts_round_trip() {
    for n in 1usize..=9 {
        let mut leaves = Vec::new();
        for i in 0..n {
            leaves.push(leaf(format!("item-{i}").as_bytes()));
        }
        let tree = MerkleTree::from_leaves(&leaves);
        let root = tree.root();
        let indices: Vec<usize> = (0..n).collect();
        let known: Vec<(usize, [u8; 32])> = indices.iter().map(|&i| (i, leaves[i])).collect();
        let proof = tree.multi_proof(&indices);
        assert!(verify_multi_proof(n, &known, &proof, &root), "full set of {n} failed");
    }
}
