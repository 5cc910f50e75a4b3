//! The protocol's hash domain: Keccak-256, fixed per deployment.

use vstd::prelude::*;

verus! {

/// The 32-byte Keccak-256 digest of a byte sequence, as an uninterpreted
/// function: all contracts in this crate speak of digests through this name.
pub uninterp spec fn keccak_of(data: Seq<u8>) -> [u8; 32];

/// Relies on `sp_io::hashing::keccak_256`: the 32-byte Keccak-256 digest of
/// the input, a pure function of the input bytes alone.
#[verifier::external_body]
pub fn keccak_256(data: &Vec<u8>) -> (r: [u8; 32])
    ensures
        r == keccak_of(data@),
{
    sp_io::hashing::keccak_256(data.as_slice())
}

/// Leaf and node hasher for the protocol's Merkle trees.
pub struct MerkleHasher;

impl MerkleHasher {
    /// Hashes arbitrary bytes into the fixed 32-byte hash domain.
    pub fn hash(data: &Vec<u8>) -> (r: [u8; 32])
        ensures
            r == keccak_of(data@),
    {
        keccak_256(data)
    }
}

/// The hash of an inner Merkle node: the two children's bytes are
/// concatenated in leaf-index order (left child first) and hashed.
pub open spec fn node_hash(a: [u8; 32], b: [u8; 32]) -> [u8; 32] {
    keccak_of(a@ + b@)
}

/// Combines two child hashes into their parent node hash.
pub fn hash_pair(a: &[u8; 32], b: &[u8; 32]) -> (r: [u8; 32])
    ensures
        r == node_hash(*a, *b),
{
    let mut buf: Vec<u8> = Vec::new();
    let mut i: usize = 0;
    while i < 32
        invariant
            i <= 32,
            buf@ =~= a@.subrange(0, i as int),
        decreases 32 - i,
    {
        buf.push(a[i]);
        i = i + 1;
    }
    let mut j: usize = 0;
    while j < 32
        invariant
            j <= 32,
            buf@ =~= a@ + b@.subrange(0, j as int),
        decreases 32 - j,
    {
        buf.push(b[j]);
        j = j + 1;
    }
    proof {
        assert(buf@ =~= a@ + b@);
    }
    keccak_256(&buf)
}

} // verus!
