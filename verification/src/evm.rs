//! Storage-key derivation for the commitment maps of an execution-layer host
//! contract, and the height policy an execution client starts from.

use vstd::prelude::*;

use crate::abi::abi_word;
use crate::abi::push_word_u64;
use crate::hashing::keccak_256;
use crate::hashing::keccak_of;

verus! {

/// Which height an execution client should adopt as its initial one.
#[derive(Clone, Copy, Debug, PartialEq, Eq)]
pub enum LatestHeight {
    /// The height of the latest messaging activity on the counterparty.
    LastMessaging,
    /// The chain's current height.
    LatestHeight,
    /// A fixed height.
    Const(u64),
}

/// The storage key of a mapping entry in the host contract: the entry's key
/// bytes followed by the 32-byte big-endian slot number, hashed.
pub fn derive_map_key(key: Vec<u8>, slot: u64) -> (r: [u8; 32])
    ensures
        r == keccak_of(key@ + abi_word(slot as int)),
{
    let mut buf = key;
    push_word_u64(&mut buf, slot);
    keccak_256(&buf)
}

} // verus!
