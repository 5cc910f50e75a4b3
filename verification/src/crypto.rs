//! The one point-validity computation the authority prover cannot do itself:
//! decompressing a 33-byte compressed secp256k1 public key.

use vstd::prelude::*;

verus! {

/// Whether a 33-byte compressed encoding denotes a valid secp256k1 curve
/// point.
pub uninterp spec fn secp_key_ok(key: Seq<u8>) -> bool;

/// The 64 uncompressed coordinate bytes of a valid compressed key.
pub uninterp spec fn secp_uncompressed_of(key: Seq<u8>) -> Seq<u8>;

/// Relies on `secp256k1::PublicKey::from_slice` and
/// `PublicKey::serialize_uncompressed`: parsing a 33-byte compressed encoding
/// succeeds exactly when it denotes a valid curve point, and serializing
/// yields `0x04` followed by the 64 uncompressed coordinate bytes, a pure
/// function of the key alone.
#[verifier::external_body]
pub fn decompress_pubkey(key: &Vec<u8>) -> (r: Option<Vec<u8>>)
    requires
        key@.len() == 33,
    ensures
        r is Some <==> secp_key_ok(key@),
        r matches Some(u) ==> u@ == secp_uncompressed_of(key@) && u@.len() == 64,
{
    match secp256k1::PublicKey::from_slice(key.as_slice()) {
        Ok(p) => Some(p.serialize_uncompressed()[1..].to_vec()),
        Err(_) => None,
    }
}

} // verus!
