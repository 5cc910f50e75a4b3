//! Core of a cross-chain interoperability protocol: the message-verification
//! pipeline a destination chain runs on receipt of a cross-chain message, and
//! the prover-side construction of the cryptographic artifacts that pipeline
//! consumes (Merkle multi-proofs over an authority set and Merkle-Patricia
//! trie existence proofs for extrinsics).

pub mod abi;
pub mod crypto;
pub mod error;
pub mod evm;
pub mod handlers;
pub mod host;
pub mod hashing;
pub mod merkle;
pub mod messaging;
pub mod ping_module;
pub mod prover;
pub mod trie;
