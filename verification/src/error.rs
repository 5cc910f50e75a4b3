//! The pipeline's error taxonomy. Every rejection carries enough structured
//! context to distinguish "not yet" (timing) from "never" (integrity/trust)
//! failures.

use vstd::prelude::*;

use crate::messaging::ConsensusClientId;
use crate::messaging::StateMachine;
use crate::messaging::StateMachineHeight;

verus! {

/// Everything this library can reject a message or a proving request for.
#[derive(Clone, Debug, PartialEq, Eq)]
pub enum Error {
    /// No consensus client is registered under this id.
    ConsensusClientNotFound { id: ConsensusClientId },
    /// The consensus client has been halted; terminal until unfrozen outside
    /// this pipeline.
    FrozenConsensusClient { id: ConsensusClientId },
    /// The state machine itself is frozen, independently of its consensus
    /// client.
    FrozenStateMachine { height: StateMachineHeight },
    /// The configured delay period since the height's import has not elapsed
    /// yet; the same message becomes valid once time passes.
    DelayNotElapsed { current_time: u64, update_time: u64 },
    /// A response was matched against a request this chain never dispatched.
    RequestCommitmentNotFound { nonce: u64, source: StateMachine, dest: StateMachine },
    /// A block with no extrinsics has nothing to prove.
    EmptyExtrinsicList,
    /// A signer's authority index lies outside the authority set.
    MerkleIndexOutOfRange { index: usize, leaf_count: usize },
    /// An encoded authority public key was too short to decode.
    AuthorityKeyDecode { index: usize },
    /// An error of a host, consensus client or router implementation,
    /// propagated verbatim.
    Custom { message: String },
}

} // verus!
