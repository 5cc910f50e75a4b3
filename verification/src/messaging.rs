//! The data model of the message-verification pipeline: state machine
//! identifiers, proofs, requests, responses and their wire envelopes.

use vstd::prelude::*;

verus! {

/// Identifier of the consensus client tracking a counterparty chain.
pub type ConsensusClientId = u64;

/// A 4-byte namespace distinguishing multiple consensus clients for the same
/// state machine.
pub type ConsensusStateId = [u8; 4];

/// The Ethereum execution environments the protocol distinguishes.
#[derive(Clone, Copy, Debug, PartialEq, Eq, Structural)]
pub enum Ethereum {
    ExecutionLayer,
    Arbitrum,
    Optimism,
    Base,
}

/// A distinct chain participating in the protocol.
#[derive(Clone, Copy, Debug, PartialEq, Eq, Structural)]
pub enum StateMachine {
    Ethereum(Ethereum),
    Polkadot(u32),
    Kusama(u32),
}

/// Identifies a counterparty chain together with the consensus client
/// tracking it.
#[derive(Clone, Copy, Debug, PartialEq, Eq)]
pub struct StateMachineId {
    pub state_id: StateMachine,
    pub consensus_state_id: ConsensusStateId,
}

/// A height of a state machine: totally ordered within a fixed id.
#[derive(Clone, Copy, Debug, PartialEq, Eq)]
pub struct StateMachineHeight {
    pub id: StateMachineId,
    pub height: u64,
}

/// A membership proof anchored at a state machine height; the bytes are
/// opaque to the pipeline and interpreted only by the matching consensus
/// client.
#[derive(Clone, Debug, PartialEq, Eq)]
pub struct Proof {
    pub height: StateMachineHeight,
    pub data: Vec<u8>,
}

/// An application request sent from a source chain to a destination chain.
#[derive(Clone, Debug, PartialEq, Eq)]
pub struct Request {
    pub source_chain: StateMachine,
    pub dest_chain: StateMachine,
    pub nonce: u64,
    pub from: Vec<u8>,
    pub to: Vec<u8>,
    pub timeout_timestamp: u64,
    pub data: Vec<u8>,
}

/// An application response; it owns the request it answers.
#[derive(Clone, Debug, PartialEq, Eq)]
pub struct Response {
    pub request: Request,
    pub response: Vec<u8>,
}

/// Wire envelope pairing a request with its membership proof.
#[derive(Clone, Debug, PartialEq, Eq)]
pub struct RequestMessage {
    pub request: Request,
    pub proof: Proof,
}

/// Wire envelope pairing a response with its membership proof.
#[derive(Clone, Debug, PartialEq, Eq)]
pub struct ResponseMessage {
    pub response: Response,
    pub proof: Proof,
}

/// An incoming message handed to a consensus client for membership
/// verification.
#[derive(Clone, Debug, PartialEq, Eq)]
pub enum Message {
    Request(RequestMessage),
    Response(ResponseMessage),
}

/// Compares two byte vectors.
pub fn bytes_eq(a: &Vec<u8>, b: &Vec<u8>) -> (r: bool)
    ensures
        r == (a@ == b@),
{
    if a.len() != b.len() {
        return false;
    }
    let mut i: usize = 0;
    while i < a.len()
        invariant
            a@.len() == b@.len(),
            i <= a@.len(),
            forall|j: int| 0 <= j < i ==> a@[j] == b@[j],
        decreases a@.len() - i,
    {
        if a[i] != b[i] {
            return false;
        }
        i = i + 1;
    }
    proof {
        assert(a@ =~= b@);
    }
    true
}

} // verus!
