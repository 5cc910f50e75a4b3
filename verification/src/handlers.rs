//! The message-verification pipeline: consensus-client freshness checks,
//! freeze checks, delay enforcement, commitment derivation, membership
//! verification, and hand-off to the router. A rejection at any checkpoint is
//! terminal for the message instance; no side effect happens before the
//! router is invoked.

use vstd::prelude::*;

use crate::error::Error;
use crate::host::ConsensusClient;
use crate::host::IsmpHost;
use crate::host::IsmpRouter;
use crate::messaging::bytes_eq;
use crate::messaging::Message;
use crate::messaging::Proof;
use crate::messaging::RequestMessage;
use crate::messaging::ResponseMessage;
use crate::messaging::StateMachineHeight;
use vstd::pervasive::unreached;

verus! {

/// Whether the configured delay period has elapsed since the height was
/// imported, relative to the host's current time.
pub open spec fn delay_elapsed<H: IsmpHost>(host: &H, height: StateMachineHeight) -> bool {
    let now = host.current_time();
    let upd = host.update_time_of(height);
    let elapsed: int = if now >= upd {
        now - upd
    } else {
        0
    };
    elapsed >= host.delay_of(height.id)
}

/// The outcome of the preliminary state-machine checks for a proof anchored
/// at `height`: either the resolved consensus client, or the first rejection
/// in checking order (client missing, client frozen, state machine frozen,
/// delay not elapsed).
pub open spec fn validate_outcome<H: IsmpHost>(host: &H, height: StateMachineHeight) -> Result<
    H::Client,
    Error,
> {
    let cid = host.client_id_of(height.id);
    match host.client_of(cid) {
        None => Err(Error::ConsensusClientNotFound { id: cid }),
        Some(client) => if client.frozen(cid) {
            Err(Error::FrozenConsensusClient { id: cid })
        } else if host.machine_frozen(height) {
            Err(Error::FrozenStateMachine { height })
        } else if !delay_elapsed(host, height) {
            Err(
                Error::DelayNotElapsed {
                    current_time: host.current_time(),
                    update_time: host.update_time_of(height),
                },
            )
        } else {
            Ok(client)
        },
    }
}

/// Whether the delay period configured for the height's state machine has
/// elapsed since the height was imported.
pub fn verify_delay_passed<H: IsmpHost>(host: &H, height: StateMachineHeight) -> (r: bool)
    ensures
        r == delay_elapsed(host, height),
{
    let current_time = host.host_timestamp();
    let update_time = host.state_machine_update_time(height);
    let delay = host.challenge_period(height.id);
    let elapsed = if current_time >= update_time {
        current_time - update_time
    } else {
        0
    };
    elapsed >= delay
}

/// The preliminary checks for a request or response message: the consensus
/// client exists and is not frozen, the state machine is not frozen, and the
/// configured delay period has elapsed.
pub fn validate_state_machine<H: IsmpHost>(host: &H, proof: &Proof) -> (r: Result<
    H::Client,
    Error,
>)
    ensures
        r == validate_outcome(host, proof.height),
{
    let consensus_client_id = host.client_id_from_state_id(proof.height.id);
    let consensus_client = match host.consensus_client(consensus_client_id) {
        Ok(c) => c,
        Err(e) => {
            return Err(e);
        },
    };
    if consensus_client.is_frozen(consensus_client_id) {
        return Err(Error::FrozenConsensusClient { id: consensus_client_id });
    }
    if host.is_frozen(proof.height) {
        return Err(Error::FrozenStateMachine { height: proof.height });
    }
    if !verify_delay_passed(host, proof.height) {
        return Err(
            Error::DelayNotElapsed {
                current_time: host.host_timestamp(),
                update_time: host.state_machine_update_time(proof.height),
            },
        );
    }
    Ok(consensus_client)
}

/// Validates the state machine, verifies the request message's membership
/// proof, and dispatches the request to the router. Rejections happen in
/// checking order; the router is reached only for a fully verified message,
/// and the consensus client's or router's own rejection is propagated
/// verbatim.
pub fn handle_request_message<H: IsmpHost>(host: &H, msg: RequestMessage) -> (r: Result<(), Error>)
    ensures
        match validate_outcome(host, msg.proof.height) {
            Err(e) => r == Err::<(), Error>(e),
            Ok(client) => {
                let commitment = host.request_commitment_of(msg.request);
                if !client.membership_valid(commitment, Message::Request(msg)) {
                    r == Err::<(), Error>(
                        client.membership_error(commitment, Message::Request(msg)),
                    )
                } else if !host.router_of().dispatch_accepted(msg.request) {
                    r == Err::<(), Error>(host.router_of().dispatch_error(msg.request))
                } else {
                    r == Ok::<(), Error>(())
                }
            },
        },
{
    let ghost msg0 = msg;
    let consensus_client = match validate_state_machine(host, &msg.proof) {
        Ok(c) => c,
        Err(e) => {
            return Err(e);
        },
    };
    let commitment = host.get_request_commitment(&msg.request);
    let message = Message::Request(msg);
    match consensus_client.verify_membership(&commitment, &message) {
        Ok(_) => {},
        Err(e) => {
            return Err(e);
        },
    }
    let delivered = match message {
        Message::Request(m) => m,
        Message::Response(_) => unreached(),
    };
    let router = host.ismp_router();
    match router.dispatch(delivered.request) {
        Ok(_) => Ok(()),
        Err(e) => Err(e),
    }
}

/// Validates the state machine and, when this host is the response's own
/// source chain, re-derives the outbound request's commitment and compares it
/// against the commitment recorded at dispatch time before any membership
/// proof is checked: a mismatch means the response answers a request this
/// chain never sent. Then verifies the response's membership proof and hands
/// the response to the router; the consensus client's or router's own
/// rejection is propagated verbatim.
pub fn handle_response_message<H: IsmpHost>(host: &H, msg: ResponseMessage) -> (r: Result<
    (),
    Error,
>)
    ensures
        match validate_outcome(host, msg.proof.height) {
            Err(e) => r == Err::<(), Error>(e),
            Ok(client) => {
                let req = msg.response.request;
                let commitment = host.response_commitment_of(msg.response);
                if host.host_state_machine() == req.source_chain
                    && host.stored_request_commitment(req) != Some(
                    host.request_commitment_of(req),
                ) {
                    r == Err::<(), Error>(
                        Error::RequestCommitmentNotFound {
                            nonce: req.nonce,
                            source: req.source_chain,
                            dest: req.dest_chain,
                        },
                    )
                } else if !client.membership_valid(commitment, Message::Response(msg)) {
                    r == Err::<(), Error>(
                        client.membership_error(commitment, Message::Response(msg)),
                    )
                } else if !host.router_of().response_accepted(msg.response) {
                    r == Err::<(), Error>(host.router_of().response_error(msg.response))
                } else {
                    r == Ok::<(), Error>(())
                }
            },
        },
{
    let consensus_client = match validate_state_machine(host, &msg.proof) {
        Ok(c) => c,
        Err(e) => {
            return Err(e);
        },
    };
    if host.host() == msg.response.request.source_chain {
        let commitment = host.get_request_commitment(&msg.response.request);
        match host.request_commitment(&msg.response.request) {
            Ok(stored) => {
                if !bytes_eq(&commitment, &stored) {
                    return Err(
                        Error::RequestCommitmentNotFound {
                            nonce: msg.response.request.nonce,
                            source: msg.response.request.source_chain,
                            dest: msg.response.request.dest_chain,
                        },
                    );
                }
            },
            Err(e) => {
                return Err(e);
            },
        }
    }
    let commitment = host.get_response_commitment(&msg.response);
    let message = Message::Response(msg);
    match consensus_client.verify_membership(&commitment, &message) {
        Ok(_) => {},
        Err(e) => {
            return Err(e);
        },
    }
    let delivered = match message {
        Message::Response(m) => m,
        Message::Request(_) => unreached(),
    };
    let router = host.ismp_router();
    match router.write_response(delivered.response) {
        Ok(_) => Ok(()),
        Err(e) => Err(e),
    }
}

} // verus!
