//! The capability contracts the pipeline consumes: the host, the consensus
//! clients it resolves, and the router verified messages are handed to.
//!
//! Each capability couples its operations to spec-level state so that the
//! pipeline's own contract can be stated exactly; implementations live with
//! the surrounding system and are injected per call.

use vstd::prelude::*;

use crate::error::Error;
use crate::messaging::ConsensusClientId;
use crate::messaging::Message;
use crate::messaging::Request;
use crate::messaging::Response;
use crate::messaging::StateMachine;
use crate::messaging::StateMachineHeight;
use crate::messaging::StateMachineId;
use vstd::pervasive::arbitrary;

verus! {

/// A consensus client: a stateful verifier tracking a counterparty chain's
/// trusted state roots. Its reads are pure with respect to this pipeline.
pub trait ConsensusClient: Sized {
    /// Whether this client has been halted; terminal until unfrozen outside
    /// this pipeline.
    open spec fn frozen(&self, id: ConsensusClientId) -> bool {
        arbitrary()
    }

    /// Which (commitment, message) pairs this client accepts: the message's
    /// proof attaches the commitment to a state root the client trusts at the
    /// message's height.
    open spec fn membership_valid(&self, commitment: Seq<u8>, msg: Message) -> bool {
        arbitrary()
    }

    /// The error detail this client reports when it rejects a pair; the
    /// pipeline propagates it verbatim.
    open spec fn membership_error(&self, commitment: Seq<u8>, msg: Message) -> Error {
        arbitrary()
    }

    /// Reports the freeze status.
    fn is_frozen(&self, id: ConsensusClientId) -> (r: bool)
        ensures
            r == self.frozen(id),
    ;

    /// Pure membership check; a failure carries the client's own error detail
    /// and is propagated verbatim by the pipeline.
    fn verify_membership(&self, commitment: &Vec<u8>, msg: &Message) -> (r: Result<(), Error>)
        ensures
            r is Ok <==> self.membership_valid(commitment@, *msg),
            r matches Err(e) ==> e == self.membership_error(commitment@, *msg),
    ;
}

/// The router verified messages are dispatched to; its failures abort the
/// pipeline and are propagated verbatim.
pub trait IsmpRouter: Sized {
    /// Which requests the router accepts.
    open spec fn dispatch_accepted(&self, request: Request) -> bool {
        arbitrary()
    }

    /// Which responses the router accepts.
    open spec fn response_accepted(&self, response: Response) -> bool {
        arbitrary()
    }

    /// The error this router reports when it refuses a request; the pipeline
    /// propagates it verbatim.
    open spec fn dispatch_error(&self, request: Request) -> Error {
        arbitrary()
    }

    /// The error this router reports when it refuses a response; the pipeline
    /// propagates it verbatim.
    open spec fn response_error(&self, response: Response) -> Error {
        arbitrary()
    }

    /// Delivers a verified request.
    fn dispatch(&self, request: Request) -> (r: Result<(), Error>)
        ensures
            r is Ok <==> self.dispatch_accepted(request),
            r matches Err(e) ==> e == self.dispatch_error(request),
    ;

    /// Delivers a verified response.
    fn write_response(&self, response: Response) -> (r: Result<(), Error>)
        ensures
            r is Ok <==> self.response_accepted(response),
            r matches Err(e) ==> e == self.response_error(response),
    ;
}

/// The host: read-only access to the chain's trust state, commitment store
/// and clock, threaded explicitly through every pipeline call.
pub trait IsmpHost: Sized {
    /// The consensus clients this host can resolve.
    type Client: ConsensusClient;

    /// The router this host dispatches into.
    type Router: IsmpRouter;

    /// The consensus client id serving a state machine.
    open spec fn client_id_of(&self, id: StateMachineId) -> ConsensusClientId {
        arbitrary()
    }

    /// The client registered under an id, if any.
    open spec fn client_of(&self, id: ConsensusClientId) -> Option<Self::Client> {
        arbitrary()
    }

    /// Whether the state machine itself is frozen, independently of its
    /// consensus client.
    open spec fn machine_frozen(&self, height: StateMachineHeight) -> bool {
        arbitrary()
    }

    /// The host's reading of the current time, in seconds.
    open spec fn current_time(&self) -> u64 {
        arbitrary()
    }

    /// The host-observed time at which a height was imported, in seconds.
    open spec fn update_time_of(&self, height: StateMachineHeight) -> u64 {
        arbitrary()
    }

    /// The configured delay period for a state machine, in seconds.
    open spec fn delay_of(&self, id: StateMachineId) -> u64 {
        arbitrary()
    }

    /// The commitment of a request under the host's canonical encoding: a
    /// pure function of the request.
    open spec fn request_commitment_of(&self, request: Request) -> Seq<u8> {
        arbitrary()
    }

    /// The commitment of a response under the host's canonical encoding.
    open spec fn response_commitment_of(&self, response: Response) -> Seq<u8> {
        arbitrary()
    }

    /// The commitment recorded when this chain dispatched the request, if it
    /// ever did.
    open spec fn stored_request_commitment(&self, request: Request) -> Option<Seq<u8>> {
        arbitrary()
    }

    /// The state machine this host itself runs.
    open spec fn host_state_machine(&self) -> StateMachine {
        arbitrary()
    }

    /// The router this host hands verified messages to.
    open spec fn router_of(&self) -> Self::Router {
        arbitrary()
    }

    /// Resolves the consensus client id serving a state machine.
    fn client_id_from_state_id(&self, id: StateMachineId) -> (r: ConsensusClientId)
        ensures
            r == self.client_id_of(id),
    ;

    /// Fetches the consensus client registered under an id.
    fn consensus_client(&self, id: ConsensusClientId) -> (r: Result<Self::Client, Error>)
        ensures
            r is Ok <==> self.client_of(id) is Some,
            r matches Ok(c) ==> self.client_of(id) == Some(c),
            r matches Err(e) ==> e == (Error::ConsensusClientNotFound { id }),
    ;

    /// Whether the state machine is frozen at this height's id.
    fn is_frozen(&self, height: StateMachineHeight) -> (r: bool)
        ensures
            r == self.machine_frozen(height),
    ;

    /// The current host time.
    fn host_timestamp(&self) -> (r: u64)
        ensures
            r == self.current_time(),
    ;

    /// The time the height was imported.
    fn state_machine_update_time(&self, height: StateMachineHeight) -> (r: u64)
        ensures
            r == self.update_time_of(height),
    ;

    /// The configured delay period.
    fn challenge_period(&self, id: StateMachineId) -> (r: u64)
        ensures
            r == self.delay_of(id),
    ;

    /// Derives a request's commitment by the canonical encoding.
    fn get_request_commitment(&self, request: &Request) -> (r: Vec<u8>)
        ensures
            r@ == self.request_commitment_of(*request),
    ;

    /// Derives a response's commitment by the canonical encoding.
    fn get_response_commitment(&self, response: &Response) -> (r: Vec<u8>)
        ensures
            r@ == self.response_commitment_of(*response),
    ;

    /// Looks up the commitment recorded when the request was dispatched.
    fn request_commitment(&self, request: &Request) -> (r: Result<Vec<u8>, Error>)
        ensures
            r is Ok <==> self.stored_request_commitment(*request) is Some,
            r matches Ok(c) ==> self.stored_request_commitment(*request) == Some(c@),
            r matches Err(e) ==> e == (Error::RequestCommitmentNotFound {
                nonce: request.nonce,
                source: request.source_chain,
                dest: request.dest_chain,
            }),
    ;

    /// The state machine this host runs.
    fn host(&self) -> (r: StateMachine)
        ensures
            r == self.host_state_machine(),
    ;

    /// The router for verified messages.
    fn ismp_router(&self) -> (r: Self::Router)
        ensures
            r == self.router_of(),
    ;
}

} // verus!
