use std::cell::Cell;
use std::rc::Rc;

use ismp_core::error::Error;
use ismp_core::handlers::handle_request_message;
use ismp_core::handlers::handle_response_message;
use ismp_core::host::ConsensusClient;
use ismp_core::host::IsmpHost;
use ismp_core::host::IsmpRouter;
use ismp_core::messaging::ConsensusClientId;
use ismp_core::messaging::Ethereum;
use ismp_core::messaging::Message;
use ismp_core::messaging::Proof;
use ismp_core::messaging::Request;
use ismp_core::messaging::RequestMessage;
use ismp_core::messaging::Response;
use ismp_core::messaging::ResponseMessage;
use ismp_core::messaging::StateMachine;
use ismp_core::messaging::StateMachineHeight;
use ismp_core::messaging::StateMachineId;

#[derive(Clone)]
struct TestClient {
    frozen: bool,
    accept: bool,
    membership_checks: Rc<Cell<u32>>,
}

impl ConsensusClient for TestClient {
    fn is_frozen(&self, _id: ConsensusClientId) -> bool {
        self.frozen
    }

    fn verify_membership(&self, _commitment: &Vec<u8>, _msg: &Message) -> Result<(), Error> {
        self.membership_checks.set(self.membership_checks.get() + 1);
        if self.accept {
            Ok(())
        } else {
            Err(Error::Custom { message: "membership proof rejected".to_string() })
        }
    }
}

#[derive(Clone)]
struct TestRouter {
    accept: bool,
    invocations: Rc<Cell<u32>>,
}

impl IsmpRouter for TestRouter {
    fn dispatch(&self, _request: Request) -> Result<(), Error> {
        self.invocations.set(self.invocations.get() + 1);
        if self.accept {
            Ok(())
        } else {
            Err(Error::Custom { message: "router refused the request".to_string() })
        }
    }

    fn write_response(&self, _response: Response) -> Result<(), Error> {
        self.invocations.set(self.invocations.get() + 1);
        if self.accept {
            Ok(())
        } else {
            Err(Error::Custom { message: "router refused the response".to_string() })
        }
    }
}

struct TestHost {
    client: Option<TestClient>,
    machine_frozen: bool,
    now: u64,
    update: u64,
    delay: u64,
    machine: StateMachine,
    stored: Option<Vec<u8>>,
    router: TestRouter,
}

fn request_digest(r: &Request) -> Vec<u8> {
    vec![r.nonce as u8, 0xc0]
}

impl IsmpHost for TestHost {
    type Client = TestClient;

    type Router = TestRouter;

    fn client_id_from_state_id(&self, _id: StateMachineId) -> ConsensusClientId {
        1
    }

    fn consensus_client(&self, id: ConsensusClientId) -> Result<TestClient, Error> {
        self.client.clone().ok_or(Error::ConsensusClientNotFound { id })
    }

    fn is_frozen(&self, _height: StateMachineHeight) -> bool {
        self.machine_frozen
    }

    fn host_timestamp(&self) -> u64 {
        self.now
    }

    fn state_machine_update_time(&self, _height: StateMachineHeight) -> u64 {
        self.update
    }

    fn challenge_period(&self, _id: StateMachineId) -> u64 {
        self.delay
    }

    fn get_request_commitment(&self, request: &Request) -> Vec<u8> {
        request_digest(request)
    }

    fn get_response_commitment(&self, response: &Response) -> Vec<u8> {
        vec![response.request.nonce as u8, 0xc1]
    }

    fn request_commitment(&self, request: &Request) -> Result<Vec<u8>, Error> {
        self.stored.clone().ok_or(Error::RequestCommitmentNotFound {
            nonce: request.nonce,
            source: request.source_chain,
            dest: request.dest_chain,
        })
    }

    fn host(&self) -> StateMachine {
        self.machine
    }

    fn ismp_router(&self) -> TestRouter {
        self.router.clone()
    }
}

fn height() -> StateMachineHeight {
    StateMachineHeight {
        id: StateMachineId {
            state_id: StateMachine::Polkadot(2000),
            consensus_state_id: *b"PARA",
        },
        height: 42,
    }
}

fn request() -> Request {
    Request {
        source_chain: StateMachine::Polkadot(2000),
        dest_chain: StateMachine::Ethereum(Ethereum::ExecutionLayer),
        nonce: 9,
        from: b"sender-module".to_vec(),
        to: b"receiver-module".to_vec(),
        timeout_timestamp: 500,
        data: b"payload".to_vec(),
    }
}

fn request_message() -> RequestMessage {
    RequestMessage { request: request(), proof: Proof { height: height(), data: b"p".to_vec() } }
}

fn response_message() -> ResponseMessage {
    ResponseMessage {
        response: Response { request: request(), response: b"answer".to_vec() },
        proof: Proof { height: height(), data: b"p".to_vec() },
    }
}

/// A host whose checks all pass: time 110, import time 100, delay 10.
fn host_with(client: Option<TestClient>, router: TestRouter) -> TestHost {
    TestHost {
        client,
        machine_frozen: false,
        now: 110,
        update: 100,
        delay: 10,
        machine: StateMachine::Ethereum(Ethereum::ExecutionLayer),
        stored: None,
        router,
    }
}

fn client(frozen: bool, accept: bool) -> TestClient {
    TestClient { frozen, accept, membership_checks: Rc::new(Cell::new(0)) }
}

fn router(accept: bool) -> TestRouter {
    TestRouter { accept, invocations: Rc::new(Cell::new(0)) }
}

#[test]
fn missing_consensus_client_is_rejected() {
    let r = router(true);
    let host = host_with(None, r.clone());
    let err = handle_request_message(&host, request_message()).unwrap_err();
    assert_eq!(err, Error::ConsensusClientNotFound { id: 1 });
    assert_eq!(r.invocations.get(), 0);
}

#[test]
fn frozen_consensus_client_is_rejected_and_router_untouched() {
    let r = router(true);
    let c = client(true, true);
    let host = host_with(Some(c.clone()), r.clone());
    let err = handle_request_message(&host, request_message()).unwrap_err();
    assert_eq!(err, Error::FrozenConsensusClient { id: 1 });
    assert_eq!(r.invocations.get(), 0);
    assert_eq!(c.membership_checks.get(), 0);
}

#[test]
fn frozen_state_machine_is_rejected() {
    let r = router(true);
    let mut host = host_with(Some(client(false, true)), r.clone());
    host.machine_frozen = true;
    let err = handle_request_message(&host, request_message()).unwrap_err();
    assert_eq!(err, Error::FrozenStateMachine { height: height() });
    assert_eq!(r.invocations.get(), 0);
}

#[test]
fn premature_delay_is_rejected() {
    let r = router(true);
    let mut host = host_with(Some(client(false, true)), r.clone());
    host.now = 105;
    let err = handle_request_message(&host, request_message()).unwrap_err();
    assert_eq!(err, Error::DelayNotElapsed { current_time: 105, update_time: 100 });
    assert_eq!(r.invocations.get(), 0);
}

#[test]
fn elapsed_delay_proceeds_to_membership_and_dispatch() {
    let r = router(true);
    let c = client(false, true);
    let host = host_with(Some(c.clone()), r.clone());
    assert_eq!(host.now - host.update, host.delay);
    assert_eq!(handle_request_message(&host, request_message()), Ok(()));
    assert_eq!(c.membership_checks.get(), 1);
    assert_eq!(r.invocations.get(), 1);
}

#[test]
fn failed_membership_check_keeps_router_untouched() {
    let r = router(true);
    let c = client(false, false);
    let host = host_with(Some(c.clone()), r.clone());
    let err = handle_request_message(&host, request_message()).unwrap_err();
    assert_eq!(err, Error::Custom { message: "membership proof rejected".to_string() });
    assert_eq!(c.membership_checks.get(), 1);
    assert_eq!(r.invocations.get(), 0);
}

#[test]
fn router_error_propagates_verbatim() {
    let r = router(false);
    let host = host_with(Some(client(false, true)), r.clone());
    let err = handle_request_message(&host, request_message()).unwrap_err();
    assert_eq!(err, Error::Custom { message: "router refused the request".to_string() });
    assert_eq!(r.invocations.get(), 1);
}

#[test]
fn response_with_mismatched_commitment_is_rejected_before_membership() {
    let r = router(true);
    let c = client(false, true);
    let mut host = host_with(Some(c.clone()), r.clone());
    // this host originally sent the request, but recorded another commitment
    host.machine = request().source_chain;
    host.stored = Some(vec![0xde, 0xad]);
    let err = handle_response_message(&host, response_message()).unwrap_err();
    assert_eq!(
        err,
        Error::RequestCommitmentNotFound {
            nonce: 9,
            source: request().source_chain,
            dest: request().dest_chain,
        },
    );
    assert_eq!(c.membership_checks.get(), 0);
    assert_eq!(r.invocations.get(), 0);
}

#[test]
fn response_with_no_stored_commitment_is_rejected() {
    let r = router(true);
    let mut host = host_with(Some(client(false, true)), r.clone());
    host.machine = request().source_chain;
    host.stored = None;
    let err = handle_response_message(&host, response_message()).unwrap_err();
    assert_eq!(
        err,
        Error::RequestCommitmentNotFound {
            nonce: 9,
            source: request().source_chain,
            dest: request().dest_chain,
        },
    );
}

#[test]
fn response_with_matching_commitment_is_delivered() {
    let r = router(true);
    let c = client(false, true);
    let mut host = host_with(Some(c.clone()), r.clone());
    host.machine = request().source_chain;
    host.stored = Some(request_digest(&request()));
    assert_eq!(handle_response_message(&host, response_message()), Ok(()));
    assert_eq!(c.membership_checks.get(), 1);
    assert_eq!(r.invocations.get(), 1);
}

#[test]
fn response_membership_failure_propagates_the_client_error() {
    let r = router(true);
    let c = client(false, false);
    let host = host_with(Some(c.clone()), r.clone());
    let err = handle_response_message(&host, response_message()).unwrap_err();
    assert_eq!(err, Error::Custom { message: "membership proof rejected".to_string() });
    assert_eq!(c.membership_checks.get(), 1);
    assert_eq!(r.invocations.get(), 0);
}

#[test]
fn response_router_refusal_propagates_the_router_error() {
    let r = router(false);
    let host = host_with(Some(client(false, true)), r.clone());
    let err = handle_response_message(&host, response_message()).unwrap_err();
    assert_eq!(err, Error::Custom { message: "router refused the response".to_string() });
    assert_eq!(r.invocations.get(), 1);
}

#[test]
fn response_to_a_foreign_request_skips_the_commitment_check() {
    let r = router(true);
    let c = client(false, true);
    // the host is not the response's source chain, so no stored commitment
    // is consulted
    let host = host_with(Some(c.clone()), r.clone());
    assert_eq!(handle_response_message(&host, response_message()), Ok(()));
    assert_eq!(r.invocations.get(), 1);
}
