//! Typed binding for the ping contract: builders for every call the module
//! offers, with the exact calldata each call carries, and the log filters for
//! its events.

use vstd::prelude::*;

use crate::abi::abi_address_word;
use crate::abi::abi_word;
use crate::abi::enc_get_request;
use crate::abi::enc_get_request_vec;
use crate::abi::enc_incoming_get_response;
use crate::abi::enc_incoming_get_response_vec;
use crate::abi::enc_incoming_post_request;
use crate::abi::enc_incoming_post_request_vec;
use crate::abi::enc_incoming_post_response;
use crate::abi::enc_incoming_post_response_vec;
use crate::abi::enc_ping_message;
use crate::abi::enc_ping_message_vec;
use crate::abi::enc_post_request;
use crate::abi::enc_post_request_vec;
use crate::abi::enc_post_response;
use crate::abi::enc_post_response_vec;
use crate::abi::abi_bytes;
use crate::abi::abi_bytes_vec;
use crate::abi::bytes_ok;
use crate::abi::get_request_ok;
use crate::abi::get_response_ok;
use crate::abi::ping_message_ok;
use crate::abi::post_request_ok;
use crate::abi::post_response_ok;
use crate::abi::push_address_word;
use crate::abi::push_all;
use crate::abi::push_u256_word;
use crate::abi::push_word_usize;
use crate::abi::Address;
use crate::abi::GetRequest;
use crate::abi::IncomingGetResponse;
use crate::abi::IncomingPostRequest;
use crate::abi::IncomingPostResponse;
use crate::abi::PingMessage;
use crate::abi::PostRequest;
use crate::abi::PostResponse;
use crate::abi::StorageValue;
use crate::abi::U256;
use crate::hashing::keccak_256;
use crate::hashing::keccak_of;
use vstd::string::StrSliceExecFns;
use vstd::string::StringSliceAdditionalSpecFns;

verus! {

/// A prepared contract call: the address it goes to and the calldata it
/// carries.
#[derive(Clone, Debug, PartialEq, Eq)]
pub struct ContractCall {
    pub to: Address,
    pub data: Vec<u8>,
}

/// A log filter: the contract address and, when one event is selected, that
/// event's signature topic.
#[derive(Clone, Debug, PartialEq, Eq)]
pub struct LogFilter {
    pub address: Address,
    pub topic0: Option<[u8; 32]>,
}

/// Input of the `dispatch` function taking a get request.
#[derive(Clone, Debug, PartialEq, Eq)]
pub struct DispatchCall {
    pub request: GetRequest,
}

/// Input of the second `dispatch` overload, also taking a get request.
#[derive(Clone, Debug, PartialEq, Eq)]
pub struct DispatchWithRequestCall {
    pub request: GetRequest,
}

/// Input of `dispatchPostResponse`.
#[derive(Clone, Debug, PartialEq, Eq)]
pub struct DispatchPostResponseCall {
    pub response: PostResponse,
}

/// Input of `dispatchToParachain`.
#[derive(Clone, Copy, Debug, PartialEq, Eq)]
pub struct DispatchToParachainCall {
    pub para_id: U256,
}

/// Input of `host`.
#[derive(Clone, Copy, Debug, PartialEq, Eq)]
pub struct HostCall;

/// Input of `onAccept`.
#[derive(Clone, Debug, PartialEq, Eq)]
pub struct OnAcceptCall {
    pub incoming: IncomingPostRequest,
}

/// Input of `onGetResponse`.
#[derive(Clone, Debug, PartialEq, Eq)]
pub struct OnGetResponseCall {
    pub response: IncomingGetResponse,
}

/// Input of `onGetTimeout`.
#[derive(Clone, Debug, PartialEq, Eq)]
pub struct OnGetTimeoutCall(pub GetRequest);

/// Input of `onPostRequestTimeout`.
#[derive(Clone, Debug, PartialEq, Eq)]
pub struct OnPostRequestTimeoutCall(pub PostRequest);

/// Input of `onPostResponse`.
#[derive(Clone, Debug, PartialEq, Eq)]
pub struct OnPostResponseCall(pub IncomingPostResponse);

/// Input of `onPostResponseTimeout`.
#[derive(Clone, Debug, PartialEq, Eq)]
pub struct OnPostResponseTimeoutCall(pub PostResponse);

/// Input of `ping`.
#[derive(Clone, Debug, PartialEq, Eq)]
pub struct PingCall {
    pub ping_message: PingMessage,
}

/// Input of `previousPostRequest`.
#[derive(Clone, Copy, Debug, PartialEq, Eq)]
pub struct PreviousPostRequestCall;

/// Input of `setIsmpHost`.
#[derive(Clone, Copy, Debug, PartialEq, Eq)]
pub struct SetIsmpHostCall {
    pub host_addr: Address,
}

/// Every call the ping contract accepts.
#[derive(Clone, Debug, PartialEq, Eq)]
pub enum PingModuleCalls {
    Dispatch(DispatchCall),
    DispatchWithRequest(DispatchWithRequestCall),
    DispatchPostResponse(DispatchPostResponseCall),
    DispatchToParachain(DispatchToParachainCall),
    Host(HostCall),
    OnAccept(OnAcceptCall),
    OnGetResponse(OnGetResponseCall),
    OnGetTimeout(OnGetTimeoutCall),
    OnPostRequestTimeout(OnPostRequestTimeoutCall),
    OnPostResponse(OnPostResponseCall),
    OnPostResponseTimeout(OnPostResponseTimeoutCall),
    Ping(PingCall),
    PreviousPostRequest(PreviousPostRequestCall),
    SetIsmpHost(SetIsmpHostCall),
}

/// The size caps a call's argument must satisfy so that its calldata fits.
pub open spec fn call_ok(c: PingModuleCalls) -> bool {
    match c {
        PingModuleCalls::Dispatch(d) => get_request_ok(d.request),
        PingModuleCalls::DispatchWithRequest(d) => get_request_ok(d.request),
        PingModuleCalls::DispatchPostResponse(d) => post_response_ok(d.response),
        PingModuleCalls::DispatchToParachain(_) => true,
        PingModuleCalls::Host(_) => true,
        PingModuleCalls::OnAccept(c) => post_request_ok(c.incoming.request),
        PingModuleCalls::OnGetResponse(c) => get_response_ok(c.response.response),
        PingModuleCalls::OnGetTimeout(c) => get_request_ok(c.0),
        PingModuleCalls::OnPostRequestTimeout(c) => post_request_ok(c.0),
        PingModuleCalls::OnPostResponse(c) => post_response_ok(c.0.response),
        PingModuleCalls::OnPostResponseTimeout(c) => post_response_ok(c.0),
        PingModuleCalls::Ping(c) => ping_message_ok(c.ping_message),
        PingModuleCalls::PreviousPostRequest(_) => true,
        PingModuleCalls::SetIsmpHost(_) => true,
    }
}

/// The exact calldata of each call: its 4-byte selector followed by the
/// encoding of its argument tuple (a dynamic argument stands behind the
/// one-word offset of a single-member tuple).
pub open spec fn call_data_spec(c: PingModuleCalls) -> Seq<u8> {
    match c {
        PingModuleCalls::Dispatch(d) => seq![0x70u8, 0xc5u8, 0x47u8, 0x4fu8] + abi_word(32)
            + enc_get_request(d.request),
        PingModuleCalls::DispatchWithRequest(d) => seq![0xd2u8, 0x10u8, 0x50u8, 0xdbu8] + abi_word(
            32,
        ) + enc_get_request(d.request),
        PingModuleCalls::DispatchPostResponse(d) => seq![0x4du8, 0x0du8, 0x9cu8, 0x3bu8]
            + abi_word(32) + enc_post_response(d.response),
        PingModuleCalls::DispatchToParachain(d) => seq![0x72u8, 0x35u8, 0x4eu8, 0x9bu8]
            + d.para_id.word(),
        PingModuleCalls::Host(_) => seq![0xf4u8, 0x37u8, 0xbcu8, 0x59u8],
        PingModuleCalls::OnAccept(c) => seq![0x0fu8, 0xeeu8, 0x32u8, 0xceu8] + abi_word(32)
            + enc_incoming_post_request(c.incoming),
        PingModuleCalls::OnGetResponse(c) => seq![0x44u8, 0xabu8, 0x20u8, 0xf8u8] + abi_word(32)
            + enc_incoming_get_response(c.response),
        PingModuleCalls::OnGetTimeout(c) => seq![0xd0u8, 0xffu8, 0xf3u8, 0x66u8] + abi_word(32)
            + enc_get_request(c.0),
        PingModuleCalls::OnPostRequestTimeout(c) => seq![0xbcu8, 0x0du8, 0xd4u8, 0x47u8]
            + abi_word(32) + enc_post_request(c.0),
        PingModuleCalls::OnPostResponse(c) => seq![0xb2u8, 0xa0u8, 0x1bu8, 0xf5u8] + abi_word(32)
            + enc_incoming_post_response(c.0),
        PingModuleCalls::OnPostResponseTimeout(c) => seq![0x0bu8, 0xc3u8, 0x7bu8, 0xabu8]
            + abi_word(32) + enc_post_response(c.0),
        PingModuleCalls::Ping(c) => seq![0x4au8, 0x69u8, 0x2eu8, 0x06u8] + abi_word(32)
            + enc_ping_message(c.ping_message),
        PingModuleCalls::PreviousPostRequest(_) => seq![0x88u8, 0xd9u8, 0xf1u8, 0x70u8],
        PingModuleCalls::SetIsmpHost(c) => seq![0x0eu8, 0x83u8, 0x24u8, 0xa2u8]
            + abi_address_word(c.host_addr),
    }
}

/// Appends a 4-byte selector.
fn push_selector(out: &mut Vec<u8>, a: u8, b: u8, c: u8, d: u8)
    ensures
        final(out)@ == old(out)@ + seq![a, b, c, d],
{
    out.push(a);
    out.push(b);
    out.push(c);
    out.push(d);
    proof {
        assert(out@ =~= old(out)@ + seq![a, b, c, d]);
    }
}

impl PingModuleCalls {
    /// Encodes the call into the calldata the contract expects.
    pub fn encode(&self) -> (r: Vec<u8>)
        requires
            call_ok(*self),
        ensures
            r@ == call_data_spec(*self),
    {
        let mut out: Vec<u8> = Vec::new();
        match self {
            PingModuleCalls::Dispatch(d) => {
                push_selector(&mut out, 0x70, 0xc5, 0x47, 0x4f);
                push_word_usize(&mut out, 32);
                let arg = enc_get_request_vec(&d.request);
                push_all(&mut out, &arg);
                proof {
                    assert(out@ =~= call_data_spec(*self));
                }
            },
            PingModuleCalls::DispatchWithRequest(d) => {
                push_selector(&mut out, 0xd2, 0x10, 0x50, 0xdb);
                push_word_usize(&mut out, 32);
                let arg = enc_get_request_vec(&d.request);
                push_all(&mut out, &arg);
                proof {
                    assert(out@ =~= call_data_spec(*self));
                }
            },
            PingModuleCalls::DispatchPostResponse(d) => {
                push_selector(&mut out, 0x4d, 0x0d, 0x9c, 0x3b);
                push_word_usize(&mut out, 32);
                let arg = enc_post_response_vec(&d.response);
                push_all(&mut out, &arg);
                proof {
                    assert(out@ =~= call_data_spec(*self));
                }
            },
            PingModuleCalls::DispatchToParachain(d) => {
                push_selector(&mut out, 0x72, 0x35, 0x4e, 0x9b);
                push_u256_word(&mut out, &d.para_id);
                proof {
                    assert(out@ =~= call_data_spec(*self));
                }
            },
            PingModuleCalls::Host(_) => {
                push_selector(&mut out, 0xf4, 0x37, 0xbc, 0x59);
                proof {
                    assert(out@ =~= call_data_spec(*self));
                }
            },
            PingModuleCalls::OnAccept(c) => {
                push_selector(&mut out, 0x0f, 0xee, 0x32, 0xce);
                push_word_usize(&mut out, 32);
                let arg = enc_incoming_post_request_vec(&c.incoming);
                push_all(&mut out, &arg);
                proof {
                    assert(out@ =~= call_data_spec(*self));
                }
            },
            PingModuleCalls::OnGetResponse(c) => {
                push_selector(&mut out, 0x44, 0xab, 0x20, 0xf8);
                push_word_usize(&mut out, 32);
                let arg = enc_incoming_get_response_vec(&c.response);
                push_all(&mut out, &arg);
                proof {
                    assert(out@ =~= call_data_spec(*self));
                }
            },
            PingModuleCalls::OnGetTimeout(c) => {
                push_selector(&mut out, 0xd0, 0xff, 0xf3, 0x66);
                push_word_usize(&mut out, 32);
                let arg = enc_get_request_vec(&c.0);
                push_all(&mut out, &arg);
                proof {
                    assert(out@ =~= call_data_spec(*self));
                }
            },
            PingModuleCalls::OnPostRequestTimeout(c) => {
                push_selector(&mut out, 0xbc, 0x0d, 0xd4, 0x47);
                push_word_usize(&mut out, 32);
                let arg = enc_post_request_vec(&c.0);
                push_all(&mut out, &arg);
                proof {
                    assert(out@ =~= call_data_spec(*self));
                }
            },
            PingModuleCalls::OnPostResponse(c) => {
                push_selector(&mut out, 0xb2, 0xa0, 0x1b, 0xf5);
                push_word_usize(&mut out, 32);
                let arg = enc_incoming_post_response_vec(&c.0);
                push_all(&mut out, &arg);
                proof {
                    assert(out@ =~= call_data_spec(*self));
                }
            },
            PingModuleCalls::OnPostResponseTimeout(c) => {
                push_selector(&mut out, 0x0b, 0xc3, 0x7b, 0xab);
                push_word_usize(&mut out, 32);
                let arg = enc_post_response_vec(&c.0);
                push_all(&mut out, &arg);
                proof {
                    assert(out@ =~= call_data_spec(*self));
                }
            },
            PingModuleCalls::Ping(c) => {
                push_selector(&mut out, 0x4a, 0x69, 0x2e, 0x06);
                push_word_usize(&mut out, 32);
                let arg = enc_ping_message_vec(&c.ping_message);
                push_all(&mut out, &arg);
                proof {
                    assert(out@ =~= call_data_spec(*self));
                }
            },
            PingModuleCalls::PreviousPostRequest(_) => {
                push_selector(&mut out, 0x88, 0xd9, 0xf1, 0x70);
                proof {
                    assert(out@ =~= call_data_spec(*self));
                }
            },
            PingModuleCalls::SetIsmpHost(c) => {
                push_selector(&mut out, 0x0e, 0x83, 0x24, 0xa2);
                push_address_word(&mut out, &c.host_addr);
                proof {
                    assert(out@ =~= call_data_spec(*self));
                }
            },
        }
        out
    }
}

/// Return value of the first `dispatch` overload: the request's commitment.
#[derive(Clone, Copy, Debug, PartialEq, Eq)]
pub struct DispatchReturn(pub [u8; 32]);

/// Return value of the second `dispatch` overload.
#[derive(Clone, Copy, Debug, PartialEq, Eq)]
pub struct DispatchWithRequestReturn(pub [u8; 32]);

/// Return value of `dispatchPostResponse`: the response's commitment.
#[derive(Clone, Copy, Debug, PartialEq, Eq)]
pub struct DispatchPostResponseReturn(pub [u8; 32]);

/// Return value of `host`: the host contract's address.
#[derive(Clone, Copy, Debug, PartialEq, Eq)]
pub struct HostReturn(pub Address);

/// Return value of `previousPostRequest`.
#[derive(Clone, Debug, PartialEq, Eq)]
pub struct PreviousPostRequestReturn(pub PostRequest);

/// Payload of the `GetResponseReceived` event.
#[derive(Clone, Debug, PartialEq, Eq)]
pub struct GetResponseReceivedFilter {
    pub message: Vec<StorageValue>,
}

/// Payload of the `GetTimeoutReceived` event.
#[derive(Clone, Copy, Debug, PartialEq, Eq)]
pub struct GetTimeoutReceivedFilter;

/// Payload of the `MessageDispatched` event.
#[derive(Clone, Copy, Debug, PartialEq, Eq)]
pub struct MessageDispatchedFilter;

/// Payload of the `PostReceived` event.
#[derive(Clone, Debug, PartialEq, Eq)]
pub struct PostReceivedFilter {
    pub message: String,
}

/// Payload of the `PostRequestTimeoutReceived` event.
#[derive(Clone, Copy, Debug, PartialEq, Eq)]
pub struct PostRequestTimeoutReceivedFilter;

/// Payload of the `PostResponseReceived` event.
#[derive(Clone, Copy, Debug, PartialEq, Eq)]
pub struct PostResponseReceivedFilter;

/// Payload of the `PostResponseTimeoutReceived` event.
#[derive(Clone, Copy, Debug, PartialEq, Eq)]
pub struct PostResponseTimeoutReceivedFilter;

/// Every event the ping contract emits.
#[derive(Clone, Debug, PartialEq, Eq)]
pub enum PingModuleEvents {
    GetResponseReceivedFilter(GetResponseReceivedFilter),
    GetTimeoutReceivedFilter(GetTimeoutReceivedFilter),
    MessageDispatchedFilter(MessageDispatchedFilter),
    PostReceivedFilter(PostReceivedFilter),
    PostRequestTimeoutReceivedFilter(PostRequestTimeoutReceivedFilter),
    PostResponseReceivedFilter(PostResponseReceivedFilter),
    PostResponseTimeoutReceivedFilter(PostResponseTimeoutReceivedFilter),
}

/// The contract's `ExecutionFailed` error.
#[derive(Clone, Copy, Debug, PartialEq, Eq)]
pub struct ExecutionFailed;

/// The contract's `NotIsmpHost` error.
#[derive(Clone, Copy, Debug, PartialEq, Eq)]
pub struct NotIsmpHost;

/// Every revert the ping contract can answer with: its two custom errors and
/// the standard revert string.
#[derive(Clone, Debug, PartialEq, Eq)]
pub enum PingModuleErrors {
    ExecutionFailed(ExecutionFailed),
    NotIsmpHost(NotIsmpHost),
    RevertString(String),
}

/// The exact revert data of each error: its selector, and for a revert
/// string the string's offset-prefixed encoding of its bytes.
pub open spec fn error_data_spec(e: PingModuleErrors) -> Seq<u8> {
    match e {
        PingModuleErrors::ExecutionFailed(_) => seq![0xacu8, 0xfdu8, 0xb4u8, 0x44u8],
        PingModuleErrors::NotIsmpHost(_) => seq![0x51u8, 0xabu8, 0x8du8, 0xe5u8],
        PingModuleErrors::RevertString(s) => seq![0x08u8, 0xc3u8, 0x79u8, 0xa0u8] + abi_word(32)
            + abi_bytes(vstd::utf8::encode_utf8(s@)),
    }
}

impl PingModuleErrors {
    /// Encodes the revert data the contract would answer with.
    pub fn encode(&self) -> (r: Vec<u8>)
        requires
            self matches PingModuleErrors::RevertString(s) ==> bytes_ok(
                vstd::utf8::encode_utf8(s@),
            ),
        ensures
            r@ == error_data_spec(*self),
    {
        let mut out: Vec<u8> = Vec::new();
        match self {
            PingModuleErrors::ExecutionFailed(_) => {
                push_selector(&mut out, 0xac, 0xfd, 0xb4, 0x44);
                proof {
                    assert(out@ =~= error_data_spec(*self));
                }
            },
            PingModuleErrors::NotIsmpHost(_) => {
                push_selector(&mut out, 0x51, 0xab, 0x8d, 0xe5);
                proof {
                    assert(out@ =~= error_data_spec(*self));
                }
            },
            PingModuleErrors::RevertString(s) => {
                push_selector(&mut out, 0x08, 0xc3, 0x79, 0xa0);
                push_word_usize(&mut out, 32);
                let message = s.as_str().as_bytes_vec();
                let arg = abi_bytes_vec(&message);
                push_all(&mut out, &arg);
                proof {
                    assert(out@ =~= error_data_spec(*self));
                }
            },
        }
        out
    }

    /// Whether a 4-byte selector belongs to one of this contract's reverts.
    pub fn valid_selector(selector: [u8; 4]) -> (r: bool)
        ensures
            r == (selector@ == seq![0x08u8, 0xc3u8, 0x79u8, 0xa0u8] || selector@ == seq![
                0xacu8,
                0xfdu8,
                0xb4u8,
                0x44u8,
            ] || selector@ == seq![0x51u8, 0xabu8, 0x8du8, 0xe5u8]),
    {
        let revert_string = selector[0] == 0x08 && selector[1] == 0xc3 && selector[2] == 0x79
            && selector[3] == 0xa0;
        let execution_failed = selector[0] == 0xac && selector[1] == 0xfd && selector[2] == 0xb4
            && selector[3] == 0x44;
        let not_ismp_host = selector[0] == 0x51 && selector[1] == 0xab && selector[2] == 0x8d
            && selector[3] == 0xe5;
        proof {
            assert(selector@ =~= seq![selector[0], selector[1], selector[2], selector[3]]);
            assert(revert_string == (selector@ == seq![0x08u8, 0xc3u8, 0x79u8, 0xa0u8]));
            assert(execution_failed == (selector@ == seq![0xacu8, 0xfdu8, 0xb4u8, 0x44u8]));
            assert(not_ismp_host == (selector@ == seq![0x51u8, 0xabu8, 0x8du8, 0xe5u8]));
        }
        revert_string || execution_failed || not_ismp_host
    }
}

/// The ping module bound at one contract address: every method prepares the
/// exact call the contract expects at that address.
pub struct PingModule {
    address: Address,
}

impl PingModule {
    /// The address the module is bound to.
    pub closed spec fn spec_address(&self) -> Address {
        self.address
    }

    /// Binds the module at a contract address.
    pub fn new(address: Address) -> (r: PingModule)
        ensures
            r.spec_address() == address,
    {
        PingModule { address }
    }

    /// The bound contract address.
    pub fn address(&self) -> (r: Address)
        ensures
            r == self.spec_address(),
    {
        self.address
    }

    /// Prepares the contract's first `dispatch` overload.
    pub fn dispatch(&self, request: GetRequest) -> (r: ContractCall)
        requires
            get_request_ok(request),
        ensures
            r.to == self.spec_address(),
            r.data@ == call_data_spec(PingModuleCalls::Dispatch(DispatchCall { request })),
    {
        let call = PingModuleCalls::Dispatch(DispatchCall { request });
        let data = call.encode();
        ContractCall { to: self.address, data }
    }

    /// Prepares the contract's second `dispatch` overload.
    pub fn dispatch_with_request(&self, request: GetRequest) -> (r: ContractCall)
        requires
            get_request_ok(request),
        ensures
            r.to == self.spec_address(),
            r.data@ == call_data_spec(
                PingModuleCalls::DispatchWithRequest(DispatchWithRequestCall { request }),
            ),
    {
        let call = PingModuleCalls::DispatchWithRequest(DispatchWithRequestCall { request });
        let data = call.encode();
        ContractCall { to: self.address, data }
    }

    /// Prepares `dispatchPostResponse`.
    pub fn dispatch_post_response(&self, response: PostResponse) -> (r: ContractCall)
        requires
            post_response_ok(response),
        ensures
            r.to == self.spec_address(),
            r.data@ == call_data_spec(
                PingModuleCalls::DispatchPostResponse(DispatchPostResponseCall { response }),
            ),
    {
        let call = PingModuleCalls::DispatchPostResponse(DispatchPostResponseCall { response });
        let data = call.encode();
        ContractCall { to: self.address, data }
    }

    /// Prepares `dispatchToParachain`.
    pub fn dispatch_to_parachain(&self, para_id: U256) -> (r: ContractCall)
        ensures
            r.to == self.spec_address(),
            r.data@ == call_data_spec(
                PingModuleCalls::DispatchToParachain(DispatchToParachainCall { para_id }),
            ),
    {
        let call = PingModuleCalls::DispatchToParachain(DispatchToParachainCall { para_id });
        let data = call.encode();
        ContractCall { to: self.address, data }
    }

    /// Prepares the `host` getter.
    pub fn host(&self) -> (r: ContractCall)
        ensures
            r.to == self.spec_address(),
            r.data@ == call_data_spec(PingModuleCalls::Host(HostCall)),
    {
        let call = PingModuleCalls::Host(HostCall);
        let data = call.encode();
        ContractCall { to: self.address, data }
    }

    /// Prepares `onAccept`.
    pub fn on_accept(&self, incoming: IncomingPostRequest) -> (r: ContractCall)
        requires
            post_request_ok(incoming.request),
        ensures
            r.to == self.spec_address(),
            r.data@ == call_data_spec(PingModuleCalls::OnAccept(OnAcceptCall { incoming })),
    {
        let call = PingModuleCalls::OnAccept(OnAcceptCall { incoming });
        let data = call.encode();
        ContractCall { to: self.address, data }
    }

    /// Prepares `onGetResponse`.
    pub fn on_get_response(&self, response: IncomingGetResponse) -> (r: ContractCall)
        requires
            get_response_ok(response.response),
        ensures
            r.to == self.spec_address(),
            r.data@ == call_data_spec(
                PingModuleCalls::OnGetResponse(OnGetResponseCall { response }),
            ),
    {
        let call = PingModuleCalls::OnGetResponse(OnGetResponseCall { response });
        let data = call.encode();
        ContractCall { to: self.address, data }
    }

    /// Prepares `onGetTimeout`.
    pub fn on_get_timeout(&self, request: GetRequest) -> (r: ContractCall)
        requires
            get_request_ok(request),
        ensures
            r.to == self.spec_address(),
            r.data@ == call_data_spec(PingModuleCalls::OnGetTimeout(OnGetTimeoutCall(request))),
    {
        let call = PingModuleCalls::OnGetTimeout(OnGetTimeoutCall(request));
        let data = call.encode();
        ContractCall { to: self.address, data }
    }

    /// Prepares `onPostRequestTimeout`.
    pub fn on_post_request_timeout(&self, request: PostRequest) -> (r: ContractCall)
        requires
            post_request_ok(request),
        ensures
            r.to == self.spec_address(),
            r.data@ == call_data_spec(
                PingModuleCalls::OnPostRequestTimeout(OnPostRequestTimeoutCall(request)),
            ),
    {
        let call = PingModuleCalls::OnPostRequestTimeout(OnPostRequestTimeoutCall(request));
        let data = call.encode();
        ContractCall { to: self.address, data }
    }

    /// Prepares `onPostResponse`.
    pub fn on_post_response(&self, response: IncomingPostResponse) -> (r: ContractCall)
        requires
            post_response_ok(response.response),
        ensures
            r.to == self.spec_address(),
            r.data@ == call_data_spec(PingModuleCalls::OnPostResponse(OnPostResponseCall(response))),
    {
        let call = PingModuleCalls::OnPostResponse(OnPostResponseCall(response));
        let data = call.encode();
        ContractCall { to: self.address, data }
    }

    /// Prepares `onPostResponseTimeout`.
    pub fn on_post_response_timeout(&self, response: PostResponse) -> (r: ContractCall)
        requires
            post_response_ok(response),
        ensures
            r.to == self.spec_address(),
            r.data@ == call_data_spec(
                PingModuleCalls::OnPostResponseTimeout(OnPostResponseTimeoutCall(response)),
            ),
    {
        let call = PingModuleCalls::OnPostResponseTimeout(OnPostResponseTimeoutCall(response));
        let data = call.encode();
        ContractCall { to: self.address, data }
    }

    /// Prepares `ping`.
    pub fn ping(&self, ping_message: PingMessage) -> (r: ContractCall)
        requires
            ping_message_ok(ping_message),
        ensures
            r.to == self.spec_address(),
            r.data@ == call_data_spec(PingModuleCalls::Ping(PingCall { ping_message })),
    {
        let call = PingModuleCalls::Ping(PingCall { ping_message });
        let data = call.encode();
        ContractCall { to: self.address, data }
    }

    /// Prepares the `previousPostRequest` getter.
    pub fn previous_post_request(&self) -> (r: ContractCall)
        ensures
            r.to == self.spec_address(),
            r.data@ == call_data_spec(
                PingModuleCalls::PreviousPostRequest(PreviousPostRequestCall),
            ),
    {
        let call = PingModuleCalls::PreviousPostRequest(PreviousPostRequestCall);
        let data = call.encode();
        ContractCall { to: self.address, data }
    }

    /// Prepares `setIsmpHost`.
    pub fn set_ismp_host(&self, host_addr: Address) -> (r: ContractCall)
        ensures
            r.to == self.spec_address(),
            r.data@ == call_data_spec(PingModuleCalls::SetIsmpHost(SetIsmpHostCall { host_addr })),
    {
        let call = PingModuleCalls::SetIsmpHost(SetIsmpHostCall { host_addr });
        let data = call.encode();
        ContractCall { to: self.address, data }
    }

    /// Filter for the contract's `GetResponseReceived` events.
    pub fn get_response_received_filter(&self) -> (r: LogFilter)
        ensures
            r.address == self.spec_address(),
            r.topic0 == Some(keccak_of("GetResponseReceived((bytes,bytes)[])".spec_bytes())),
    {
        let sig = "GetResponseReceived((bytes,bytes)[])".as_bytes_vec();
        LogFilter { address: self.address, topic0: Some(keccak_256(&sig)) }
    }

    /// Filter for the contract's `GetTimeoutReceived` events.
    pub fn get_timeout_received_filter(&self) -> (r: LogFilter)
        ensures
            r.address == self.spec_address(),
            r.topic0 == Some(keccak_of("GetTimeoutReceived()".spec_bytes())),
    {
        let sig = "GetTimeoutReceived()".as_bytes_vec();
        LogFilter { address: self.address, topic0: Some(keccak_256(&sig)) }
    }

    /// Filter for the contract's `MessageDispatched` events.
    pub fn message_dispatched_filter(&self) -> (r: LogFilter)
        ensures
            r.address == self.spec_address(),
            r.topic0 == Some(keccak_of("MessageDispatched()".spec_bytes())),
    {
        let sig = "MessageDispatched()".as_bytes_vec();
        LogFilter { address: self.address, topic0: Some(keccak_256(&sig)) }
    }

    /// Filter for the contract's `PostReceived` events.
    pub fn post_received_filter(&self) -> (r: LogFilter)
        ensures
            r.address == self.spec_address(),
            r.topic0 == Some(keccak_of("PostReceived(string)".spec_bytes())),
    {
        let sig = "PostReceived(string)".as_bytes_vec();
        LogFilter { address: self.address, topic0: Some(keccak_256(&sig)) }
    }

    /// Filter for the contract's `PostRequestTimeoutReceived` events.
    pub fn post_request_timeout_received_filter(&self) -> (r: LogFilter)
        ensures
            r.address == self.spec_address(),
            r.topic0 == Some(keccak_of("PostRequestTimeoutReceived()".spec_bytes())),
    {
        let sig = "PostRequestTimeoutReceived()".as_bytes_vec();
        LogFilter { address: self.address, topic0: Some(keccak_256(&sig)) }
    }

    /// Filter for the contract's `PostResponseReceived` events.
    pub fn post_response_received_filter(&self) -> (r: LogFilter)
        ensures
            r.address == self.spec_address(),
            r.topic0 == Some(keccak_of("PostResponseReceived()".spec_bytes())),
    {
        let sig = "PostResponseReceived()".as_bytes_vec();
        LogFilter { address: self.address, topic0: Some(keccak_256(&sig)) }
    }

    /// Filter for the contract's `PostResponseTimeoutReceived` events.
    pub fn post_response_timeout_received_filter(&self) -> (r: LogFilter)
        ensures
            r.address == self.spec_address(),
            r.topic0 == Some(keccak_of("PostResponseTimeoutReceived()".spec_bytes())),
    {
        let sig = "PostResponseTimeoutReceived()".as_bytes_vec();
        LogFilter { address: self.address, topic0: Some(keccak_256(&sig)) }
    }

    /// Filter for every event of the contract.
    pub fn events(&self) -> (r: LogFilter)
        ensures
            r.address == self.spec_address(),
            r.topic0 is None,
    {
        LogFilter { address: self.address, topic0: None }
    }
}

} // verus!
