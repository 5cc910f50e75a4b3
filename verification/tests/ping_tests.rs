use ismp_core::abi::Address;
use ismp_core::abi::GetRequest;
use ismp_core::abi::IncomingPostRequest;
use ismp_core::abi::PingMessage;
use ismp_core::abi::PostRequest;
use ismp_core::abi::U256;
use ismp_core::evm::derive_map_key;
use ismp_core::evm::LatestHeight;
use ismp_core::ping_module::PingModule;
use ismp_core::ping_module::PingModuleErrors;
use ismp_core::ping_module::ExecutionFailed;
use ismp_core::ping_module::NotIsmpHost;

fn word(v: u64) -> Vec<u8> {
    let mut w = vec![0u8; 24];
    w.extend_from_slice(&v.to_be_bytes());
    w
}

fn address_word(a: &Address) -> Vec<u8> {
    let mut w = vec![0u8; 12];
    w.extend_from_slice(a);
    w
}

fn module_address() -> Address {
    [0x11; 20]
}

#[test]
fn u256_from_u64_is_big_endian() {
    let v = U256::from_u64(0x1122);
    assert_eq!(&v.0[..30], &[0u8; 30]);
    assert_eq!(v.0[30], 0x11);
    assert_eq!(v.0[31], 0x22);
}

#[test]
fn host_call_is_selector_only() {
    let module = PingModule::new(module_address());
    let call = module.host();
    assert_eq!(call.to, module_address());
    assert_eq!(call.data, vec![0xf4, 0x37, 0xbc, 0x59]);
}

#[test]
fn previous_post_request_call_is_selector_only() {
    let module = PingModule::new(module_address());
    let call = module.previous_post_request();
    assert_eq!(call.data, vec![0x88, 0xd9, 0xf1, 0x70]);
}

#[test]
fn set_ismp_host_encodes_the_address_argument() {
    let module = PingModule::new(module_address());
    let host_addr: Address = [0x22; 20];
    let call = module.set_ismp_host(host_addr);
    let mut expected = vec![0x0e, 0x83, 0x24, 0xa2];
    expected.extend_from_slice(&address_word(&host_addr));
    assert_eq!(call.data, expected);
}

#[test]
fn dispatch_to_parachain_encodes_the_id_word() {
    let module = PingModule::new(module_address());
    let call = module.dispatch_to_parachain(U256::from_u64(2000));
    let mut expected = vec![0x72, 0x35, 0x4e, 0x9b];
    expected.extend_from_slice(&word(2000));
    assert_eq!(call.data, expected);
}

#[test]
fn ping_encodes_the_message_tuple() {
    let module = PingModule::new(module_address());
    let dest = b"POLKADOT-2000".to_vec();
    let target: Address = [0x33; 20];
    let message = PingMessage {
        dest: dest.clone(),
        module: target,
        timeout: 3600,
        count: U256::from_u64(5),
        fee: U256::from_u64(7),
    };
    let call = module.ping(message);

    let mut expected = vec![0x4a, 0x69, 0x2e, 0x06];
    expected.extend_from_slice(&word(32));
    expected.extend_from_slice(&word(160));
    expected.extend_from_slice(&address_word(&target));
    expected.extend_from_slice(&word(3600));
    expected.extend_from_slice(&word(5));
    expected.extend_from_slice(&word(7));
    expected.extend_from_slice(&word(dest.len() as u64));
    expected.extend_from_slice(&dest);
    expected.extend_from_slice(&vec![0u8; 32 - dest.len() % 32]);
    assert_eq!(call.data, expected);
}

#[test]
fn dispatch_encodes_a_get_request() {
    let module = PingModule::new(module_address());
    let from: Address = [0x44; 20];
    let request = GetRequest {
        source: Vec::new(),
        dest: Vec::new(),
        nonce: 1,
        from,
        timeout_timestamp: 2,
        keys: Vec::new(),
        height: 3,
        context: Vec::new(),
    };
    let call = module.dispatch(request);

    let mut expected = vec![0x70, 0xc5, 0x47, 0x4f];
    expected.extend_from_slice(&word(32));
    // head: offsets for source / dest, nonce, address, timeout, keys offset,
    // height, context offset
    expected.extend_from_slice(&word(256));
    expected.extend_from_slice(&word(288));
    expected.extend_from_slice(&word(1));
    expected.extend_from_slice(&address_word(&from));
    expected.extend_from_slice(&word(2));
    expected.extend_from_slice(&word(320));
    expected.extend_from_slice(&word(3));
    expected.extend_from_slice(&word(352));
    // tails: two empty byte strings, an empty array, an empty byte string
    expected.extend_from_slice(&word(0));
    expected.extend_from_slice(&word(0));
    expected.extend_from_slice(&word(0));
    expected.extend_from_slice(&word(0));
    assert_eq!(call.data, expected);
}

#[test]
fn dispatch_with_request_uses_its_own_selector() {
    let module = PingModule::new(module_address());
    let request = GetRequest {
        source: Vec::new(),
        dest: Vec::new(),
        nonce: 1,
        from: [0x44; 20],
        timeout_timestamp: 2,
        keys: Vec::new(),
        height: 3,
        context: Vec::new(),
    };
    let first = module.dispatch(request.clone());
    let second = module.dispatch_with_request(request);
    assert_eq!(&second.data[..4], &[0xd2, 0x10, 0x50, 0xdb]);
    assert_eq!(&first.data[4..], &second.data[4..]);
}

#[test]
fn on_accept_encodes_request_and_relayer() {
    let module = PingModule::new(module_address());
    let relayer: Address = [0x55; 20];
    let incoming = IncomingPostRequest {
        request: PostRequest {
            source: Vec::new(),
            dest: Vec::new(),
            nonce: 8,
            from: Vec::new(),
            to: Vec::new(),
            timeout_timestamp: 9,
            body: Vec::new(),
        },
        relayer,
    };
    let call = module.on_accept(incoming);

    let mut expected = vec![0x0f, 0xee, 0x32, 0xce];
    expected.extend_from_slice(&word(32));
    expected.extend_from_slice(&word(64));
    expected.extend_from_slice(&address_word(&relayer));
    // the embedded post request: seven head words, five empty tails
    expected.extend_from_slice(&word(224));
    expected.extend_from_slice(&word(256));
    expected.extend_from_slice(&word(8));
    expected.extend_from_slice(&word(288));
    expected.extend_from_slice(&word(320));
    expected.extend_from_slice(&word(9));
    expected.extend_from_slice(&word(352));
    for _ in 0..5 {
        expected.extend_from_slice(&word(0));
    }
    assert_eq!(call.data, expected);
}

#[test]
fn event_filters_carry_the_signature_topic() {
    let module = PingModule::new(module_address());
    let filter = module.post_received_filter();
    assert_eq!(filter.address, module_address());
    assert_eq!(filter.topic0, Some(sp_io::hashing::keccak_256(b"PostReceived(string)")));

    let filter = module.get_response_received_filter();
    assert_eq!(
        filter.topic0,
        Some(sp_io::hashing::keccak_256(b"GetResponseReceived((bytes,bytes)[])")),
    );
    assert_eq!(
        module.message_dispatched_filter().topic0,
        Some(sp_io::hashing::keccak_256(b"MessageDispatched()")),
    );
    assert_eq!(
        module.get_timeout_received_filter().topic0,
        Some(sp_io::hashing::keccak_256(b"GetTimeoutReceived()")),
    );
    assert_eq!(
        module.post_request_timeout_received_filter().topic0,
        Some(sp_io::hashing::keccak_256(b"PostRequestTimeoutReceived()")),
    );
    assert_eq!(
        module.post_response_received_filter().topic0,
        Some(sp_io::hashing::keccak_256(b"PostResponseReceived()")),
    );
    assert_eq!(
        module.post_response_timeout_received_filter().topic0,
        Some(sp_io::hashing::keccak_256(b"PostResponseTimeoutReceived()")),
    );
}

#[test]
fn events_filter_selects_every_event() {
    let module = PingModule::new(module_address());
    let filter = module.events();
    assert_eq!(filter.address, module_address());
    assert_eq!(filter.topic0, None);
}

#[test]
fn error_selectors_are_recognized() {
    assert!(PingModuleErrors::valid_selector([0x08, 0xc3, 0x79, 0xa0]));
    assert!(PingModuleErrors::valid_selector([0xac, 0xfd, 0xb4, 0x44]));
    assert!(PingModuleErrors::valid_selector([0x51, 0xab, 0x8d, 0xe5]));
    assert!(!PingModuleErrors::valid_selector([0x00, 0x00, 0x00, 0x00]));
    assert!(!PingModuleErrors::valid_selector([0x08, 0xc3, 0x79, 0xa1]));
}

#[test]
fn error_encodings_match_the_revert_format() {
    assert_eq!(
        PingModuleErrors::ExecutionFailed(ExecutionFailed).encode(),
        vec![0xac, 0xfd, 0xb4, 0x44],
    );
    assert_eq!(PingModuleErrors::NotIsmpHost(NotIsmpHost).encode(), vec![0x51, 0xab, 0x8d, 0xe5]);

    let revert = PingModuleErrors::RevertString("hi".to_string()).encode();
    let mut expected = vec![0x08, 0xc3, 0x79, 0xa0];
    expected.extend_from_slice(&word(32));
    expected.extend_from_slice(&word(2));
    expected.extend_from_slice(b"hi");
    expected.extend_from_slice(&[0u8; 30]);
    assert_eq!(revert, expected);
}

#[test]
fn map_keys_follow_the_storage_layout() {
    let key = vec![0xaa, 0xbb];
    let derived = derive_map_key(key.clone(), 5);
    let mut preimage = key;
    preimage.extend_from_slice(&word(5));
    assert_eq!(derived, sp_io::hashing::keccak_256(&preimage));
}

#[test]
fn latest_height_variants_are_distinct() {
    assert_ne!(LatestHeight::LastMessaging, LatestHeight::LatestHeight);
    assert_eq!(LatestHeight::Const(5), LatestHeight::Const(5));
    assert_ne!(LatestHeight::Const(5), LatestHeight::Const(6));
}
