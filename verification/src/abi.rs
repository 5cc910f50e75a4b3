//! The contract ABI byte format for the values the ping module exchanges
//! with its contract: 32-byte words, big-endian integers, offset-prefixed
//! dynamic data padded to the word size.

use vstd::prelude::*;

verus! {

/// A 20-byte contract account address.
pub type Address = [u8; 20];

/// A 256-bit unsigned integer, held as its 32 big-endian bytes: the bytes are
/// exactly the value's encoding word.
#[derive(Clone, Copy, Debug, PartialEq, Eq)]
pub struct U256(pub [u8; 32]);

impl U256 {
    /// The word encoding this value.
    pub open spec fn word(self) -> Seq<u8> {
        self.0@
    }

    /// Builds the 256-bit value of a 64-bit one.
    pub fn from_u64(v: u64) -> (r: U256)
        ensures
            r.word() == abi_word(v as int),
    {
        let mut bytes: [u8; 32] = [0u8; 32];
        bytes[24] = (v / 0x100_0000_0000_0000 % 0x100) as u8;
        bytes[25] = (v / 0x1_0000_0000_0000 % 0x100) as u8;
        bytes[26] = (v / 0x100_0000_0000 % 0x100) as u8;
        bytes[27] = (v / 0x1_0000_0000 % 0x100) as u8;
        bytes[28] = (v / 0x100_0000 % 0x100) as u8;
        bytes[29] = (v / 0x1_0000 % 0x100) as u8;
        bytes[30] = (v / 0x100 % 0x100) as u8;
        bytes[31] = (v % 0x100) as u8;
        proof {
            assert(bytes@ =~= abi_word(v as int));
        }
        U256(bytes)
    }
}

/// A run of zero bytes.
pub open spec fn zeros(n: int) -> Seq<u8> {
    Seq::new(n as nat, |i: int| 0u8)
}

/// A 32-byte word holding a big-endian unsigned integer below 2^64.
pub open spec fn abi_word(n: int) -> Seq<u8>
    recommends
        0 <= n < 0x1_0000_0000_0000_0000,
{
    zeros(24) + seq![
        (n / 0x100_0000_0000_0000 % 0x100) as u8,
        (n / 0x1_0000_0000_0000 % 0x100) as u8,
        (n / 0x100_0000_0000 % 0x100) as u8,
        (n / 0x1_0000_0000 % 0x100) as u8,
        (n / 0x100_0000 % 0x100) as u8,
        (n / 0x1_0000 % 0x100) as u8,
        (n / 0x100 % 0x100) as u8,
        (n % 0x100) as u8,
    ]
}

/// A 32-byte word holding an address, left-padded with zeros.
pub open spec fn abi_address_word(a: Address) -> Seq<u8> {
    zeros(12) + a@
}

/// The padded length of a dynamic byte string: rounded up to the word size.
pub open spec fn pad_len(n: int) -> int {
    ((n + 31) / 32) * 32
}

/// The encoding of a dynamic byte string: its length word, the bytes, and
/// zero padding up to the word size.
pub open spec fn abi_bytes(b: Seq<u8>) -> Seq<u8> {
    abi_word(b.len() as int) + b + zeros(pad_len(b.len() as int) - b.len())
}

/// The size cap this library accepts for one dynamic byte string.
pub open spec fn bytes_ok(b: Seq<u8>) -> bool {
    b.len() <= 0x100_0000
}

/// Appends one vector to another.
pub fn push_all(out: &mut Vec<u8>, part: &Vec<u8>)
    ensures
        final(out)@ == old(out)@ + part@,
{
    let mut i: usize = 0;
    while i < part.len()
        invariant
            i <= part@.len(),
            out@ =~= old(out)@ + part@.subrange(0, i as int),
        decreases part@.len() - i,
    {
        out.push(part[i]);
        i = i + 1;
    }
    proof {
        assert(out@ =~= old(out)@ + part@);
    }
}

/// Appends a run of zero bytes.
pub fn push_zeros(out: &mut Vec<u8>, n: usize)
    ensures
        final(out)@ == old(out)@ + zeros(n as int),
{
    let mut i: usize = 0;
    while i < n
        invariant
            i <= n,
            out@ =~= old(out)@ + zeros(i as int),
        decreases n - i,
    {
        out.push(0u8);
        proof {
            assert(out@ =~= old(out)@ + zeros(i + 1));
        }
        i = i + 1;
    }
}

/// Appends the word of a 64-bit value.
pub fn push_word_u64(out: &mut Vec<u8>, v: u64)
    ensures
        final(out)@ == old(out)@ + abi_word(v as int),
{
    push_zeros(out, 24);
    out.push((v / 0x100_0000_0000_0000 % 0x100) as u8);
    out.push((v / 0x1_0000_0000_0000 % 0x100) as u8);
    out.push((v / 0x100_0000_0000 % 0x100) as u8);
    out.push((v / 0x1_0000_0000 % 0x100) as u8);
    out.push((v / 0x100_0000 % 0x100) as u8);
    out.push((v / 0x1_0000 % 0x100) as u8);
    out.push((v / 0x100 % 0x100) as u8);
    out.push((v % 0x100) as u8);
    proof {
        assert(out@ =~= old(out)@ + abi_word(v as int));
    }
}

/// Appends the word of a length or offset.
pub fn push_word_usize(out: &mut Vec<u8>, v: usize)
    ensures
        final(out)@ == old(out)@ + abi_word(v as int),
{
    push_word_u64(out, v as u64);
}

/// Appends the word of an address.
pub fn push_address_word(out: &mut Vec<u8>, a: &Address)
    ensures
        final(out)@ == old(out)@ + abi_address_word(*a),
{
    push_zeros(out, 12);
    let mut i: usize = 0;
    while i < 20
        invariant
            i <= 20,
            out@ =~= old(out)@ + zeros(12) + a@.subrange(0, i as int),
        decreases 20 - i,
    {
        out.push(a[i]);
        i = i + 1;
    }
    proof {
        assert(out@ =~= old(out)@ + abi_address_word(*a));
    }
}

/// Appends the word of a 256-bit value.
pub fn push_u256_word(out: &mut Vec<u8>, u: &U256)
    ensures
        final(out)@ == old(out)@ + u.word(),
{
    let mut i: usize = 0;
    while i < 32
        invariant
            i <= 32,
            out@ =~= old(out)@ + u.0@.subrange(0, i as int),
        decreases 32 - i,
    {
        out.push(u.0[i]);
        i = i + 1;
    }
    proof {
        assert(out@ =~= old(out)@ + u.word());
    }
}

/// A post request as the contract ABI carries it.
#[derive(Clone, Debug, PartialEq, Eq)]
pub struct PostRequest {
    pub source: Vec<u8>,
    pub dest: Vec<u8>,
    pub nonce: u64,
    pub from: Vec<u8>,
    pub to: Vec<u8>,
    pub timeout_timestamp: u64,
    pub body: Vec<u8>,
}

/// A get request as the contract ABI carries it.
#[derive(Clone, Debug, PartialEq, Eq)]
pub struct GetRequest {
    pub source: Vec<u8>,
    pub dest: Vec<u8>,
    pub nonce: u64,
    pub from: Address,
    pub timeout_timestamp: u64,
    pub keys: Vec<Vec<u8>>,
    pub height: u64,
    pub context: Vec<u8>,
}

/// A post response: the request it answers, the response body, and its
/// timeout.
#[derive(Clone, Debug, PartialEq, Eq)]
pub struct PostResponse {
    pub request: PostRequest,
    pub response: Vec<u8>,
    pub timeout_timestamp: u64,
}

/// A key-value pair read from a counterparty's state.
#[derive(Clone, Debug, PartialEq, Eq)]
pub struct StorageValue {
    pub key: Vec<u8>,
    pub value: Vec<u8>,
}

/// A get response: the request and the storage values it resolved to.
#[derive(Clone, Debug, PartialEq, Eq)]
pub struct GetResponse {
    pub request: GetRequest,
    pub values: Vec<StorageValue>,
}

/// A post request together with the relayer that delivered it.
#[derive(Clone, Debug, PartialEq, Eq)]
pub struct IncomingPostRequest {
    pub request: PostRequest,
    pub relayer: Address,
}

/// A get response together with the relayer that delivered it.
#[derive(Clone, Debug, PartialEq, Eq)]
pub struct IncomingGetResponse {
    pub response: GetResponse,
    pub relayer: Address,
}

/// A post response together with the relayer that delivered it.
#[derive(Clone, Debug, PartialEq, Eq)]
pub struct IncomingPostResponse {
    pub response: PostResponse,
    pub relayer: Address,
}

/// One ping: destination chain, receiving module, timeout, repetition count
/// and relayer fee.
#[derive(Clone, Debug, PartialEq, Eq)]
pub struct PingMessage {
    pub dest: Vec<u8>,
    pub module: Address,
    pub timeout: u64,
    pub count: U256,
    pub fee: U256,
}

/// Size caps under which every encoding below fits comfortably in a 32-bit
/// address space; they bound nothing but machine limits.
pub open spec fn keys_ok(v: Seq<Vec<u8>>) -> bool {
    v.len() <= 0x400 && forall|k: int| 0 <= k < v.len() ==> (#[trigger] v[k])@.len() <= 0x1_0000
}

/// Size cap for one storage value.
pub open spec fn storage_value_ok(s: StorageValue) -> bool {
    s.key@.len() <= 0x1_0000 && s.value@.len() <= 0x1_0000
}

/// Size cap for a storage value list.
pub open spec fn storage_values_ok(v: Seq<StorageValue>) -> bool {
    v.len() <= 0x400 && forall|k: int| 0 <= k < v.len() ==> storage_value_ok(#[trigger] v[k])
}

/// Size caps for a post request.
pub open spec fn post_request_ok(r: PostRequest) -> bool {
    bytes_ok(r.source@) && bytes_ok(r.dest@) && bytes_ok(r.from@) && bytes_ok(r.to@) && bytes_ok(
        r.body@,
    )
}

/// Size caps for a get request.
pub open spec fn get_request_ok(g: GetRequest) -> bool {
    bytes_ok(g.source@) && bytes_ok(g.dest@) && keys_ok(g.keys@) && bytes_ok(g.context@)
}

/// Size caps for a post response.
pub open spec fn post_response_ok(p: PostResponse) -> bool {
    post_request_ok(p.request) && bytes_ok(p.response@)
}

/// Size caps for a get response.
pub open spec fn get_response_ok(g: GetResponse) -> bool {
    get_request_ok(g.request) && storage_values_ok(g.values@)
}

/// Size cap for a ping message.
pub open spec fn ping_message_ok(p: PingMessage) -> bool {
    bytes_ok(p.dest@)
}

/// The head words of a dynamic byte-string array from element `i`, with the
/// first element's data at offset `off` from the array's element area.
pub open spec fn kv_heads(v: Seq<Vec<u8>>, i: int, off: int) -> Seq<u8>
    decreases v.len() - i,
{
    if i < 0 || i >= v.len() {
        Seq::empty()
    } else {
        abi_word(off) + kv_heads(v, i + 1, off + abi_bytes(v[i]@).len())
    }
}

/// The concatenated element encodings of a byte-string array from element
/// `i`.
pub open spec fn kv_tails(v: Seq<Vec<u8>>, i: int) -> Seq<u8>
    decreases v.len() - i,
{
    if i < 0 || i >= v.len() {
        Seq::empty()
    } else {
        abi_bytes(v[i]@) + kv_tails(v, i + 1)
    }
}

/// The encoding of a dynamic byte-string array.
#[verifier::opaque]
pub open spec fn abi_bytes_array(v: Seq<Vec<u8>>) -> Seq<u8> {
    abi_word(v.len() as int) + kv_heads(v, 0, 32 * (v.len() as int)) + kv_tails(v, 0)
}

/// The encoding of one storage value: a two-member dynamic tuple.
#[verifier::opaque]
pub open spec fn enc_storage_value(s: StorageValue) -> Seq<u8> {
    let key = abi_bytes(s.key@);
    let value = abi_bytes(s.value@);
    abi_word(64) + abi_word(64 + (key.len() as int)) + key + value
}

/// The head words of a storage-value array from element `i`.
pub open spec fn sv_heads(v: Seq<StorageValue>, i: int, off: int) -> Seq<u8>
    decreases v.len() - i,
{
    if i < 0 || i >= v.len() {
        Seq::empty()
    } else {
        abi_word(off) + sv_heads(v, i + 1, off + enc_storage_value(v[i]).len())
    }
}

/// The concatenated element encodings of a storage-value array from element
/// `i`.
pub open spec fn sv_tails(v: Seq<StorageValue>, i: int) -> Seq<u8>
    decreases v.len() - i,
{
    if i < 0 || i >= v.len() {
        Seq::empty()
    } else {
        enc_storage_value(v[i]) + sv_tails(v, i + 1)
    }
}

/// The encoding of a storage-value array.
#[verifier::opaque]
pub open spec fn enc_storage_values(v: Seq<StorageValue>) -> Seq<u8> {
    abi_word(v.len() as int) + sv_heads(v, 0, 32 * (v.len() as int)) + sv_tails(v, 0)
}

/// The encoding of a post request: seven head words in field order, then the
/// five dynamic byte strings in field order.
#[verifier::opaque]
pub open spec fn enc_post_request(r: PostRequest) -> Seq<u8> {
    let source = abi_bytes(r.source@);
    let dest = abi_bytes(r.dest@);
    let from = abi_bytes(r.from@);
    let to = abi_bytes(r.to@);
    let body = abi_bytes(r.body@);
    let off_source: int = 224;
    let off_dest = off_source + source.len();
    let off_from = off_dest + dest.len();
    let off_to = off_from + from.len();
    let off_body = off_to + to.len();
    abi_word(off_source) + abi_word(off_dest as int) + abi_word(r.nonce as int) + abi_word(
        off_from as int,
    ) + abi_word(off_to as int) + abi_word(r.timeout_timestamp as int) + abi_word(off_body as int)
        + source + dest + from + to + body
}

/// The encoding of a get request: eight head words in field order, then the
/// dynamic members in field order.
#[verifier::opaque]
pub open spec fn enc_get_request(g: GetRequest) -> Seq<u8> {
    let source = abi_bytes(g.source@);
    let dest = abi_bytes(g.dest@);
    let keys = abi_bytes_array(g.keys@);
    let context = abi_bytes(g.context@);
    let off_source: int = 256;
    let off_dest = off_source + source.len();
    let off_keys = off_dest + dest.len();
    let off_context = off_keys + keys.len();
    abi_word(off_source) + abi_word(off_dest as int) + abi_word(g.nonce as int) + abi_address_word(
        g.from,
    ) + abi_word(g.timeout_timestamp as int) + abi_word(off_keys as int) + abi_word(
        g.height as int,
    ) + abi_word(off_context as int) + source + dest + keys + context
}

/// The encoding of a post response: the request tuple's offset, the body's
/// offset, the timeout word, then the two dynamic members.
#[verifier::opaque]
pub open spec fn enc_post_response(p: PostResponse) -> Seq<u8> {
    let request = enc_post_request(p.request);
    let response = abi_bytes(p.response@);
    abi_word(96) + abi_word(96 + (request.len() as int)) + abi_word(p.timeout_timestamp as int) + request
        + response
}

/// The encoding of a get response: the request tuple and the storage-value
/// array.
#[verifier::opaque]
pub open spec fn enc_get_response(g: GetResponse) -> Seq<u8> {
    let request = enc_get_request(g.request);
    let values = enc_storage_values(g.values@);
    abi_word(64) + abi_word(64 + (request.len() as int)) + request + values
}

/// The encoding of a post request with its relayer.
#[verifier::opaque]
pub open spec fn enc_incoming_post_request(m: IncomingPostRequest) -> Seq<u8> {
    abi_word(64) + abi_address_word(m.relayer) + enc_post_request(m.request)
}

/// The encoding of a get response with its relayer.
#[verifier::opaque]
pub open spec fn enc_incoming_get_response(m: IncomingGetResponse) -> Seq<u8> {
    abi_word(64) + abi_address_word(m.relayer) + enc_get_response(m.response)
}

/// The encoding of a post response with its relayer.
#[verifier::opaque]
pub open spec fn enc_incoming_post_response(m: IncomingPostResponse) -> Seq<u8> {
    abi_word(64) + abi_address_word(m.relayer) + enc_post_response(m.response)
}

/// The encoding of a ping message: five head words in field order, then the
/// destination bytes.
#[verifier::opaque]
pub open spec fn enc_ping_message(p: PingMessage) -> Seq<u8> {
    abi_word(160) + abi_address_word(p.module) + abi_word(p.timeout as int) + p.count.word()
        + p.fee.word() + abi_bytes(p.dest@)
}

/// Encodes one dynamic byte string.
pub fn abi_bytes_vec(b: &Vec<u8>) -> (r: Vec<u8>)
    requires
        bytes_ok(b@),
    ensures
        r@ == abi_bytes(b@),
        r@.len() == 32 + pad_len(b@.len() as int),
        r@.len() <= 0x100_0040,
{
    let mut out: Vec<u8> = Vec::new();
    push_word_usize(&mut out, b.len());
    push_all(&mut out, b);
    let rem = b.len() % 32;
    let padding = if rem == 0 {
        0
    } else {
        32 - rem
    };
    push_zeros(&mut out, padding);
    proof {
        assert(padding == pad_len(b@.len() as int) - b@.len());
        assert(out@ =~= abi_bytes(b@));
    }
    out
}

/// Encodes a dynamic byte-string array.
#[verifier::rlimit(50)]
pub fn enc_bytes_array_vec(v: &Vec<Vec<u8>>) -> (r: Vec<u8>)
    requires
        keys_ok(v@),
    ensures
        r@ == abi_bytes_array(v@),
        r@.len() <= 0x500_0000,
{
    let mut heads: Vec<u8> = Vec::new();
    let mut tails: Vec<u8> = Vec::new();
    let mut off: usize = 32 * v.len();
    let mut i: usize = 0;
    while i < v.len()
        invariant
            keys_ok(v@),
            i <= v@.len(),
            kv_heads(v@, 0, 32 * (v@.len() as int)) == heads@ + kv_heads(v@, i as int, off as int),
            kv_tails(v@, 0) == tails@ + kv_tails(v@, i as int),
            off == 32 * (v@.len() as int) + tails@.len(),
            heads@.len() == 32 * i,
            tails@.len() <= 0x1_0040 * i,
        decreases v@.len() - i,
    {
        let ghost off0 = off as int;
        let e = abi_bytes_vec(&v[i]);
        proof {
            assert(e@.len() <= 0x1_0040);
            assert(kv_heads(v@, i as int, off0) == abi_word(off0) + kv_heads(
                v@,
                i + 1,
                off0 + abi_bytes(v@[i as int]@).len(),
            ));
            assert(kv_tails(v@, i as int) == abi_bytes(v@[i as int]@) + kv_tails(v@, i + 1));
        }
        push_word_usize(&mut heads, off);
        off = off + e.len();
        push_all(&mut tails, &e);
        proof {
            assert(kv_heads(v@, 0, 32 * (v@.len() as int)) =~= heads@ + kv_heads(v@, i + 1, off as int));
            assert(kv_tails(v@, 0) =~= tails@ + kv_tails(v@, i + 1));
        }
        i = i + 1;
    }
    let mut out: Vec<u8> = Vec::new();
    push_word_usize(&mut out, v.len());
    push_all(&mut out, &heads);
    push_all(&mut out, &tails);
    proof {
        reveal(abi_bytes_array);
        assert(kv_heads(v@, i as int, off as int) =~= Seq::<u8>::empty());
        assert(kv_tails(v@, i as int) =~= Seq::<u8>::empty());
        assert(heads@ =~= kv_heads(v@, 0, 32 * (v@.len() as int)));
        assert(tails@ =~= kv_tails(v@, 0));
        assert(out@ =~= abi_bytes_array(v@));
    }
    out
}

/// Encodes one storage value.
#[verifier::rlimit(50)]
pub fn enc_storage_value_vec(s: &StorageValue) -> (r: Vec<u8>)
    requires
        storage_value_ok(*s),
    ensures
        r@ == enc_storage_value(*s),
        r@.len() <= 0x2_1000,
{
    let key = abi_bytes_vec(&s.key);
    let value = abi_bytes_vec(&s.value);
    let mut out: Vec<u8> = Vec::new();
    push_word_usize(&mut out, 64);
    push_word_usize(&mut out, 64 + key.len());
    push_all(&mut out, &key);
    push_all(&mut out, &value);
    proof {
        reveal(enc_storage_value);
        assert(out@ =~= enc_storage_value(*s));
    }
    out
}

/// Encodes a storage-value array.
#[verifier::rlimit(50)]
pub fn enc_storage_values_vec(v: &Vec<StorageValue>) -> (r: Vec<u8>)
    requires
        storage_values_ok(v@),
    ensures
        r@ == enc_storage_values(v@),
        r@.len() <= 0x900_0000,
{
    let mut heads: Vec<u8> = Vec::new();
    let mut tails: Vec<u8> = Vec::new();
    let mut off: usize = 32 * v.len();
    let mut i: usize = 0;
    while i < v.len()
        invariant
            storage_values_ok(v@),
            i <= v@.len(),
            sv_heads(v@, 0, 32 * (v@.len() as int)) == heads@ + sv_heads(v@, i as int, off as int),
            sv_tails(v@, 0) == tails@ + sv_tails(v@, i as int),
            off == 32 * (v@.len() as int) + tails@.len(),
            heads@.len() == 32 * i,
            tails@.len() <= 0x2_1000 * i,
        decreases v@.len() - i,
    {
        let ghost off0 = off as int;
        let e = enc_storage_value_vec(&v[i]);
        proof {
            assert(sv_heads(v@, i as int, off0) == abi_word(off0) + sv_heads(
                v@,
                i + 1,
                off0 + enc_storage_value(v@[i as int]).len(),
            ));
            assert(sv_tails(v@, i as int) == enc_storage_value(v@[i as int]) + sv_tails(
                v@,
                i + 1,
            ));
        }
        push_word_usize(&mut heads, off);
        off = off + e.len();
        push_all(&mut tails, &e);
        proof {
            assert(sv_heads(v@, 0, 32 * (v@.len() as int)) =~= heads@ + sv_heads(v@, i + 1, off as int));
            assert(sv_tails(v@, 0) =~= tails@ + sv_tails(v@, i + 1));
        }
        i = i + 1;
    }
    let mut out: Vec<u8> = Vec::new();
    push_word_usize(&mut out, v.len());
    push_all(&mut out, &heads);
    push_all(&mut out, &tails);
    proof {
        reveal(enc_storage_values);
        assert(sv_heads(v@, i as int, off as int) =~= Seq::<u8>::empty());
        assert(sv_tails(v@, i as int) =~= Seq::<u8>::empty());
        assert(heads@ =~= sv_heads(v@, 0, 32 * (v@.len() as int)));
        assert(tails@ =~= sv_tails(v@, 0));
        assert(out@ =~= enc_storage_values(v@));
    }
    out
}

/// Encodes a post request.
#[verifier::rlimit(100)]
#[verifier::spinoff_prover]
pub fn enc_post_request_vec(r: &PostRequest) -> (out: Vec<u8>)
    requires
        post_request_ok(*r),
    ensures
        out@ == enc_post_request(*r),
        out@.len() <= 0x600_0000,
{
    let source = abi_bytes_vec(&r.source);
    let dest = abi_bytes_vec(&r.dest);
    let from = abi_bytes_vec(&r.from);
    let to = abi_bytes_vec(&r.to);
    let body = abi_bytes_vec(&r.body);
    let off_source: usize = 224;
    let off_dest = off_source + source.len();
    let off_from = off_dest + dest.len();
    let off_to = off_from + from.len();
    let off_body = off_to + to.len();
    let mut out: Vec<u8> = Vec::new();
    push_word_usize(&mut out, off_source);
    push_word_usize(&mut out, off_dest);
    push_word_u64(&mut out, r.nonce);
    push_word_usize(&mut out, off_from);
    push_word_usize(&mut out, off_to);
    push_word_u64(&mut out, r.timeout_timestamp);
    push_word_usize(&mut out, off_body);
    push_all(&mut out, &source);
    push_all(&mut out, &dest);
    push_all(&mut out, &from);
    push_all(&mut out, &to);
    push_all(&mut out, &body);
    proof {
        reveal(enc_post_request);
        assert(Seq::<u8>::empty() + abi_word(224) =~= abi_word(224));
        assert(out@ == enc_post_request(*r));
    }
    out
}

/// Encodes a get request.
#[verifier::rlimit(100)]
#[verifier::spinoff_prover]
pub fn enc_get_request_vec(g: &GetRequest) -> (out: Vec<u8>)
    requires
        get_request_ok(*g),
    ensures
        out@ == enc_get_request(*g),
        out@.len() <= 0x900_0000,
{
    let source = abi_bytes_vec(&g.source);
    let dest = abi_bytes_vec(&g.dest);
    let keys = enc_bytes_array_vec(&g.keys);
    let context = abi_bytes_vec(&g.context);
    let off_source: usize = 256;
    let off_dest = off_source + source.len();
    let off_keys = off_dest + dest.len();
    let off_context = off_keys + keys.len();
    let mut out: Vec<u8> = Vec::new();
    push_word_usize(&mut out, off_source);
    push_word_usize(&mut out, off_dest);
    push_word_u64(&mut out, g.nonce);
    push_address_word(&mut out, &g.from);
    push_word_u64(&mut out, g.timeout_timestamp);
    push_word_usize(&mut out, off_keys);
    push_word_u64(&mut out, g.height);
    push_word_usize(&mut out, off_context);
    push_all(&mut out, &source);
    push_all(&mut out, &dest);
    push_all(&mut out, &keys);
    push_all(&mut out, &context);
    proof {
        reveal(enc_get_request);
        assert(Seq::<u8>::empty() + abi_word(256) =~= abi_word(256));
        assert(out@ == enc_get_request(*g));
    }
    out
}

/// Encodes a post response.
#[verifier::rlimit(100)]
#[verifier::spinoff_prover]
pub fn enc_post_response_vec(p: &PostResponse) -> (out: Vec<u8>)
    requires
        post_response_ok(*p),
    ensures
        out@ == enc_post_response(*p),
        out@.len() <= 0x800_0000,
{
    let request = enc_post_request_vec(&p.request);
    let response = abi_bytes_vec(&p.response);
    let mut out: Vec<u8> = Vec::new();
    push_word_usize(&mut out, 96);
    push_word_usize(&mut out, 96 + request.len());
    push_word_u64(&mut out, p.timeout_timestamp);
    push_all(&mut out, &request);
    push_all(&mut out, &response);
    proof {
        reveal(enc_post_response);
        assert(Seq::<u8>::empty() + abi_word(96) =~= abi_word(96));
        assert(out@ == enc_post_response(*p));
    }
    out
}

/// Encodes a get response.
#[verifier::rlimit(100)]
#[verifier::spinoff_prover]
pub fn enc_get_response_vec(g: &GetResponse) -> (out: Vec<u8>)
    requires
        get_response_ok(*g),
    ensures
        out@ == enc_get_response(*g),
        out@.len() <= 0x1300_0000,
{
    let request = enc_get_request_vec(&g.request);
    let values = enc_storage_values_vec(&g.values);
    let mut out: Vec<u8> = Vec::new();
    push_word_usize(&mut out, 64);
    push_word_usize(&mut out, 64 + request.len());
    push_all(&mut out, &request);
    push_all(&mut out, &values);
    proof {
        reveal(enc_get_response);
        assert(Seq::<u8>::empty() + abi_word(64) =~= abi_word(64));
        assert(out@ == enc_get_response(*g));
    }
    out
}

/// Encodes a post request with its relayer.
#[verifier::rlimit(100)]
#[verifier::spinoff_prover]
pub fn enc_incoming_post_request_vec(m: &IncomingPostRequest) -> (out: Vec<u8>)
    requires
        post_request_ok(m.request),
    ensures
        out@ == enc_incoming_post_request(*m),
        out@.len() <= 0x700_0000,
{
    let request = enc_post_request_vec(&m.request);
    let mut out: Vec<u8> = Vec::new();
    push_word_usize(&mut out, 64);
    push_address_word(&mut out, &m.relayer);
    push_all(&mut out, &request);
    proof {
        reveal(enc_incoming_post_request);
        assert(Seq::<u8>::empty() + abi_word(64) =~= abi_word(64));
        assert(out@ == enc_incoming_post_request(*m));
    }
    out
}

/// Encodes a get response with its relayer.
#[verifier::rlimit(100)]
#[verifier::spinoff_prover]
pub fn enc_incoming_get_response_vec(m: &IncomingGetResponse) -> (out: Vec<u8>)
    requires
        get_response_ok(m.response),
    ensures
        out@ == enc_incoming_get_response(*m),
        out@.len() <= 0x1400_0000,
{
    let response = enc_get_response_vec(&m.response);
    let mut out: Vec<u8> = Vec::new();
    push_word_usize(&mut out, 64);
    push_address_word(&mut out, &m.relayer);
    push_all(&mut out, &response);
    proof {
        reveal(enc_incoming_get_response);
        assert(Seq::<u8>::empty() + abi_word(64) =~= abi_word(64));
        assert(out@ == enc_incoming_get_response(*m));
    }
    out
}

/// Encodes a post response with its relayer.
#[verifier::rlimit(100)]
#[verifier::spinoff_prover]
pub fn enc_incoming_post_response_vec(m: &IncomingPostResponse) -> (out: Vec<u8>)
    requires
        post_response_ok(m.response),
    ensures
        out@ == enc_incoming_post_response(*m),
        out@.len() <= 0x900_0000,
{
    let response = enc_post_response_vec(&m.response);
    let mut out: Vec<u8> = Vec::new();
    push_word_usize(&mut out, 64);
    push_address_word(&mut out, &m.relayer);
    push_all(&mut out, &response);
    proof {
        reveal(enc_incoming_post_response);
        assert(Seq::<u8>::empty() + abi_word(64) =~= abi_word(64));
        assert(out@ == enc_incoming_post_response(*m));
    }
    out
}

/// Encodes a ping message.
#[verifier::rlimit(50)]
pub fn enc_ping_message_vec(p: &PingMessage) -> (out: Vec<u8>)
    requires
        ping_message_ok(*p),
    ensures
        out@ == enc_ping_message(*p),
        out@.len() <= 0x200_0000,
{
    let dest = abi_bytes_vec(&p.dest);
    let mut out: Vec<u8> = Vec::new();
    push_word_usize(&mut out, 160);
    push_address_word(&mut out, &p.module);
    push_word_u64(&mut out, p.timeout);
    push_u256_word(&mut out, &p.count);
    push_u256_word(&mut out, &p.fee);
    push_all(&mut out, &dest);
    proof {
        reveal(enc_ping_message);
        assert(Seq::<u8>::empty() + abi_word(160) =~= abi_word(160));
        assert(out@ == enc_ping_message(*p));
    }
    out
}

} // verus!
