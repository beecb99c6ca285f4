//! Deriving a wallet's address from the factory contract.
//!
//! The address of a wallet is a function of the factory, the salt and the
//! owner, and the factory itself offers a view function that computes it. This
//! module builds the call to that function and reads the address out of the
//! bytes that come back. Sending the call to a node is the caller's part.

use vstd::prelude::*;
use vstd::array::array_as_slice;
use vstd::slice::slice_subrange;
use vstd::string::StringSliceAdditionalSpecFns;
use crate::address::{address_of_text, checksum_text, parse_address, Address};
use crate::error::ErrorKind;
use crate::salt::{generate_salt, parse_salt, salt_of_text, salt_text, Salt};

verus! {

/// The signature of the factory's view function, from which its selector is
/// derived.
pub const CALL_SIGNATURE: &'static str = "computeWalletAddress(bytes32,address)";

/// Length of the encoded call: selector, salt word, owner word.
pub const CALL_LEN: usize = 68;

/// The chain the factory is deployed on.
pub const CHAIN_ID: u64 = 84532;

/// The Keccak-256 digest of `data`, as `alloy` computes it. It is a function
/// of the bytes alone; nothing else is claimed of it here.
pub uninterp spec fn keccak256_digest(data: Seq<u8>) -> Seq<u8>;

/// Calls `alloy`'s `keccak256` and hands back the 32 bytes of the digest.
#[verifier::external_body]
fn keccak256(data: &[u8]) -> (digest: [u8; 32])
    ensures
        digest@ == keccak256_digest(data@),
{
    alloy::primitives::keccak256(data).0
}

/// The selector of the function with the given signature: the first four
/// bytes of the signature's digest.
pub open spec fn selector_of(signature: Seq<u8>) -> Seq<u8> {
    keccak256_digest(signature).take(4)
}

/// Twelve zero bytes: what pads a 20-byte address to a 32-byte word.
pub open spec fn address_padding() -> Seq<u8> {
    Seq::new(12, |i: int| 0u8)
}

/// The encoded call: the selector, the salt as one word, and the owner
/// right-aligned in a second word.
pub open spec fn call_data(selector: Seq<u8>, salt: Seq<u8>, owner: Seq<u8>) -> Seq<u8> {
    selector + salt + address_padding() + owner
}

/// Where the address lies in the bytes a node returns. A full word holds it
/// in its last 20 bytes; a shorter answer of at least 20 bytes is read from
/// its end; anything shorter holds no address.
pub open spec fn address_in_payload(payload: Seq<u8>) -> Option<Seq<u8>> {
    if payload.len() >= 32 {
        Some(payload.subrange(12, 32))
    } else if payload.len() >= 20 {
        Some(payload.subrange(payload.len() - 20, payload.len() as int))
    } else {
        None
    }
}

/// The selector that a signature's digest gives: its first four bytes.
pub fn selector_from_digest(digest: &[u8; 32]) -> (selector: [u8; 4])
    ensures
        selector@ == digest@.take(4),
{
    let mut selector: [u8; 4] = [0u8; 4];
    let mut i: usize = 0;
    while i < 4
        invariant
            i <= 4,
            forall|j: int| 0 <= j < i ==> selector@[j] == digest@[j],
        decreases 4 - i,
    {
        selector[i] = digest[i];
        i += 1;
    }
    selector
}

/// Computes the selector of a function from its signature.
pub fn function_selector(signature: &str) -> (selector: [u8; 4])
    ensures
        selector@ == selector_of(signature.spec_bytes()),
{
    let digest = keccak256(signature.as_bytes());
    selector_from_digest(&digest)
}

/// Appends `source` to `out`.
fn append_bytes(out: &mut Vec<u8>, source: &[u8])
    ensures
        final(out)@ == old(out)@ + source@,
{
    let mut i: usize = 0;
    while i < source.len()
        invariant
            i <= source@.len(),
            out@ == old(out)@ + source@.take(i as int),
        decreases source@.len() - i,
    {
        out.push(source[i]);
        i += 1;
    }
}

/// Encodes the call to the function with the given selector for one salt and
/// owner.
pub fn encode_call_with(selector: &[u8; 4], salt: &Salt, owner: &Address) -> (data: Vec<u8>)
    ensures
        data@ == call_data(selector@, salt@, owner@),
        data@.len() == CALL_LEN,
{
    let mut data: Vec<u8> = Vec::new();
    append_bytes(&mut data, array_as_slice(selector));
    append_bytes(&mut data, array_as_slice(&salt.bytes));
    let mut i: usize = 0;
    while i < 12
        invariant
            i <= 12,
            data@ == selector@ + salt@ + address_padding().take(i as int),
        decreases 12 - i,
    {
        data.push(0u8);
        i += 1;
    }
    append_bytes(&mut data, array_as_slice(&owner.bytes));
    data
}

/// Encodes the call that asks the factory for the wallet of `owner` under
/// `salt`.
pub fn encode_call(salt: &Salt, owner: &Address) -> (data: Vec<u8>)
    ensures
        data@ == call_data(selector_of(CALL_SIGNATURE.spec_bytes()), salt@, owner@),
        data@.len() == CALL_LEN,
{
    let selector = function_selector(CALL_SIGNATURE);
    encode_call_with(&selector, salt, owner)
}

/// Reads the address out of the bytes a node returned for the call. An answer
/// of fewer than 20 bytes is an internal error.
pub fn decode_address(payload: &[u8]) -> (r: Result<Address, ErrorKind>)
    ensures
        match address_in_payload(payload@) {
            Some(bytes) => r matches Ok(address) && address@ == bytes,
            None => r == Err::<Address, ErrorKind>(ErrorKind::Internal),
        },
{
    let len: usize = payload.len();
    if len < 20 {
        return Err(ErrorKind::Internal);
    }
    let tail = if len >= 32 {
        slice_subrange(payload, 12, 32)
    } else {
        slice_subrange(payload, len - 20, len)
    };
    let mut bytes: [u8; 20] = [0u8; 20];
    let mut i: usize = 0;
    while i < 20
        invariant
            i <= 20,
            tail@.len() == 20,
            forall|j: int| 0 <= j < i ==> bytes@[j] == tail@[j],
        decreases 20 - i,
    {
        bytes[i] = tail[i];
        i += 1;
    }
    Ok(Address { bytes })
}

/// A call ready to be sent to the factory, with the owner and salt it is for.
pub struct AddressQuery {
    pub owner: Address,
    pub salt: Salt,
    pub call_data: Vec<u8>,
}

impl AddressQuery {
    /// The call data is the encoding of the call for this owner and salt.
    pub open spec fn wf(&self) -> bool {
        self.call_data@ == call_data(
            selector_of(CALL_SIGNATURE.spec_bytes()),
            self.salt@,
            self.owner@,
        )
    }
}

/// What came of sending a call to the node.
pub enum NodeReply {
    /// The node executed the call and returned these bytes.
    Returned(Vec<u8>),
    /// The transport failed or the node reported an error.
    Failed,
}

/// The address a reply resolves to, if any.
pub open spec fn address_in_reply(reply: NodeReply) -> Option<Seq<u8>> {
    match reply {
        NodeReply::Returned(payload) => address_in_payload(payload@),
        NodeReply::Failed => None,
    }
}

/// The answer to a request for a wallet's address, every field as text.
pub struct ComputedAddress {
    pub wallet_address: String,
    pub salt: String,
    pub owner: String,
    pub deployer_contract: String,
    pub chain_id: u64,
}

/// Builds the query for an owner and a salt.
pub fn build_query(owner: Address, salt: Salt) -> (query: AddressQuery)
    ensures
        query.owner@ == owner@,
        query.salt@ == salt@,
        query.wf(),
        query.call_data@.len() == CALL_LEN,
{
    let data = encode_call(&salt, &owner);
    AddressQuery { owner, salt, call_data: data }
}

/// The owner spells an address, and the salt, if one is given, spells a salt.
pub open spec fn is_well_formed_request(owner: &str, salt: Option<&str>) -> bool {
    &&& address_of_text(owner.spec_bytes()) is Some
    &&& salt matches Some(text) ==> salt_of_text(text.spec_bytes()) is Some
}

/// `query` is a query for the owner that `owner` spells and, if a salt is
/// given, for the salt that it spells.
pub open spec fn is_query_for(query: AddressQuery, owner: &str, salt: Option<&str>) -> bool {
    &&& query.wf()
    &&& query.call_data@.len() == CALL_LEN
    &&& address_of_text(owner.spec_bytes()) == Some(query.owner@)
    &&& salt matches Some(text) ==> salt_of_text(text.spec_bytes()) == Some(query.salt@)
}

/// `r` is the answer to `query`, sent to `factory`, that `reply` gives: the
/// address in the reply, the salt, the owner and the factory, each as text,
/// or an internal error if the reply holds no address.
pub open spec fn is_answer(
    query: AddressQuery,
    factory: Seq<u8>,
    reply: NodeReply,
    r: Result<ComputedAddress, ErrorKind>,
) -> bool {
    match address_in_reply(reply) {
        Some(wallet) => r matches Ok(answer) && {
            &&& answer.wallet_address@ == checksum_text(wallet)
            &&& answer.salt@ == salt_text(query.salt@)
            &&& answer.owner@ == checksum_text(query.owner@)
            &&& answer.deployer_contract@ == checksum_text(factory)
            &&& answer.chain_id == CHAIN_ID
        },
        None => r matches Err(kind) && kind == ErrorKind::Internal,
    }
}

/// Builds the query for an owner given as text and a salt that is given as
/// text or, when absent, drawn at random. A malformed owner or salt is a bad
/// request.
pub fn prepare_query(owner: &str, salt: Option<&str>) -> (r: Result<AddressQuery, ErrorKind>)
    ensures
        r is Ok <==> is_well_formed_request(owner, salt),
        r matches Err(kind) ==> kind == ErrorKind::BadRequest,
        r matches Ok(query) ==> is_query_for(query, owner, salt),
{
    let owner = match parse_address(owner) {
        Ok(address) => address,
        Err(kind) => {
            return Err(kind);
        },
    };
    let salt = match salt {
        Some(text) => match parse_salt(text) {
            Ok(salt) => salt,
            Err(kind) => {
                return Err(kind);
            },
        },
        None => generate_salt(),
    };
    Ok(build_query(owner, salt))
}

/// Turns the node's reply to a query into the answer for the caller: the
/// wallet's address as decoded from the reply, beside the salt, the owner and
/// the factory that the query was for. A failed call, or a reply too short to
/// hold an address, is an internal error.
pub fn resolve_address(query: &AddressQuery, factory: &Address, reply: &NodeReply) -> (r: Result<
    ComputedAddress,
    ErrorKind,
>)
    ensures
        is_answer(*query, factory@, *reply, r),
{
    match reply {
        NodeReply::Failed => Err(ErrorKind::Internal),
        NodeReply::Returned(payload) => {
            match decode_address(payload.as_slice()) {
                Err(kind) => Err(kind),
                Ok(wallet) => Ok(
                    ComputedAddress {
                        wallet_address: wallet.to_checksum(),
                        salt: query.salt.to_hex(),
                        owner: query.owner.to_checksum(),
                        deployer_contract: factory.to_checksum(),
                        chain_id: CHAIN_ID,
                    },
                ),
            }
        },
    }
}

/// Answers a request for a wallet's address: reads the owner and the salt,
/// drawing a salt if none is given, hands the encoded call to `node` once,
/// and answers with what the reply resolves to. A malformed owner or salt is
/// a bad request, and then `node` is not needed; a failed call, or a reply
/// too short to hold an address, is an internal error.
pub fn compute_address<F: FnOnce(Vec<u8>) -> NodeReply>(
    owner: &str,
    salt: Option<&str>,
    factory: &Address,
    node: F,
) -> (r: Result<ComputedAddress, ErrorKind>)
    requires
        forall|data: Vec<u8>| data@.len() == CALL_LEN ==> #[trigger] call_requires(node, (data,)),
    ensures
        !is_well_formed_request(owner, salt) ==> (r matches Err(kind) && kind
            == ErrorKind::BadRequest),
        is_well_formed_request(owner, salt) ==> exists|
            query: AddressQuery,
            data: Vec<u8>,
            reply: NodeReply,
        |
            {
                &&& is_query_for(query, owner, salt)
                &&& data@ == query.call_data@
                &&& #[trigger] call_ensures(node, (data,), reply)
                &&& #[trigger] is_answer(query, factory@, reply, r)
            },
{
    let query = match prepare_query(owner, salt) {
        Ok(query) => query,
        Err(kind) => {
            return Err(kind);
        },
    };
    let data = query.call_data.clone();
    let reply = node(data);
    let r = resolve_address(&query, factory, &reply);

    r
}

/// The call that asks the factory for the wallet of `owner` under `salt`.
pub open spec fn wallet_call(salt: Seq<u8>, owner: Seq<u8>) -> Seq<u8> {
    call_data(selector_of(CALL_SIGNATURE.spec_bytes()), salt, owner)
}

/// What a reply resolves to: the address in it, or an internal error if it
/// holds none.
pub open spec fn resolution(reply: NodeReply) -> Result<Seq<u8>, ErrorKind> {
    match address_in_reply(reply) {
        Some(address) => Ok(address),
        None => Err(ErrorKind::Internal),
    }
}

/// `outcome` is what computing the wallet of `owner` under `salt` may give
/// when calls are sent through `node`: the resolution of some reply that
/// `node` may give to the encoded call.
pub open spec fn is_computed<F: FnOnce(Vec<u8>) -> NodeReply>(
    node: F,
    owner: Seq<u8>,
    salt: Seq<u8>,
    outcome: Result<Seq<u8>, ErrorKind>,
) -> bool {
    exists|data: Vec<u8>, reply: NodeReply|
        {
            &&& data@ == wallet_call(salt, owner)
            &&& #[trigger] call_ensures(node, (data,), reply)
            &&& outcome == resolution(reply)
        }
}

/// `node` answers a call by its bytes alone, as far as the address in its
/// answer goes: two replies to the same bytes hold the same address, or both
/// hold none.
pub open spec fn answers_by_bytes<F: FnOnce(Vec<u8>) -> NodeReply>(node: F) -> bool {
    forall|first: Vec<u8>, second: Vec<u8>, a: NodeReply, b: NodeReply|
        first@ == second@ && #[trigger] call_ensures(node, (first,), a) && #[trigger] call_ensures(
            node,
            (second,),
            b,
        ) ==> address_in_reply(a) == address_in_reply(b)
}

/// The address, or the error, that a result holds.
pub open spec fn outcome_view(r: Result<Address, ErrorKind>) -> Result<Seq<u8>, ErrorKind> {
    match r {
        Ok(address) => Ok(address@),
        Err(kind) => Err(kind),
    }
}

/// Computes the address of the wallet of `owner` under `salt`: encodes the
/// call, hands it to `node` once, and decodes the address from the reply. A
/// failed call, or a reply too short to hold an address, is an internal
/// error; the call is not tried again.
pub fn compute<F: FnOnce(Vec<u8>) -> NodeReply>(owner: &Address, salt: &Salt, node: F) -> (r:
    Result<Address, ErrorKind>)
    requires
        forall|data: Vec<u8>|
            data@ == wallet_call(salt@, owner@) ==> #[trigger] call_requires(node, (data,)),
    ensures
        is_computed(node, owner@, salt@, outcome_view(r)),
{
    let data = encode_call(salt, owner);
    let reply = node(data);
    let r = match &reply {
        NodeReply::Failed => Err(ErrorKind::Internal),
        NodeReply::Returned(payload) => decode_address(payload.as_slice()),
    };

    r
}

/// Whatever node the calls are sent through, computing an address gives an
/// address of exactly 20 bytes or an internal error, and it gives an address
/// exactly when the node's reply holds at least 20 bytes.
pub proof fn law_computed_address_is_well_formed<F: FnOnce(Vec<u8>) -> NodeReply>(
    node: F,
    owner: Seq<u8>,
    salt: Seq<u8>,
    outcome: Result<Seq<u8>, ErrorKind>,
)
    requires
        is_computed(node, owner, salt, outcome),
    ensures
        match outcome {
            Ok(address) => address.len() == 20,
            Err(kind) => kind == ErrorKind::Internal,
        },
{
}

/// Through a node that answers a call by its bytes alone, computing the
/// address for the same owner and salt gives the same outcome every time.
pub proof fn law_compute_is_deterministic<F: FnOnce(Vec<u8>) -> NodeReply>(
    node: F,
    owner: Seq<u8>,
    salt: Seq<u8>,
    first: Result<Seq<u8>, ErrorKind>,
    second: Result<Seq<u8>, ErrorKind>,
)
    requires
        answers_by_bytes(node),
        is_computed(node, owner, salt, first),
        is_computed(node, owner, salt, second),
    ensures
        first == second,
{
    let (d1, r1) = choose|data: Vec<u8>, reply: NodeReply|
        {
            &&& data@ == wallet_call(salt, owner)
            &&& #[trigger] call_ensures(node, (data,), reply)
            &&& first == resolution(reply)
        };
    let (d2, r2) = choose|data: Vec<u8>, reply: NodeReply|
        {
            &&& data@ == wallet_call(salt, owner)
            &&& #[trigger] call_ensures(node, (data,), reply)
            &&& second == resolution(reply)
        };
}

/// An encoded call for a 20-byte owner and a 32-byte salt has 68 bytes, and
/// every reply of at least 20 bytes resolves to an address of exactly 20
/// bytes; no shorter reply resolves to one.
pub proof fn law_resolved_address_is_well_formed(
    selector: Seq<u8>,
    owner: Seq<u8>,
    salt: Seq<u8>,
    payload: Seq<u8>,
)
    requires
        selector.len() == 4,
        owner.len() == 20,
        salt.len() == 32,
    ensures
        call_data(selector, salt, owner).len() == CALL_LEN,
        payload.len() >= 20 <==> address_in_payload(payload) is Some,
        address_in_payload(payload) matches Some(address) ==> address.len() == 20,
{
}

} // verus!
