//! Driving a live node through the Engine API, block by block.
//!
//! Per block, in this order: `engine_newPayloadV4`, `engine_forkchoiceUpdatedV3`, and then
//! `debug_executionWitness`, which is what is measured. The update is required: without it the block
//! is not on the canonical chain and the witness call cannot find it.
//!
//! The caller sends the requests and hands the responses back, with the time each took:
//! [`NewPayload`] → [`ForkchoiceUpdate`] → [`WitnessCalls`] → [`EngineRow`].

use vstd::prelude::*;
use serde_json::Value;
use vstd::utf8;
use crate::blocks;
use crate::blocks::{BlockView, EthBlock, LoadedBlock};
use crate::bytes::B256;
use crate::clock;
use crate::clock::{shortest_after_first, Duration};
use crate::json;
use crate::json::{array, copy, get, null, number, object, string, with_member, JsonTree};
use crate::text;
use crate::text::{hex_bytes, hex_quantity, same_text};

verus! {

/// The blocks that a drive submits.
#[derive(Clone, Copy, Debug, PartialEq, Eq, Structural)]
pub struct EngineOptions {
    /// First block to submit.
    pub from: u64,
    /// Last block to submit. The first one where it is not given.
    pub to: Option<u64>,
    /// How many witness calls are made per block.
    pub witness_repeat: u32,
    /// Whether the witness calls are left out, to measure the driver's own floor.
    pub skip_witness: bool,
}

impl EngineOptions {
    /// The last block to submit.
    pub open spec fn last(self) -> u64 {
        match self.to {
            Some(to) => to,
            None => self.from,
        }
    }

    /// How many witness calls are made per block.
    pub open spec fn calls(self) -> u32 {
        if self.skip_witness {
            0
        } else {
            self.witness_repeat
        }
    }

    /// The last block to submit; the last block itself as an error, where it comes before the first.
    pub fn range_end(&self) -> (r: Result<u64, u64>)
        ensures
            r == (if self.last() < self.from {
                Err::<u64, u64>(self.last())
            } else {
                Ok::<u64, u64>(self.last())
            }),
    {
        let to = match self.to {
            Some(to) => to,
            None => self.from,
        };
        if to < self.from {
            Err(to)
        } else {
            Ok(to)
        }
    }
}

/// A method that is called on the node.
#[derive(Clone, Copy, Debug, PartialEq, Eq, Structural)]
pub enum Method {
    /// Submits a block.
    NewPayload,
    /// Makes a block the head.
    ForkchoiceUpdated,
    /// Generates the witness of a block.
    ExecutionWitness,
}

impl Method {
    /// Its name.
    pub open spec fn words(self) -> Seq<char> {
        match self {
            Method::NewPayload => "engine_newPayloadV4"@,
            Method::ForkchoiceUpdated => "engine_forkchoiceUpdatedV3"@,
            Method::ExecutionWitness => "debug_executionWitness"@,
        }
    }

    /// Its name.
    pub fn name(&self) -> (r: String)
        ensures
            r@ == self.words(),
    {
        match self {
            Method::NewPayload => String::from_str("engine_newPayloadV4"),
            Method::ForkchoiceUpdated => String::from_str("engine_forkchoiceUpdatedV3"),
            Method::ExecutionWitness => String::from_str("debug_executionWitness"),
        }
    }

    /// Whether it is called on the authenticated engine port.
    pub fn authenticated(&self) -> (r: bool)
        ensures
            r == !(*self == Method::ExecutionWitness),
    {
        match self {
            Method::ExecutionWitness => false,
            _ => true,
        }
    }
}

/// Why a block cannot be driven through the node.
#[derive(Debug)]
pub enum EngineError {
    /// The block has no requests hash.
    NoRequestsHash {
        /// The number of the block.
        number: u64,
    },
    /// The block does not convert to a payload of the third version: there is a fork boundary here,
    /// and the payload is submitted by another method.
    NotV3 {
        /// The number of the block.
        number: u64,
    },
    /// The block has no parent beacon block root.
    NoBeaconRoot {
        /// The number of the block.
        number: u64,
    },
    /// A call returned an error.
    Returned {
        /// The method.
        method: Method,
        /// The error.
        error: Value,
    },
    /// A call returned no result.
    NoResult {
        /// The method.
        method: Method,
        /// The whole response.
        response: Value,
    },
    /// The node does not hold the block to be valid.
    NotValid {
        /// The method whose result says so.
        method: Method,
        /// The number of the block.
        number: u64,
        /// The status it gives, if any.
        status: Option<String>,
        /// The whole result.
        result: Value,
    },
}

/// What a JSON-RPC request holds.
pub open spec fn request_tree(method: Method, params: JsonTree) -> JsonTree {
    JsonTree::Object(
        Map::<Seq<char>, JsonTree>::empty().insert("jsonrpc"@, JsonTree::Text("2.0"@)).insert(
            "id"@,
            JsonTree::Number(text::numeral(1, 10)),
        ).insert("method"@, JsonTree::Text(method.words())).insert("params"@, params),
    )
}

/// Whether a failure is what a call comes to whose response holds no result: the value of its
/// `error`, or else the response itself.
pub open spec fn rpc_fails(failure: EngineError, method: Method, response: Value) -> bool {
    match json::member(json::json_tree(response), "error"@) {
        Some(error) => failure matches EngineError::Returned { method: m, error: e } && m == method
            && json::json_tree(e) == error,
        None => failure == (EngineError::NoResult { method, response }),
    }
}

/// A JSON-RPC request.
fn request(method: Method, params: Value) -> (r: Value)
    ensures
        json::json_tree(r) == request_tree(method, json::json_tree(params)),
{
    let request = object();
    let request = with_member(request, "jsonrpc", string(String::from_str("2.0")));
    let request = with_member(request, "id", number(1));
    let request = with_member(request, "method", string(method.name()));
    with_member(request, "params", params)
}

/// The result of a call, out of its response: the member `result`, unless there is an `error`.
pub fn rpc(method: Method, response: Value) -> (r: Result<Value, EngineError>)
    ensures
        ({
            let tree = json::json_tree(response);
            let error = json::member(tree, "error"@);
            let result = json::member(tree, "result"@);
            &&& r is Ok <==> error is None && result is Some
            &&& r is Ok ==> json::json_tree(r->Ok_0) == result->0
            &&& r is Err ==> rpc_fails(r->Err_0, method, response)
        }),
{
    if let Some(error) = get(&response, "error") {
        return Err(EngineError::Returned { method, error: copy(error) });
    }
    match get(&response, "result") {
        Some(result) => Ok(copy(result)),
        None => Err(EngineError::NoResult { method, response }),
    }
}

/// The payload that an Engine API call takes for a block.
#[derive(Debug)]
pub struct PayloadParts {
    /// The payload of the third version as JSON, where the block converts to one.
    pub v3: Option<Value>,
    /// The versioned hashes of its blobs, where it has any field for them.
    pub versioned_hashes: Option<Vec<B256>>,
    /// The root of the parent beacon block, where it has one.
    pub parent_beacon_block_root: Option<B256>,
}

/// [`PayloadParts`], as what they hold.
pub struct PayloadView {
    /// The payload of the third version, where the block converts to one.
    pub v3: Option<JsonTree>,
    /// The versioned hashes of its blobs, where it has any field for them.
    pub versioned_hashes: Option<Seq<B256>>,
    /// The root of the parent beacon block, where it has one.
    pub parent_beacon_block_root: Option<B256>,
}

impl View for PayloadParts {
    type V = PayloadView;

    open spec fn view(&self) -> PayloadView {
        PayloadView {
            v3: match self.v3 {
                Some(v3) => Some(json::json_tree(v3)),
                None => None,
            },
            versioned_hashes: match self.versioned_hashes {
                Some(hashes) => Some(hashes@),
                None => None,
            },
            parent_beacon_block_root: self.parent_beacon_block_root,
        }
    }
}

/// The payload of a block.
pub uninterp spec fn block_payload(block: BlockView) -> PayloadView;

/// `ExecutionPayload::from_block_slow`: the payload of a block, as JSON where it is one of the third
/// version, and the fields beside it.
#[verifier::external_body]
pub(crate) fn execution_payload(block: &EthBlock) -> (r: PayloadParts)
    ensures
        r@ == block_payload(blocks::block_view(*block)),
{
    let (payload, sidecar) = alloy_rpc_types_engine::ExecutionPayload::from_block_slow(block);
    let v3 = match payload {
        alloy_rpc_types_engine::ExecutionPayload::V1(_) => None,
        alloy_rpc_types_engine::ExecutionPayload::V2(_) => None,
        alloy_rpc_types_engine::ExecutionPayload::V3(v3) => serde_json::to_value(v3).ok(),
        alloy_rpc_types_engine::ExecutionPayload::V4(_) => None,
    };
    let hashes = sidecar.versioned_hashes();
    let versioned_hashes = hashes.map(|list| list.iter().map(|hash| hash.0).collect());
    let root = sidecar.parent_beacon_block_root().map(|root| root.0);
    PayloadParts { v3, versioned_hashes, parent_beacon_block_root: root }
}

/// A hash as JSON.
pub open spec fn hash_tree(hash: B256) -> JsonTree {
    JsonTree::Text(seq!['0', 'x'] + text::hex_digits(hash@))
}

/// A hash as JSON.
fn hash_value(hash: &B256) -> (r: Value)
    ensures
        json::json_tree(r) == hash_tree(*hash),
{
    string(hex_bytes(hash.as_slice()))
}

/// A list of hashes as JSON.
fn hash_list(hashes: &Vec<B256>) -> (r: Value)
    ensures
        json::json_tree(r) == JsonTree::Array(hashes@.map_values(|hash: B256| hash_tree(hash))),
{
    let ghost tree_of = |hash: B256| hash_tree(hash);
    let mut items: Vec<Value> = Vec::new();
    let mut i: usize = 0;
    assert(json::json_trees(items@) =~= hashes@.take(0).map_values(tree_of));
    while i < hashes.len()
        invariant
            i <= hashes.len(),
            tree_of == (|hash: B256| hash_tree(hash)),
            json::json_trees(items@) == hashes@.take(i as int).map_values(tree_of),
        decreases hashes.len() - i,
    {
        let ghost before = items@;
        let item = hash_value(&hashes[i]);
        items.push(item);
        i += 1;
        proof {
            assert(json::json_trees(items@) =~= json::json_trees(before).push(
                hash_tree(hashes@[i - 1]),
            ));
            assert(hashes@.take(i as int).map_values(tree_of) =~= hashes@.take(i - 1).map_values(
                tree_of,
            ).push(hash_tree(hashes@[i - 1])));
        }
    }
    assert(hashes@.take(hashes@.len() as int) =~= hashes@);
    array(items)
}

/// The parameters of `engine_newPayloadV4`: the payload, the versioned hashes, the parent beacon
/// block root, and the requests hash in place of the requests.
pub open spec fn new_payload_params(payload: PayloadView, requests_hash: B256) -> JsonTree {
    let hashes = match payload.versioned_hashes {
        Some(hashes) => hashes,
        None => Seq::empty(),
    };
    JsonTree::Array(
        seq![
            payload.v3->0,
            JsonTree::Array(hashes.map_values(|hash: B256| hash_tree(hash))),
            hash_tree(payload.parent_beacon_block_root->0),
            hash_tree(requests_hash),
        ],
    )
}

/// The parameters of `engine_forkchoiceUpdatedV3`: the block as head, safe and finalized block, and
/// no attributes for a next one.
pub open spec fn forkchoice_params(hash: B256) -> JsonTree {
    JsonTree::Array(
        seq![
            JsonTree::Object(
                Map::<Seq<char>, JsonTree>::empty().insert(
                    "headBlockHash"@,
                    hash_tree(hash),
                ).insert("safeBlockHash"@, hash_tree(hash)).insert(
                    "finalizedBlockHash"@,
                    hash_tree(hash),
                ),
            ),
            JsonTree::Null,
        ],
    )
}

/// The parameters of `debug_executionWitness`: the number of the block, in hexadecimal.
pub open spec fn witness_params(number: u64) -> JsonTree {
    JsonTree::Array(
        seq![JsonTree::Text(seq!['0', 'x'] + text::numeral(number as nat, 16))],
    )
}

/// What is known of a block that is driven through the node.
#[derive(Clone, Copy, Debug, PartialEq, Eq)]
pub struct Driven {
    /// Its number.
    pub number: u64,
    /// Its hash.
    pub hash: B256,
    /// The gas it used.
    pub gas_used: u64,
    /// How many transactions it holds.
    pub tx_count: usize,
}

/// A block that is to be submitted.
#[derive(Debug)]
pub struct NewPayload {
    block: Driven,
    params: Value,
}

impl NewPayload {
    /// The block.
    pub closed spec fn block(self) -> Driven {
        self.block
    }

    /// The parameters of the call.
    pub closed spec fn params(self) -> JsonTree {
        json::json_tree(self.params)
    }

    /// Prepares a block for submission.
    ///
    /// Fails on the first of these that the block lacks: a requests hash, a payload of the third
    /// version, a parent beacon block root.
    pub fn prepare(block: &LoadedBlock) -> (r: Result<NewPayload, EngineError>)
        ensures
            ({
                let parts = block.contents();
                let payload = block_payload(parts);
                &&& r is Ok <==> parts.requests_hash is Some && payload.v3 is Some
                    && payload.parent_beacon_block_root is Some
                &&& r is Ok ==> {
                    &&& r->Ok_0.block() == (Driven {
                        number: parts.number,
                        hash: block.hash(),
                        gas_used: parts.gas_used,
                        tx_count: parts.transactions.len() as usize,
                    })
                    &&& r->Ok_0.params() == new_payload_params(payload, parts.requests_hash->0)
                    &&& r->Ok_0.params() is Array
                    &&& ({
                        let items = r->Ok_0.params()->Array_0;
                        let list = items[1]->Array_0;
                        &&& items.len() == 4
                        &&& items[0] == payload.v3->0
                        &&& items[1] is Array
                        &&& payload.versioned_hashes is None ==> list.len() == 0
                        &&& payload.versioned_hashes is Some ==> list.len()
                            == payload.versioned_hashes->0.len()
                        &&& payload.versioned_hashes is Some ==> forall|i: int|
                            0 <= i < list.len() ==> #[trigger] list[i] == JsonTree::Text(
                                seq!['0', 'x'] + text::hex_digits(payload.versioned_hashes->0[i]@),
                            )
                        &&& items[2] == JsonTree::Text(
                            seq!['0', 'x'] + text::hex_digits(payload.parent_beacon_block_root->0@),
                        )
                        &&& items[3] == JsonTree::Text(
                            seq!['0', 'x'] + text::hex_digits(parts.requests_hash->0@),
                        )
                    })
                }
                &&& parts.requests_hash is None ==> r->Err_0 == (EngineError::NoRequestsHash {
                    number: parts.number,
                })
                &&& parts.requests_hash is Some && payload.v3 is None ==> r->Err_0 == (
                EngineError::NotV3 { number: parts.number })
                &&& parts.requests_hash is Some && payload.v3 is Some
                    && payload.parent_beacon_block_root is None ==> r->Err_0 == (
                EngineError::NoBeaconRoot { number: parts.number })
            }),
    {
        let facts = block.facts();
        let driven = Driven {
            number: block.number(),
            hash: facts.hash,
            gas_used: facts.gas_used,
            tx_count: facts.tx_count,
        };
        let number = driven.number;
        let requests_hash = match block.requests_hash() {
            Some(requests_hash) => requests_hash,
            None => return Err(EngineError::NoRequestsHash { number }),
        };
        let payload = execution_payload(block.block());
        let ghost view = payload@;
        let PayloadParts { v3, versioned_hashes, parent_beacon_block_root } = payload;
        let v3 = match v3 {
            Some(v3) => v3,
            None => return Err(EngineError::NotV3 { number }),
        };
        let hashes = match versioned_hashes {
            Some(hashes) => hashes,
            None => Vec::new(),
        };
        let root = match parent_beacon_block_root {
            Some(root) => root,
            None => return Err(EngineError::NoBeaconRoot { number }),
        };
        let mut params: Vec<Value> = Vec::new();
        params.push(v3);
        params.push(hash_list(&hashes));
        params.push(hash_value(&root));
        params.push(hash_value(&requests_hash));
        let ghost trees = json::json_trees(params@);
        let params = array(params);
        proof {
            let expected = new_payload_params(view, requests_hash)->Array_0;
            assert(trees =~= expected);
        }
        Ok(NewPayload { block: driven, params })
    }

    /// The request that submits the block.
    pub fn request(&self) -> (r: Value)
        ensures
            json::json_tree(r) == request_tree(Method::NewPayload, self.params()),
    {
        request(Method::NewPayload, copy(&self.params))
    }

    /// Takes the response, and the time the call took. Goes on only where the node holds the block
    /// to be valid.
    pub fn answered(self, response: Value, elapsed: Duration) -> (r: Result<
        ForkchoiceUpdate,
        EngineError,
    >)
        ensures
            ({
                let tree = json::json_tree(response);
                let error = json::member(tree, "error"@);
                let result = json::member(tree, "result"@);
                let status = status_text(json::member(result->0, "status"@));
                &&& r is Ok <==> error is None && result is Some && status == Some("VALID"@)
                &&& r is Ok ==> r->Ok_0.block() == self.block() && r->Ok_0.new_payload() == elapsed
                &&& error is Some || result is None ==> rpc_fails(
                    r->Err_0,
                    Method::NewPayload,
                    response,
                )
                &&& error is None && result is Some && status != Some("VALID"@) ==> reports_status(
                    r->Err_0,
                    Method::NewPayload,
                    self.block().number,
                    status,
                    result->0,
                )
            }),
    {
        let NewPayload { block, params: _ } = self;
        let result = match rpc(Method::NewPayload, response) {
            Ok(result) => result,
            Err(error) => return Err(error),
        };
        let status = match get(&result, "status") {
            Some(status) => status.as_str(),
            None => None,
        };
        match check_status(status) {
            Ok(()) => Ok(ForkchoiceUpdate { block, new_payload: elapsed }),
            Err(status) => Err(
                EngineError::NotValid {
                    method: Method::NewPayload,
                    number: block.number,
                    status,
                    result,
                },
            ),
        }
    }
}

/// The text of a status, where there is one and it is a text.
pub open spec fn status_text(status: Option<JsonTree>) -> Option<Seq<char>> {
    match status {
        Some(status) => json::text_in(status),
        None => None,
    }
}

/// Whether an error says that the node does not hold a block to be valid, and what it said.
pub open spec fn reports_status(
    error: EngineError,
    method: Method,
    number: u64,
    status: Option<Seq<char>>,
    result: JsonTree,
) -> bool {
    &&& error matches EngineError::NotValid { method: m, number: n, status: s, result: given }
    &&& m == method
    &&& n == number
    &&& s is Some <==> status is Some
    &&& s is Some ==> s->0@ == status->0
    &&& json::json_tree(given) == result
}

/// Whether a status is `VALID`; the status as an error where it is not.
fn check_status(status: Option<&str>) -> (r: Result<(), Option<String>>)
    ensures
        r is Ok <==> status is Some && status->0@ == "VALID"@,
        r is Err ==> (r->Err_0 is Some <==> status is Some),
        r is Err && status is Some ==> r->Err_0->0@ == status->0@,
{
    match status {
        Some(status) => {
            if same_text(status, "VALID") {
                Ok(())
            } else {
                Err(Some(String::from_str(status)))
            }
        },
        None => Err(None),
    }
}

/// A block that the node holds to be valid, and that is to become the head.
#[derive(Debug)]
pub struct ForkchoiceUpdate {
    block: Driven,
    new_payload: Duration,
}

impl ForkchoiceUpdate {
    /// The block.
    pub closed spec fn block(self) -> Driven {
        self.block
    }

    /// The time it took to submit the block.
    pub closed spec fn new_payload(self) -> Duration {
        self.new_payload
    }

    /// The request that makes the block the head.
    pub fn request(&self) -> (r: Value)
        ensures
            json::json_tree(r) == request_tree(
                Method::ForkchoiceUpdated,
                forkchoice_params(self.block().hash),
            ),
    {
        let hash = self.block.hash;
        let state = object();
        let state = with_member(state, "headBlockHash", hash_value(&hash));
        let state = with_member(state, "safeBlockHash", hash_value(&hash));
        let state = with_member(state, "finalizedBlockHash", hash_value(&hash));
        let mut params: Vec<Value> = Vec::new();
        params.push(state);
        params.push(null());
        let ghost trees = json::json_trees(params@);
        proof {
            let expected = forkchoice_params(hash)->Array_0;
            assert(trees =~= expected);
        }
        request(Method::ForkchoiceUpdated, array(params))
    }

    /// Takes the response, and the time the call took. Goes on only where the node holds the block
    /// to be valid.
    pub fn answered(self, response: Value, elapsed: Duration, options: &EngineOptions) -> (r: Result<
        WitnessCalls,
        EngineError,
    >)
        ensures
            ({
                let tree = json::json_tree(response);
                let error = json::member(tree, "error"@);
                let result = json::member(tree, "result"@);
                let payload_status = json::member(result->0, "payloadStatus"@);
                let status = match payload_status {
                    Some(payload_status) => status_text(json::member(payload_status, "status"@)),
                    None => None,
                };
                &&& r is Ok <==> error is None && result is Some && status == Some("VALID"@)
                &&& r is Ok ==> {
                    &&& r->Ok_0.wf()
                    &&& r->Ok_0.block() == self.block()
                    &&& r->Ok_0.new_payload() == self.new_payload()
                    &&& r->Ok_0.forkchoice() == elapsed
                    &&& r->Ok_0.calls() == options.calls()
                    &&& r->Ok_0.times().len() == 0
                    &&& r->Ok_0.shape() is None
                }
                &&& error is Some || result is None ==> rpc_fails(
                    r->Err_0,
                    Method::ForkchoiceUpdated,
                    response,
                )
                &&& error is None && result is Some && status != Some("VALID"@) ==> reports_status(
                    r->Err_0,
                    Method::ForkchoiceUpdated,
                    self.block().number,
                    status,
                    result->0,
                )
            }),
    {
        let ForkchoiceUpdate { block, new_payload } = self;
        let result = match rpc(Method::ForkchoiceUpdated, response) {
            Ok(result) => result,
            Err(error) => return Err(error),
        };
        let status = match get(&result, "payloadStatus") {
            Some(payload_status) => match get(payload_status, "status") {
                Some(status) => status.as_str(),
                None => None,
            },
            None => None,
        };
        let calls = if options.skip_witness {
            0
        } else {
            options.witness_repeat
        };
        match check_status(status) {
            Ok(()) => Ok(
                WitnessCalls {
                    block,
                    new_payload,
                    forkchoice: elapsed,
                    calls,
                    times: Vec::new(),
                    shape: None,
                },
            ),
            Err(status) => Err(
                EngineError::NotValid {
                    method: Method::ForkchoiceUpdated,
                    number: block.number,
                    status,
                    result,
                },
            ),
        }
    }
}

/// How much of each kind a witness holds.
#[derive(Clone, Copy, Debug, PartialEq, Eq, Structural)]
pub struct WitnessShape {
    /// Trie nodes.
    pub nodes: usize,
    /// The bytes those come to.
    pub state_bytes: u128,
    /// Codes.
    pub codes: usize,
    /// The bytes those come to.
    pub codes_bytes: u128,
    /// Keys.
    pub keys: usize,
    /// Headers.
    pub headers: usize,
}

/// The items of an array member of a witness, none where there is no such array.
pub open spec fn witness_items(witness: JsonTree, name: Seq<char>) -> Seq<JsonTree> {
    match json::member(witness, name) {
        Some(value) => match json::items_in(value) {
            Some(items) => items,
            None => Seq::empty(),
        },
        None => Seq::empty(),
    }
}

/// How many bytes a hexadecimal string stands for: two characters each after `0x`. A value that is
/// no string stands for none.
pub open spec fn hex_size(value: JsonTree) -> nat {
    match json::text_in(value) {
        Some(text) => {
            let len = utf8::encode_utf8(text).len();
            if len >= 2 {
                ((len - 2) / 2) as nat
            } else {
                0
            }
        },
        None => 0,
    }
}

/// How many bytes a list of hexadecimal strings stands for.
pub open spec fn hex_total(items: Seq<JsonTree>) -> nat
    decreases items.len(),
{
    if items.len() == 0 {
        0
    } else {
        hex_total(items.drop_last()) + hex_size(items.last())
    }
}

/// Whether a shape is that of a witness.
pub open spec fn is_shape(shape: WitnessShape, witness: JsonTree) -> bool {
    &&& shape.nodes == witness_items(witness, "state"@).len()
    &&& shape.state_bytes == hex_total(witness_items(witness, "state"@))
    &&& shape.codes == witness_items(witness, "codes"@).len()
    &&& shape.codes_bytes == hex_total(witness_items(witness, "codes"@))
    &&& shape.keys == witness_items(witness, "keys"@).len()
    &&& shape.headers == witness_items(witness, "headers"@).len()
}

/// How many bytes a hexadecimal string stands for.
fn count_hex(value: &Value) -> (r: usize)
    ensures
        r == hex_size(json::json_tree(*value)),
{
    match value.as_str() {
        Some(text) => text.as_bytes().len().saturating_sub(2) / 2,
        None => 0,
    }
}

/// How many items an array member of a witness holds, and how many bytes they stand for.
fn count_items(witness: &Value, name: &str) -> (r: (usize, u128))
    ensures
        r.0 == witness_items(json::json_tree(*witness), name@).len(),
        r.1 == hex_total(witness_items(json::json_tree(*witness), name@)),
{
    let items = match get(witness, name) {
        Some(value) => match value.as_array() {
            Some(items) => items,
            None => return (0, 0),
        },
        None => return (0, 0),
    };
    let ghost trees = json::json_trees(items@);
    let mut sum: u128 = 0;
    let mut i: usize = 0;
    while i < items.len()
        invariant
            i <= items.len(),
            trees == json::json_trees(items@),
            sum == hex_total(trees.take(i as int)),
            sum <= i * 0xffff_ffff_ffff_ffff,
        decreases items.len() - i,
    {
        proof {
            assert(trees.take(i + 1).drop_last() =~= trees.take(i as int));
            assert(trees.take(i + 1).last() == json::json_tree(items@[i as int]));
            assert((i + 1) * 0xffff_ffff_ffff_ffff == i * 0xffff_ffff_ffff_ffff
                + 0xffff_ffff_ffff_ffff && (i + 1) * 0xffff_ffff_ffff_ffff <= u128::MAX)
                by (nonlinear_arith)
                requires
                    i + 1 <= 0xffff_ffff_ffff_ffff,
            ;
        }
        sum = sum + count_hex(&items[i]) as u128;
        i += 1;
    }
    assert(trees.take(trees.len() as int) =~= trees);
    (items.len(), sum)
}

/// The shape of a witness, out of the result of the call that generated it.
pub fn measure_shape(witness: &Value) -> (r: WitnessShape)
    ensures
        is_shape(r, json::json_tree(*witness)),
{
    let (nodes, state_bytes) = count_items(witness, "state");
    let (codes, codes_bytes) = count_items(witness, "codes");
    let (keys, _) = count_items(witness, "keys");
    let (headers, _) = count_items(witness, "headers");
    WitnessShape { nodes, state_bytes, codes, codes_bytes, keys, headers }
}

/// A block that is the head, and whose witness is asked for.
#[derive(Debug)]
pub struct WitnessCalls {
    block: Driven,
    new_payload: Duration,
    forkchoice: Duration,
    calls: u32,
    times: Vec<Duration>,
    shape: Option<WitnessShape>,
}

/// What was measured of one block.
#[derive(Debug)]
pub struct EngineRow {
    /// The block.
    pub block: Driven,
    /// The time it took to submit the block.
    pub t_new_payload: Duration,
    /// The time it took to make it the head.
    pub t_fcu: Duration,
    /// The time of the first witness call, which is cold.
    pub t_witness: Option<Duration>,
    /// The time of each witness call.
    pub t_witness_iters: Vec<Duration>,
    /// The time of the shortest call after the first. The gap between the two is the part of the
    /// cost that was faulting data in rather than computing.
    pub t_witness_warm: Option<Duration>,
    /// The shape of the witness that the first call gave.
    pub witness: Option<WitnessShape>,
}

impl WitnessCalls {
    /// The block.
    pub closed spec fn block(self) -> Driven {
        self.block
    }

    /// The time it took to submit the block.
    pub closed spec fn new_payload(self) -> Duration {
        self.new_payload
    }

    /// The time it took to make it the head.
    pub closed spec fn forkchoice(self) -> Duration {
        self.forkchoice
    }

    /// How many calls are to be made.
    pub closed spec fn calls(self) -> u32 {
        self.calls
    }

    /// The times of the calls made so far.
    pub closed spec fn times(self) -> Seq<Duration> {
        self.times@
    }

    /// The shape of the witness that the first call gave.
    pub closed spec fn shape(self) -> Option<WitnessShape> {
        self.shape
    }

    /// Whether no more calls were made than are to be, and the shape is known once the first was.
    pub open spec fn wf(self) -> bool {
        &&& self.times().len() <= self.calls()
        &&& self.shape() is Some <==> self.times().len() > 0
    }

    /// The next request for the witness, if a call is left.
    pub fn next_request(&self) -> (r: Option<Value>)
        ensures
            r is Some <==> self.times().len() < self.calls(),
            r is Some ==> json::json_tree(r->0) == request_tree(
                Method::ExecutionWitness,
                witness_params(self.block().number),
            ),
    {
        if self.times.len() as u64 >= self.calls as u64 {
            return None;
        }
        let mut params: Vec<Value> = Vec::new();
        params.push(string(hex_quantity(self.block.number)));
        let ghost trees = json::json_trees(params@);
        proof {
            let expected = witness_params(self.block.number)->Array_0;
            assert(trees =~= expected);
        }
        Some(request(Method::ExecutionWitness, array(params)))
    }

    /// Takes the response to that request, and the time the call took. The shape is taken from the
    /// first witness only.
    pub fn answered(&mut self, response: Value, elapsed: Duration) -> (r: Result<(), EngineError>)
        requires
            old(self).wf(),
            old(self).times().len() < old(self).calls(),
        ensures
            ({
                let tree = json::json_tree(response);
                let error = json::member(tree, "error"@);
                let result = json::member(tree, "result"@);
                &&& r is Ok <==> error is None && result is Some
                &&& error is Some || result is None ==> rpc_fails(
                    r->Err_0,
                    Method::ExecutionWitness,
                    response,
                )
                &&& r is Err ==> *final(self) == *old(self)
                &&& r is Ok ==> {
                    &&& final(self).times() == old(self).times().push(elapsed)
                    &&& final(self).shape() is Some
                    &&& old(self).times().len() == 0 ==> is_shape(
                        final(self).shape()->0,
                        result->0,
                    )
                    &&& old(self).times().len() > 0 ==> final(self).shape() == old(self).shape()
                }
            }),
            final(self).wf(),
            final(self).block() == old(self).block(),
            final(self).new_payload() == old(self).new_payload(),
            final(self).forkchoice() == old(self).forkchoice(),
            final(self).calls() == old(self).calls(),
    {
        let witness = match rpc(Method::ExecutionWitness, response) {
            Ok(witness) => witness,
            Err(error) => return Err(error),
        };
        if self.times.len() == 0 {
            self.shape = Some(measure_shape(&witness));
        }
        self.times.push(elapsed);
        Ok(())
    }

    /// What was measured of the block.
    pub fn finish(self) -> (r: EngineRow)
        ensures
            r.block == self.block(),
            r.t_new_payload == self.new_payload(),
            r.t_fcu == self.forkchoice(),
            r.t_witness == (if self.times().len() > 0 {
                Some(self.times()[0])
            } else {
                None
            }),
            r.t_witness_iters@ == self.times(),
            r.t_witness_warm is None <==> self.times().len() <= 1,
            r.t_witness_warm is Some ==> clock::is_shortest(
                self.times().skip(1),
                r.t_witness_warm->0,
            ),
            r.witness == self.shape(),
    {
        let WitnessCalls { block, new_payload, forkchoice, calls: _, times, shape } = self;
        let t_witness = if times.len() > 0 {
            Some(times[0])
        } else {
            None
        };
        let t_witness_warm = shortest_after_first(&times);
        EngineRow {
            block,
            t_new_payload: new_payload,
            t_fcu: forkchoice,
            t_witness,
            t_witness_iters: times,
            t_witness_warm,
            witness: shape,
        }
    }
}

/// What a submission hands over, in this order: the payload; every versioned hash of its blobs, in
/// their order and none besides; the root of the parent beacon block; and the requests hash. Each hash
/// is a string of `0x` and its bytes in hexadecimal.
pub proof fn a_submission_carries_every_versioned_hash(payload: PayloadView, requests_hash: B256)
    requires
        payload.v3 is Some,
        payload.parent_beacon_block_root is Some,
    ensures
        new_payload_params(payload, requests_hash) matches JsonTree::Array(items) && {
            &&& items.len() == 4
            &&& items[0] == payload.v3->0
            &&& items[1] matches JsonTree::Array(list) && {
                &&& payload.versioned_hashes is None ==> list.len() == 0
                &&& payload.versioned_hashes is Some ==> {
                    let hashes = payload.versioned_hashes->0;
                    &&& list.len() == hashes.len()
                    &&& forall|i: int|
                        0 <= i < hashes.len() ==> #[trigger] list[i] == JsonTree::Text(
                            seq!['0', 'x'] + text::hex_digits(hashes[i]@),
                        )
                }
            }
            &&& items[2] == JsonTree::Text(
                seq!['0', 'x'] + text::hex_digits(payload.parent_beacon_block_root->0@),
            )
            &&& items[3] == JsonTree::Text(seq!['0', 'x'] + text::hex_digits(requests_hash@))
        },
{
}

/// Two blocks that are submitted alike have the same payload, root and requests hash and the same
/// versioned hashes: nothing of them is lost on the way.
pub proof fn different_blocks_are_submitted_differently(
    a: PayloadView,
    b: PayloadView,
    requests_a: B256,
    requests_b: B256,
)
    requires
        a.v3 is Some,
        b.v3 is Some,
        a.parent_beacon_block_root is Some,
        b.parent_beacon_block_root is Some,
        a.versioned_hashes is Some,
        b.versioned_hashes is Some,
        new_payload_params(a, requests_a) == new_payload_params(b, requests_b),
    ensures
        a.v3 == b.v3,
        a.versioned_hashes->0.len() == b.versioned_hashes->0.len(),
        forall|i: int|
            0 <= i < a.versioned_hashes->0.len() ==> (#[trigger] a.versioned_hashes->0[i])@
                == b.versioned_hashes->0[i]@,
        a.parent_beacon_block_root->0@ == b.parent_beacon_block_root->0@,
        requests_a@ == requests_b@,
{
    let left = new_payload_params(a, requests_a)->Array_0;
    let right = new_payload_params(b, requests_b)->Array_0;
    lemma_hash_texts(left[2], a.parent_beacon_block_root->0, b.parent_beacon_block_root->0);
    lemma_hash_texts(left[3], requests_a, requests_b);
    let hashes_a = a.versioned_hashes->0;
    let hashes_b = b.versioned_hashes->0;
    let list_a = left[1]->Array_0;
    let list_b = right[1]->Array_0;
    assert(list_a.len() == hashes_a.len() && list_b.len() == hashes_b.len());
    assert forall|i: int| 0 <= i < hashes_a.len() implies (#[trigger] hashes_a[i])@ == hashes_b[i]@ by {
        assert(list_a[i] == hash_tree(hashes_a[i]));
        assert(list_b[i] == hash_tree(hashes_b[i]));
        lemma_hash_texts(list_a[i], hashes_a[i], hashes_b[i]);
    }
}

/// Two hashes that are written alike are the same.
proof fn lemma_hash_texts(tree: JsonTree, a: B256, b: B256)
    requires
        tree == hash_tree(a),
        tree == hash_tree(b),
    ensures
        a@ == b@,
{
    let prefix = seq!['0', 'x'];
    assert((prefix + text::hex_digits(a@)).skip(2) =~= text::hex_digits(a@));
    assert((prefix + text::hex_digits(b@)).skip(2) =~= text::hex_digits(b@));
    text::different_bytes_are_spelled_differently(a@, b@);
}

/// A block becomes the head, the safe block and the finalized block at once, and no next block is
/// asked for.
pub proof fn a_block_becomes_head_safe_and_finalized(hash: B256)
    ensures
        forkchoice_params(hash) matches JsonTree::Array(items) && {
            let text = JsonTree::Text(seq!['0', 'x'] + text::hex_digits(hash@));
            &&& items.len() == 2
            &&& items[1] == JsonTree::Null
            &&& items[0] matches JsonTree::Object(members) && {
                &&& members.dom() == set![
                    "headBlockHash"@,
                    "safeBlockHash"@,
                    "finalizedBlockHash"@,
                ]
                &&& members["headBlockHash"@] == text
                &&& members["safeBlockHash"@] == text
                &&& members["finalizedBlockHash"@] == text
            }
        },
{
    let members = forkchoice_params(hash)->Array_0[0]->Object_0;
    assert(members.dom() =~= set!["headBlockHash"@, "safeBlockHash"@, "finalizedBlockHash"@]);
}

/// A witness is asked for by the number of its block, as one hexadecimal string.
pub proof fn a_witness_is_asked_for_by_number(number: u64)
    ensures
        witness_params(number) matches JsonTree::Array(items) && {
            &&& items.len() == 1
            &&& items[0] == JsonTree::Text(seq!['0', 'x'] + text::numeral(number as nat, 16))
        },
{
}

/// A request names the version of the protocol, the method and its parameters, and carries the number
/// one.
pub proof fn a_request_names_its_method(method: Method, params: JsonTree)
    ensures
        request_tree(method, params) matches JsonTree::Object(members) && {
            &&& members.dom() == set!["jsonrpc"@, "id"@, "method"@, "params"@]
            &&& members["jsonrpc"@] == JsonTree::Text("2.0"@)
            &&& members["id"@] == JsonTree::Number(seq!['1'])
            &&& members["method"@] == JsonTree::Text(
                match method {
                    Method::NewPayload => "engine_newPayloadV4"@,
                    Method::ForkchoiceUpdated => "engine_forkchoiceUpdatedV3"@,
                    Method::ExecutionWitness => "debug_executionWitness"@,
                },
            )
            &&& members["params"@] == params
        },
{
    reveal_strlit("jsonrpc");
    reveal_strlit("id");
    reveal_strlit("method");
    reveal_strlit("params");
    assert("method"@[0] == 'm' && "params"@[0] == 'p');
    assert("jsonrpc"@.len() == 7 && "id"@.len() == 2 && "method"@.len() == 6);
    let members = request_tree(method, params)->Object_0;
    assert(members.dom() =~= set!["jsonrpc"@, "id"@, "method"@, "params"@]);
    text::numerals_are_digits(1, 10);
    assert(text::numeral(1, 10) =~= seq!['1']);
}

/// A drive without a last block submits the first alone, and one that skips witnesses asks for none.
pub proof fn a_drive_goes_by_its_options(options: EngineOptions)
    ensures
        options.to is Some ==> options.last() == options.to->0,
        options.to is None ==> options.last() == options.from,
        options.skip_witness ==> options.calls() == 0,
        !options.skip_witness ==> options.calls() == options.witness_repeat,
{
}

/// A call whose response has an error fails with that error, whatever else the response holds; one that
/// has neither an error nor a result fails with the response.
pub proof fn a_failed_call_tells_why(failure: EngineError, method: Method, response: Value)
    requires
        rpc_fails(failure, method, response),
    ensures
        ({
            let error = json::member(json::json_tree(response), "error"@);
            &&& error is Some ==> (failure matches EngineError::Returned { method: m, error: e } && m
                == method && json::json_tree(e) == error->0)
            &&& error is None ==> (failure matches EngineError::NoResult { method: m, response: given }
                && m == method && given == response)
        }),
{
}

/// A block that the node turns down is reported with its number, the method, the status and the whole
/// result.
pub proof fn a_refused_block_is_reported(
    error: EngineError,
    method: Method,
    number: u64,
    status: Option<Seq<char>>,
    result: JsonTree,
)
    requires
        reports_status(error, method, number, status, result),
    ensures
        error matches EngineError::NotValid { method: m, number: n, status: s, result: given } && {
            &&& m == method
            &&& n == number
            &&& status is None ==> s is None
            &&& status is Some ==> s is Some && s->0@ == status->0
            &&& json::json_tree(given) == result
        },
{
}

/// A status counts only where it is a text.
pub proof fn only_a_text_is_a_status(status: Option<JsonTree>)
    ensures
        status_text(status) is Some <==> status is Some && status->0 is Text,
        status_text(status) is Some ==> status_text(status)->0 == status->0->Text_0,
{
}

/// The shape of a witness counts the items of its four arrays, and the bytes of the first two.
pub proof fn a_shape_counts_each_array(shape: WitnessShape, members: Map<Seq<char>, JsonTree>)
    requires
        is_shape(shape, JsonTree::Object(members)),
    ensures
        members.contains_key("state"@) && members["state"@] is Array ==> shape.nodes
            == members["state"@]->Array_0.len() && shape.state_bytes == hex_total(
            members["state"@]->Array_0,
        ),
        members.contains_key("codes"@) && members["codes"@] is Array ==> shape.codes
            == members["codes"@]->Array_0.len() && shape.codes_bytes == hex_total(
            members["codes"@]->Array_0,
        ),
        members.contains_key("keys"@) && members["keys"@] is Array ==> shape.keys
            == members["keys"@]->Array_0.len(),
        members.contains_key("headers"@) && members["headers"@] is Array ==> shape.headers
            == members["headers"@]->Array_0.len(),
        !members.contains_key("state"@) || !(members["state"@] is Array) ==> shape.nodes == 0
            && shape.state_bytes == 0,
        !members.contains_key("codes"@) || !(members["codes"@] is Array) ==> shape.codes == 0
            && shape.codes_bytes == 0,
        !members.contains_key("keys"@) || !(members["keys"@] is Array) ==> shape.keys == 0,
        !members.contains_key("headers"@) || !(members["headers"@] is Array) ==> shape.headers == 0,
{
}

/// A list of byte strings comes to the sum of their bytes, and one written as `0x` and two digits for
/// each byte counts as those bytes.
pub proof fn hexadecimal_bytes_are_counted(items: Seq<JsonTree>, bytes: Seq<u8>)
    ensures
        hex_total(Seq::<JsonTree>::empty()) == 0,
        hex_total(items.push(JsonTree::Text(seq!['0', 'x'] + text::hex_digits(bytes)))) == hex_total(
            items,
        ) + bytes.len(),
        hex_total(items.push(JsonTree::Null)) == hex_total(items),
{
    let text = seq!['0', 'x'] + text::hex_digits(bytes);
    assert(items.push(JsonTree::Text(text)).drop_last() =~= items);
    assert(items.push(JsonTree::Null).drop_last() =~= items);
    text::hexadecimal_is_ascii(bytes);
    assert forall|i: int| 0 <= i < text.len() implies '\0' <= #[trigger] text[i] <= '\u{7f}' by {
        if i >= 2 {
            assert(text[i] == text::hex_digits(bytes)[i - 2]);
        }
    }
    assert(utf8::is_ascii_chars(text));
    utf8::is_ascii_chars_encode_utf8(text);
}

/// What the parts of a payload are seen as is each of them under its own name.
pub proof fn a_payload_is_seen_part_by_part(parts: PayloadParts)
    ensures
        parts@.v3 is Some <==> parts.v3 is Some,
        parts.v3 is Some ==> parts@.v3->0 == json::json_tree(parts.v3->0),
        parts@.versioned_hashes is Some <==> parts.versioned_hashes is Some,
        parts.versioned_hashes is Some ==> parts@.versioned_hashes->0 == parts.versioned_hashes->0@,
        parts@.parent_beacon_block_root == parts.parent_beacon_block_root,
{
}

/// A block goes on through the node only where each call says that it is valid; it keeps its number,
/// hash, gas and count of transactions on the way, and each call its own time. Then as many witness
/// calls are made as were asked for, none where they are skipped.
pub proof fn a_valid_block_goes_on_unchanged(
    submission: NewPayload,
    submitted: Value,
    first: Duration,
    update: ForkchoiceUpdate,
    updated: Value,
    second: Duration,
    options: EngineOptions,
    calls: WitnessCalls,
)
    requires
        call_ensures(NewPayload::answered, (submission, submitted, first), Ok(update)),
        call_ensures(
            ForkchoiceUpdate::answered,
            (update, updated, second, &options),
            Ok(calls),
        ),
    ensures
        calls.block() == submission.block(),
        calls.new_payload() == first,
        calls.forkchoice() == second,
        calls.times().len() == 0,
        options.skip_witness ==> calls.calls() == 0,
        !options.skip_witness ==> calls.calls() == options.witness_repeat,
        ({
            let submitted = json::json_tree(submitted);
            let updated = json::json_tree(updated);
            let status = json::member(json::member(submitted, "result"@)->0, "status"@);
            let outer = json::member(json::member(updated, "result"@)->0, "payloadStatus"@);
            &&& json::member(submitted, "error"@) is None
            &&& json::member(submitted, "result"@) is Some
            &&& status == Some(JsonTree::Text("VALID"@))
            &&& json::member(updated, "error"@) is None
            &&& json::member(updated, "result"@) is Some
            &&& outer is Some
            &&& json::member(outer->0, "status"@) == Some(JsonTree::Text("VALID"@))
        }),
{
}

/// A block is submitted under its own number, hash, gas and count of transactions, by a request that
/// carries its parameters; it is made the head by its own hash.
pub proof fn a_block_is_submitted_as_itself(
    block: LoadedBlock,
    submission: NewPayload,
    request: Value,
    update: ForkchoiceUpdate,
    head: Value,
)
    requires
        call_ensures(NewPayload::prepare, (&block,), Ok(submission)),
        call_ensures(NewPayload::request, (&submission,), request),
        call_ensures(ForkchoiceUpdate::request, (&update,), head),
        update.block() == submission.block(),
    ensures
        submission.block().number == block.contents().number,
        submission.block().hash == block.hash(),
        submission.block().gas_used == block.contents().gas_used,
        json::json_tree(request) == request_tree(Method::NewPayload, submission.params()),
        json::json_tree(request) is Object,
        json::json_tree(head) == request_tree(
            Method::ForkchoiceUpdated,
            forkchoice_params(block.hash()),
        ),
        submission.params() is Array,
        block_payload(block.contents()).versioned_hashes is Some
            ==> submission.params()->Array_0[1]->Array_0.len() == block_payload(
            block.contents(),
        ).versioned_hashes->0.len(),
{
}

/// What was measured of a block is its own, with the times of its calls: the first witness call, every
/// one of them, and the shortest after the first.
pub proof fn a_row_reports_every_call(calls: WitnessCalls, row: EngineRow)
    requires
        call_ensures(WitnessCalls::finish, (calls,), row),
    ensures
        row.block == calls.block(),
        row.t_new_payload == calls.new_payload(),
        row.t_fcu == calls.forkchoice(),
        row.t_witness_iters@ == calls.times(),
        row.t_witness is Some <==> calls.times().len() > 0,
        row.t_witness is Some ==> row.t_witness->0 == calls.times()[0],
        row.t_witness_warm is Some <==> calls.times().len() > 1,
        row.t_witness_warm is Some ==> forall|i: int|
            1 <= i < calls.times().len() ==> row.t_witness_warm->0.nanos <= (
            #[trigger] calls.times()[i]).nanos,
        row.t_witness_warm is Some ==> exists|i: int|
            1 <= i < calls.times().len() && #[trigger] calls.times()[i] == row.t_witness_warm->0,
        row.witness == calls.shape(),
{
    if row.t_witness_warm is Some {
        let rest = calls.times().skip(1);
        let warm = row.t_witness_warm->0;
        clock::the_shortest_span_is_among_them(rest, warm);
        let j = choose|j: int| 0 <= j < rest.len() && #[trigger] rest[j] == warm;
        assert(calls.times()[j + 1] == warm);
        assert forall|i: int| 1 <= i < calls.times().len() implies warm.nanos <= (
        #[trigger] calls.times()[i]).nanos by {
            assert(rest[i - 1] == calls.times()[i]);
        }
    }
}

/// A drive ends with its last block, which must not come before its first, and only the witness calls go
/// to the open port.
pub proof fn a_drive_ends_with_its_last_block(
    options: EngineOptions,
    end: Result<u64, u64>,
    method: Method,
    authenticated: bool,
)
    requires
        call_ensures(EngineOptions::range_end, (&options,), end),
        call_ensures(Method::authenticated, (&method,), authenticated),
    ensures
        ({
            let to = if options.to is Some {
                options.to->0
            } else {
                options.from
            };
            &&& end is Ok <==> to >= options.from
            &&& end is Ok ==> end->Ok_0 == to
            &&& end is Err ==> end->Err_0 == to
        }),
        authenticated <==> method != Method::ExecutionWitness,
{
}

/// Each witness call that succeeds adds its time, and the first one the shape of its witness; one that
/// fails changes nothing. A call is left exactly where fewer were made than are to be.
pub proof fn each_witness_call_adds_its_time(
    calls: &mut WitnessCalls,
    response: Value,
    elapsed: Duration,
    r: Result<(), EngineError>,
)
    requires
        call_ensures(WitnessCalls::answered, (calls, response, elapsed), r),
    ensures
        ({
            let tree = json::json_tree(response);
            &&& r is Ok <==> json::member(tree, "error"@) is None && json::member(
                tree,
                "result"@,
            ) is Some
            &&& r is Err ==> final(calls).times() == old(calls).times() && final(calls).shape()
                == old(calls).shape()
            &&& r is Ok ==> final(calls).times() == old(calls).times().push(elapsed)
            &&& r is Ok && old(calls).times().len() > 0 ==> final(calls).shape() == old(calls).shape()
            &&& r is Ok && old(calls).times().len() == 0 ==> final(calls).shape() is Some && is_shape(
                final(calls).shape()->0,
                json::member(tree, "result"@)->0,
            )
        }),
        final(calls).block() == old(calls).block(),
        final(calls).calls() == old(calls).calls(),
{
}

/// A witness is asked for as long as fewer calls were made than are to be, each time by the number of the
/// block.
pub proof fn witnesses_are_asked_for_as_often_as_wanted(calls: WitnessCalls, request: Option<Value>)
    requires
        call_ensures(WitnessCalls::next_request, (&calls,), request),
    ensures
        request is Some <==> calls.times().len() < calls.calls(),
        request is Some ==> json::json_tree(request->0) == request_tree(
            Method::ExecutionWitness,
            JsonTree::Array(
                seq![
                    JsonTree::Text(seq!['0', 'x'] + text::numeral(calls.block().number as nat, 16)),
                ],
            ),
        ),
{
}

} // verus!
