//! Loading blocks from a directory of block files.
//!
//! Both the replay and the engine driver load blocks here, so that they agree exactly on what a
//! block is and on which checks it passed.

use vstd::prelude::*;
use serde_json::Value;
use crate::bytes::{same_bytes, Address, Bytes, B256};
use crate::hash;
use crate::json;
use crate::json::{copy, get, parse};
use crate::measure::BlockFacts;
use crate::text;
use crate::text::numbered;

verus! {

/// An RLP error.
#[verifier::external_type_specification]
#[verifier::external_body]
pub struct ExRlpError(alloy_rlp::Error);

/// A block.
#[verifier::external_type_specification]
#[verifier::external_body]
#[verifier::reject_recursive_types(T)]
#[verifier::reject_recursive_types(H)]
pub struct ExBlock<T, H>(alloy_consensus::Block<T, H>);

/// A header.
#[verifier::external_type_specification]
#[verifier::external_body]
pub struct ExHeader(alloy_consensus::Header);

/// A transaction of any type.
#[verifier::external_type_specification]
#[verifier::external_body]
#[verifier::reject_recursive_types(Eip4844)]
pub struct ExTxEnvelope<Eip4844>(alloy_consensus::EthereumTxEnvelope<Eip4844>);

/// A blob transaction.
#[verifier::external_type_specification]
#[verifier::external_body]
pub struct ExTxEip4844(alloy_consensus::TxEip4844);

/// An Ethereum block.
pub type EthBlock = alloy_consensus::Block<
    alloy_consensus::EthereumTxEnvelope<alloy_consensus::TxEip4844>,
    alloy_consensus::Header,
>;

/// What a block holds.
pub struct BlockView {
    /// Its number.
    pub number: u64,
    /// The gas it used.
    pub gas_used: u64,
    /// Its state root.
    pub state_root: B256,
    /// The hash of its execution requests, where it has one.
    pub requests_hash: Option<B256>,
    /// Its header, RLP-encoded: what its hash is taken of.
    pub header_rlp: Seq<u8>,
    /// Its header as JSON, which names every field that the header has.
    pub header_json: Seq<char>,
    /// Its transactions, each in its binary form.
    pub transactions: Seq<Seq<u8>>,
    /// Its withdrawals as JSON, where it has any field for them.
    pub withdrawals_json: Option<Seq<char>>,
}

/// What a block holds.
pub uninterp spec fn block_view(block: EthBlock) -> BlockView;

/// The block at the start of RLP-encoded bytes, `None` where there is none.
pub uninterp spec fn rlp_block(bytes: Seq<u8>) -> Option<BlockView>;

/// `Block::decode`, of the Ethereum block of `alloy_consensus`: the block at the start of the bytes.
#[verifier::external_body]
pub(crate) fn decode_rlp(bytes: &[u8]) -> (r: Result<EthBlock, alloy_rlp::Error>)
    ensures
        r is Ok <==> rlp_block(bytes@) is Some,
        r is Ok ==> block_view(r->Ok_0) == rlp_block(bytes@)->0,
{
    let mut rest = bytes;
    alloy_rlp::Decodable::decode(&mut rest)
}

/// The block that an RPC block stands for, and the hash that it reports; `None` where the JSON value
/// is no RPC block.
pub uninterp spec fn rpc_block(tree: json::JsonTree) -> Option<(BlockView, Seq<u8>)>;

/// `serde_json::from_value` into an `alloy_rpc_types_eth::Block`: the block that the JSON value
/// stands for, as a consensus block, and the hash that it reports.
#[verifier::external_body]
pub(crate) fn decode_rpc(value: Value) -> (r: Result<(EthBlock, B256), serde_json::Error>)
    ensures
        r is Ok <==> rpc_block(json::json_tree(value)) is Some,
        r is Ok ==> (block_view(r->Ok_0.0), r->Ok_0.1@) == rpc_block(json::json_tree(value))->0,
{
    let rpc: alloy_rpc_types_eth::Block = serde_json::from_value(value)?;
    let hash = rpc.header.hash.0;
    Ok((rpc.into_consensus().map_transactions(|tx| tx.into_inner().into()), hash))
}

/// What is read of a block.
#[derive(Clone, Copy, Debug, PartialEq, Eq)]
pub struct BlockParts {
    /// Its number.
    pub number: u64,
    /// The gas it used.
    pub gas_used: u64,
    /// Its state root.
    pub state_root: B256,
    /// The hash of its execution requests, where it has one.
    pub requests_hash: Option<B256>,
    /// How many transactions it holds.
    pub tx_count: usize,
}

impl BlockParts {
    /// Whether these are the parts of a block.
    pub open spec fn of(self, block: BlockView) -> bool {
        &&& self.number == block.number
        &&& self.gas_used == block.gas_used
        &&& self.state_root == block.state_root
        &&& self.requests_hash == block.requests_hash
        &&& self.tx_count == block.transactions.len()
    }
}

/// The fields of the header of an `alloy_consensus::Block`, and the length of its list of
/// transactions.
#[verifier::external_body]
pub(crate) fn read_parts(block: &EthBlock) -> (r: BlockParts)
    ensures
        r.of(block_view(*block)),
{
    BlockParts {
        number: block.header.number,
        gas_used: block.header.gas_used,
        state_root: block.header.state_root.0,
        requests_hash: block.header.requests_hash.map(|hash| hash.0),
        tx_count: block.body.transactions.len(),
    }
}

/// The hash of a block: that of its encoded header.
pub open spec fn block_hash(block: BlockView) -> Seq<u8> {
    hash::keccak256_of(block.header_rlp)
}

/// `Header::hash_slow` of `alloy_consensus`: the Keccak-256 digest of the RLP-encoded header.
#[verifier::external_body]
pub(crate) fn hash_slow(block: &EthBlock) -> (r: B256)
    ensures
        r@ == block_hash(block_view(*block)),
{
    block.header.hash_slow().0
}

/// The senders of transactions in their binary form, `None` where a signature does not hold.
pub uninterp spec fn transaction_senders(transactions: Seq<Seq<u8>>) -> Option<Seq<Address>>;

/// `recover_signers` of `reth_primitives_traits`: the senders of the transactions of a block, one for
/// each.
#[verifier::external_body]
pub(crate) fn recover_senders(block: &EthBlock) -> (r: Option<Vec<Address>>)
    ensures
        r is Some <==> transaction_senders(block_view(*block).transactions) is Some,
        r is Some ==> r->0@ == transaction_senders(block_view(*block).transactions)->0,
        r is Some ==> r->0@.len() == block_view(*block).transactions.len(),
{
    let senders = reth_primitives_traits::Block::recover_signers(block).ok()?;
    Some(senders.into_iter().map(|sender| sender.into_array()).collect())
}

/// Why a block cannot be loaded.
#[derive(Debug)]
pub enum LoadError {
    /// There is no file for the block.
    NoFile,
    /// The file is not an RLP-encoded block.
    NotRlp(alloy_rlp::Error),
    /// The file is not JSON.
    NotJson(serde_json::Error),
    /// The file holds a JSON-RPC error.
    RpcError(Value),
    /// The file holds a null result: the node that was asked does not have the block.
    NullResult,
    /// The file is not an RPC block.
    NotRpcBlock(serde_json::Error),
    /// The file holds another block.
    WrongNumber {
        /// The number that was asked for.
        number: u64,
        /// The number of the block in the file.
        holds: u64,
    },
    /// The block does not hash to what the RPC reported: the JSON decoded into a block that is not
    /// the block it claims to be.
    WrongHash {
        /// The number of the block.
        number: u64,
        /// The hash of its header.
        computed: B256,
        /// The hash that the RPC reported.
        reported: B256,
    },
    /// The body does not match the header: the transactions are not those the block commits to.
    BodyMismatch {
        /// The number of the block.
        number: u64,
        /// How it does not match.
        reason: String,
    },
    /// The senders of the transactions could not be recovered.
    NoSenders {
        /// The number of the block.
        number: u64,
    },
}

/// The name of the file that holds a block in RLP.
pub fn rlp_file_name(number: u64) -> (r: String)
    ensures
        r@ == text::numeral(number as nat, 10) + ".rlp"@,
{
    numbered(number, ".rlp")
}

/// The name of the file that holds a block in JSON.
pub fn json_file_name(number: u64) -> (r: String)
    ensures
        r@ == text::numeral(number as nat, 10) + ".json"@,
{
    numbered(number, ".json")
}

/// How a block is kept in a file.
#[derive(Clone, Copy, Debug, PartialEq, Eq, Structural)]
pub enum FileKind {
    /// RLP-encoded.
    Rlp,
    /// As a JSON-RPC response.
    Json,
}

/// Which file a block is read from, given which ones there are: the RLP file where there is one.
pub fn choose_file(rlp_exists: bool, json_exists: bool) -> (r: Result<FileKind, LoadError>)
    ensures
        r is Ok <==> rlp_exists || json_exists,
        r is Ok ==> (r->Ok_0 == FileKind::Rlp <==> rlp_exists),
        r is Err ==> r->Err_0 is NoFile,
{
    if rlp_exists {
        Ok(FileKind::Rlp)
    } else if json_exists {
        Ok(FileKind::Json)
    } else {
        Err(LoadError::NoFile)
    }
}

/// What a JSON-RPC response holds: its `result`, or the whole of it where it has none.
pub open spec fn response_result(response: json::JsonTree) -> json::JsonTree {
    match json::member(response, "result"@) {
        Some(result) => result,
        None => response,
    }
}

/// The block object of an `eth_getBlockByNumber` response.
///
/// Accepts either the whole JSON-RPC envelope or just the object itself. A response with an `error`
/// is turned down whatever else it holds, and so is a null result.
pub fn block_object(response: Value) -> (r: Result<Value, LoadError>)
    ensures
        ({
            let tree = json::json_tree(response);
            let error = json::member(tree, "error"@);
            &&& r is Ok <==> error is None && !(response_result(tree) is Null)
            &&& r is Ok ==> json::json_tree(r->Ok_0) == response_result(tree)
            &&& error is Some ==> (r matches Err(LoadError::RpcError(reported)) && json::json_tree(
                reported,
            ) == error->0)
            &&& error is None && response_result(tree) is Null ==> r is Err && r->Err_0 is NullResult
        }),
{
    if let Some(error) = get(&response, "error") {
        return Err(LoadError::RpcError(copy(error)));
    }
    let result = match get(&response, "result") {
        Some(result) => copy(result),
        None => response,
    };
    if result.is_null() {
        return Err(LoadError::NullResult);
    }
    Ok(result)
}

/// What comes of decoding an `eth_getBlockByNumber` response, where no block does.
pub open spec fn response_fails(raw: Seq<u8>, failure: LoadError) -> bool {
    let response = json::json_spelled(raw);
    match response {
        None => failure is NotJson,
        Some(tree) => match json::member(tree, "error"@) {
            Some(error) => failure matches LoadError::RpcError(reported) && json::json_tree(
                reported,
            ) == error,
            None => if response_result(tree) is Null {
                failure is NullResult
            } else {
                failure is NotRpcBlock
            },
        },
    }
}

/// The block that an `eth_getBlockByNumber` response stands for, and the hash that it reports; `None`
/// where the response is not JSON, holds an error or a null result, or is no block.
pub open spec fn response_block(raw: Seq<u8>) -> Option<(BlockView, Seq<u8>)> {
    match json::json_spelled(raw) {
        None => None,
        Some(tree) => if json::member(tree, "error"@) is Some || response_result(tree) is Null {
            None
        } else {
            rpc_block(response_result(tree))
        },
    }
}

/// Decodes an `eth_getBlockByNumber(.., true)` response into a block and the hash it reports.
pub fn decode_rpc_block(raw: &[u8]) -> (r: Result<(EthBlock, B256), LoadError>)
    ensures
        r is Ok <==> response_block(raw@) is Some,
        r is Ok ==> (block_view(r->Ok_0.0), r->Ok_0.1@) == response_block(raw@)->0,
        r is Err ==> response_fails(raw@, r->Err_0),
{
    let response = match parse(raw) {
        Ok(response) => response,
        Err(error) => return Err(LoadError::NotJson(error)),
    };
    let object = match block_object(response) {
        Ok(object) => object,
        Err(error) => return Err(error),
    };
    match decode_rpc(object) {
        Ok(block) => Ok(block),
        Err(error) => Err(LoadError::NotRpcBlock(error)),
    }
}

/// Checks what was found in the file of block `number`: that it is that block, and that it hashes to
/// what was reported, where anything was. The number comes first.
///
/// The hash proves that the header survived the round trip. It says nothing about the body.
pub fn check_identity(found: u64, computed: B256, reported: Option<B256>, number: u64) -> (r: Result<
    (),
    LoadError,
>)
    ensures
        r is Ok <==> found == number && (reported is Some ==> computed@ == reported->0@),
        found != number ==> r == Err::<(), LoadError>(
            LoadError::WrongNumber { number, holds: found },
        ),
        found == number && r is Err ==> r->Err_0 == (LoadError::WrongHash {
            number,
            computed,
            reported: reported->0,
        }),
{
    if found != number {
        return Err(LoadError::WrongNumber { number, holds: found });
    }
    if let Some(reported) = reported {
        if !same_bytes(computed.as_slice(), reported.as_slice()) {
            return Err(LoadError::WrongHash { number, computed, reported });
        }
    }
    Ok(())
}

/// A block whose number and hash have been checked, and whose body has not.
#[derive(Debug)]
pub struct CheckedBlock {
    block: EthBlock,
    parts: BlockParts,
    hash: B256,
}

/// Whether a failure says that a block in the file of block `number` does not hash to what was
/// reported, and names both hashes.
pub open spec fn reports_hash(
    failure: LoadError,
    number: u64,
    block: BlockView,
    reported: Seq<u8>,
) -> bool {
    failure matches LoadError::WrongHash { number: n, computed, reported: claimed } && n == number
        && computed@ == block_hash(block) && claimed@ == reported
}

impl CheckedBlock {
    /// What the block holds.
    pub closed spec fn contents(self) -> BlockView {
        block_view(self.block)
    }

    /// The hash of the block.
    pub closed spec fn hash(self) -> B256 {
        self.hash
    }

    /// The parts and the hash are those of the block.
    #[verifier::type_invariant]
    spec fn inv(self) -> bool {
        self.parts.of(block_view(self.block)) && self.hash@ == block_hash(block_view(self.block))
    }

    /// Checks a decoded block: that it is block `number`, and that it hashes to what was reported,
    /// where anything was.
    pub fn check(block: EthBlock, reported: Option<B256>, number: u64) -> (r: Result<
        CheckedBlock,
        LoadError,
    >)
        ensures
            ({
                let view = block_view(block);
                &&& r is Ok <==> view.number == number && (reported is Some ==> block_hash(view)
                    == reported->0@)
                &&& r is Ok ==> r->Ok_0.contents() == view && r->Ok_0.hash()@ == block_hash(view)
                &&& view.number != number ==> r == Err::<CheckedBlock, LoadError>(
                    LoadError::WrongNumber { number, holds: view.number },
                )
                &&& view.number == number && r is Err ==> reports_hash(
                    r->Err_0,
                    number,
                    view,
                    reported->0@,
                )
            }),
    {
        let parts = read_parts(&block);
        let hash = hash_slow(&block);
        match check_identity(parts.number, hash, reported, number) {
            Ok(()) => Ok(CheckedBlock { block, parts, hash }),
            Err(error) => Err(error),
        }
    }

    /// The block, whose body is to be checked.
    pub fn block(&self) -> (r: &EthBlock)
        ensures
            block_view(*r) == self.contents(),
    {
        &self.block
    }

    /// Takes the outcome of checking the body against the header, and recovers the senders.
    ///
    /// The body check is what makes the decoded transactions trustworthy.
    pub fn with_body(self, body: Result<(), String>) -> (r: Result<LoadedBlock, LoadError>)
        ensures
            ({
                let number = self.contents().number;
                let senders = transaction_senders(self.contents().transactions);
                &&& r is Ok <==> body is Ok && senders is Some
                &&& r is Ok ==> {
                    &&& r->Ok_0.contents() == self.contents()
                    &&& r->Ok_0.hash() == self.hash()
                    &&& r->Ok_0.senders() == senders->0
                }
                &&& body is Err ==> r == Err::<LoadedBlock, LoadError>(
                    LoadError::BodyMismatch { number, reason: body->Err_0 },
                )
                &&& body is Ok && senders is None ==> r == Err::<LoadedBlock, LoadError>(
                    LoadError::NoSenders { number },
                )
            }),
    {
        proof {
            use_type_invariant(&self);
        }
        let CheckedBlock { block, parts, hash } = self;
        if let Err(reason) = body {
            return Err(LoadError::BodyMismatch { number: parts.number, reason });
        }
        let senders = match recover_senders(&block) {
            Some(senders) => senders,
            None => return Err(LoadError::NoSenders { number: parts.number }),
        };
        Ok(LoadedBlock { block, parts, hash, senders })
    }
}

/// What the file of a block holds.
#[derive(Debug)]
pub enum BlockFile {
    /// The bytes of an RLP file.
    Rlp(Bytes),
    /// The bytes of a JSON file.
    Json(Bytes),
}

/// Decodes the file of block `number`, and checks that it holds that block.
///
/// Only a JSON file reports a hash to check.
pub fn load_block_from_disk(file: &BlockFile, number: u64) -> (r: Result<CheckedBlock, LoadError>)
    ensures
        r is Ok ==> r->Ok_0.hash()@ == block_hash(r->Ok_0.contents()),
        (*file) matches BlockFile::Rlp(bytes) ==> {
            let block = rlp_block(bytes@);
            &&& r is Ok <==> block is Some && block->0.number == number
            &&& r is Ok ==> r->Ok_0.contents() == block->0
            &&& block is None ==> r->Err_0 is NotRlp
            &&& block is Some && block->0.number != number ==> r->Err_0 == (
            LoadError::WrongNumber { number, holds: block->0.number })
        },
        (*file) matches BlockFile::Json(bytes) ==> {
            let response = response_block(bytes@);
            let (block, reported) = response->0;
            &&& r is Ok <==> response is Some && block.number == number && block_hash(block)
                == reported
            &&& r is Ok ==> r->Ok_0.contents() == block
            &&& response is None ==> response_fails(bytes@, r->Err_0)
            &&& response is Some && block.number != number ==> r->Err_0 == (
            LoadError::WrongNumber { number, holds: block.number })
            &&& response is Some && block.number == number && block_hash(block) != reported
                ==> reports_hash(r->Err_0, number, block, reported)
        },
{
    match file {
        BlockFile::Rlp(bytes) => match decode_rlp(bytes.as_slice()) {
            Ok(block) => CheckedBlock::check(block, None, number),
            Err(error) => Err(LoadError::NotRlp(error)),
        },
        BlockFile::Json(bytes) => match decode_rpc_block(bytes.as_slice()) {
            Ok((block, reported)) => CheckedBlock::check(block, Some(reported), number),
            Err(error) => Err(error),
        },
    }
}

/// A block that passed every check, with the senders of its transactions.
#[derive(Debug)]
pub struct LoadedBlock {
    block: EthBlock,
    parts: BlockParts,
    hash: B256,
    senders: Vec<Address>,
}

impl LoadedBlock {
    /// What the block holds.
    pub closed spec fn contents(self) -> BlockView {
        block_view(self.block)
    }

    /// The hash of the block.
    pub closed spec fn hash(self) -> B256 {
        self.hash
    }

    /// The senders of its transactions.
    pub closed spec fn senders(self) -> Seq<Address> {
        self.senders@
    }

    /// The parts and the hash are those of the block, and the senders those of its transactions.
    #[verifier::type_invariant]
    spec fn inv(self) -> bool {
        let view = block_view(self.block);
        &&& self.parts.of(view)
        &&& self.hash@ == block_hash(view)
        &&& transaction_senders(view.transactions) == Some(self.senders@)
        &&& self.senders@.len() == view.transactions.len()
    }

    /// What a measurement needs to know of the block.
    pub fn facts(&self) -> (r: BlockFacts)
        ensures
            r.gas_used == self.contents().gas_used,
            r.tx_count == self.contents().transactions.len(),
            r.state_root == self.contents().state_root,
            r.hash == self.hash(),
            r.hash@ == block_hash(self.contents()),
    {
        proof {
            use_type_invariant(self);
        }
        BlockFacts {
            gas_used: self.parts.gas_used,
            tx_count: self.parts.tx_count,
            state_root: self.parts.state_root,
            hash: self.hash,
        }
    }

    /// The number of the block.
    pub fn number(&self) -> (r: u64)
        ensures
            r == self.contents().number,
    {
        proof {
            use_type_invariant(self);
        }
        self.parts.number
    }

    /// The hash of its execution requests, where it has one.
    pub fn requests_hash(&self) -> (r: Option<B256>)
        ensures
            r == self.contents().requests_hash,
    {
        proof {
            use_type_invariant(self);
        }
        self.parts.requests_hash
    }

    /// The block.
    pub fn block(&self) -> (r: &EthBlock)
        ensures
            block_view(*r) == self.contents(),
    {
        &self.block
    }

    /// The block, and the senders of its transactions, one for each.
    pub fn into_recovered(self) -> (r: (EthBlock, Vec<Address>))
        ensures
            block_view(r.0) == self.contents(),
            r.1@ == self.senders(),
            transaction_senders(self.contents().transactions) == Some(r.1@),
            r.1@.len() == self.contents().transactions.len(),
    {
        proof {
            use_type_invariant(&self);
        }
        (self.block, self.senders)
    }
}

/// A block is hashed by its encoded header.
pub proof fn a_block_is_hashed_by_its_header(block: BlockView)
    ensures
        block_hash(block) == hash::keccak256_of(block.header_rlp),
{
}

/// The parts of a block are each read off it under their own name.
pub proof fn parts_are_those_of_the_block(parts: BlockParts, block: BlockView)
    requires
        parts.of(block),
    ensures
        parts.number == block.number,
        parts.gas_used == block.gas_used,
        parts.state_root == block.state_root,
        parts.requests_hash == block.requests_hash,
        parts.tx_count == block.transactions.len(),
{
}

/// A response stands for the block in its `result`, or for the object itself where it has none, so that
/// either may be saved. A response with an error stands for none, and neither does a null result, nor
/// what is no JSON.
pub proof fn an_envelope_stands_for_its_result(
    raw: Seq<u8>,
    bare: Seq<u8>,
    members: Map<Seq<char>, json::JsonTree>,
)
    requires
        json::json_spelled(raw) == Some(json::JsonTree::Object(members)),
    ensures
        members.contains_key("error"@) ==> response_block(raw) is None,
        members.contains_key("result"@) && members["result"@] is Null ==> response_block(raw) is None,
        !members.contains_key("error"@) && members.contains_key("result"@) && !(
        members["result"@] is Null) ==> response_block(raw) == rpc_block(members["result"@]),
        !members.contains_key("error"@) && !members.contains_key("result"@) ==> response_block(raw)
            == rpc_block(json::JsonTree::Object(members)),
        json::json_spelled(bare) is None ==> response_block(bare) is None,
{
}

/// Where no block comes of a response, the failure tells why: the bytes are no JSON, the response holds
/// an error and which, its result is null, or it is no block.
pub proof fn a_failed_response_tells_why(raw: Seq<u8>, failure: LoadError)
    requires
        response_fails(raw, failure),
    ensures
        json::json_spelled(raw) is None ==> failure is NotJson,
        json::json_spelled(raw) matches Some(json::JsonTree::Object(members)) ==> {
            let error = members.contains_key("error"@);
            let bare = !members.contains_key("result"@);
            &&& error ==> (failure matches LoadError::RpcError(told) && json::json_tree(told)
                == members["error"@])
            &&& !error && !bare && members["result"@] is Null ==> failure is NullResult
            &&& !error && (bare || !(members["result"@] is Null)) ==> failure is NotRpcBlock
        },
        json::json_spelled(raw) == Some(json::JsonTree::Null) ==> failure is NullResult,
{
}

/// A block that does not hash to what was reported is turned down with its number and both hashes.
pub proof fn a_wrong_hash_is_told(
    failure: LoadError,
    number: u64,
    block: BlockView,
    reported: Seq<u8>,
)
    requires
        reports_hash(failure, number, block, reported),
    ensures
        failure matches LoadError::WrongHash { number: n, computed, reported: claimed } && n == number
            && computed@ == hash::keccak256_of(block.header_rlp) && claimed@ == reported,
{
}

/// A block is accepted exactly where it is the one that was asked for and hashes to what was reported of
/// it, where anything was; another block is turned down before its hash is looked at.
pub proof fn only_the_block_that_was_asked_for_is_accepted(
    found: u64,
    computed: B256,
    reported: Option<B256>,
    number: u64,
    r: Result<(), LoadError>,
)
    requires
        call_ensures(check_identity, (found, computed, reported, number), r),
    ensures
        r is Ok <==> found == number && (reported is None || computed@ == reported->0@),
        found != number ==> r->Err_0 == (LoadError::WrongNumber { number, holds: found }),
        found == number && reported is Some && computed@ != reported->0@ ==> r->Err_0 == (
        LoadError::WrongHash { number, computed, reported: reported->0 }),
{
}

/// A block that is loaded from a file is the one in the file, of the number that was asked for, and
/// hashes to the digest of its header; one from a response hashes to what the response reported.
pub proof fn a_loaded_block_is_the_one_in_the_file(
    file: BlockFile,
    number: u64,
    block: CheckedBlock,
)
    requires
        call_ensures(load_block_from_disk, (&file, number), Ok(block)),
    ensures
        block.contents().number == number,
        block.hash()@ == hash::keccak256_of(block.contents().header_rlp),
        file matches BlockFile::Rlp(bytes) ==> rlp_block(bytes@) == Some(block.contents()),
        file matches BlockFile::Json(bytes) ==> {
            let (found, reported) = response_block(bytes@)->0;
            &&& response_block(bytes@) is Some
            &&& found == block.contents()
            &&& reported == block.hash()@
        },
{
}

/// A block passes exactly where its body matches its header and every signature holds, and it passes
/// unchanged, with the senders of its transactions.
pub proof fn a_block_passes_unchanged(
    checked: CheckedBlock,
    body: Result<(), String>,
    r: Result<LoadedBlock, LoadError>,
)
    requires
        call_ensures(CheckedBlock::with_body, (checked, body), r),
    ensures
        ({
            let senders = transaction_senders(checked.contents().transactions);
            let number = checked.contents().number;
            &&& r is Ok <==> body is Ok && senders is Some
            &&& r is Ok ==> r->Ok_0.contents() == checked.contents()
            &&& r is Ok ==> r->Ok_0.hash() == checked.hash() && r->Ok_0.senders() == senders->0
            &&& body is Err ==> r->Err_0 == (LoadError::BodyMismatch { number, reason: body->Err_0 })
            &&& body is Ok && senders is None ==> r->Err_0 == (LoadError::NoSenders { number })
        }),
{
}

/// The files of a block are named by its number in decimal; the RLP file is read where there is one.
pub proof fn block_files_go_by_the_number(
    number: u64,
    rlp: String,
    json: String,
    rlp_exists: bool,
    json_exists: bool,
    kind: Result<FileKind, LoadError>,
)
    requires
        call_ensures(rlp_file_name, (number,), rlp),
        call_ensures(json_file_name, (number,), json),
        call_ensures(choose_file, (rlp_exists, json_exists), kind),
    ensures
        rlp@ == text::numeral(number as nat, 10) + ".rlp"@,
        json@ == text::numeral(number as nat, 10) + ".json"@,
        rlp_exists ==> kind is Ok && kind->Ok_0 == FileKind::Rlp,
        !rlp_exists && json_exists ==> kind is Ok && kind->Ok_0 == FileKind::Json,
        !rlp_exists && !json_exists ==> kind is Err && kind->Err_0 is NoFile,
{
}

} // verus!
