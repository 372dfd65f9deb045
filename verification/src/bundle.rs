//! Simulating a bundle of transactions, or a whole block, on top of a chosen state.
//!
//! The simulation runs as a dialogue. The caller fetches what lives outside — recovered
//! transactions, the block environment, the outcome of each execution — and hands it in; this
//! module checks the request, adjusts the environment, keeps the account of gas, fees and balances,
//! and builds the response.

use vstd::prelude::*;
use std::sync::Arc;
use crate::bytes::{same_bytes, Address, Bytes, B256};
use crate::fees;
use crate::fees::{next_block_base_fee, step_fits, BaseFeeParams, BlobParams};
use crate::text;
use crate::text::decimal;
use crate::u256;
use crate::u256::{wrapping_add, U256};

verus! {

/// Why a bundle is turned down.
#[derive(Clone, Copy, Debug, PartialEq, Eq, Structural)]
pub enum EthBundleError {
    /// The bundle does not contain any transactions.
    EmptyBundleTransactions,
    /// The bundle does not contain a block number, or the block number is 0.
    BundleMissingBlockNumber,
    /// The blob gas usage of the blob transactions in a bundle exceeds the maximum.
    Eip4844BlobGasExceeded(u64),
}

impl EthBundleError {
    /// The words in which the error is reported.
    pub open spec fn words(self) -> Seq<char> {
        match self {
            EthBundleError::EmptyBundleTransactions => "bundle missing txs"@,
            EthBundleError::BundleMissingBlockNumber => "bundle missing blockNumber"@,
            EthBundleError::Eip4844BlobGasExceeded(limit) => "blob gas usage exceeds the limit of "@
                + text::numeral(limit as nat, 10) + " gas per block."@,
        }
    }

    /// The words in which the error is reported.
    pub fn message(&self) -> (r: String)
        ensures
            r@ == self.words(),
    {
        match self {
            EthBundleError::EmptyBundleTransactions => String::from_str("bundle missing txs"),
            EthBundleError::BundleMissingBlockNumber => String::from_str(
                "bundle missing blockNumber",
            ),
            EthBundleError::Eip4844BlobGasExceeded(limit) => {
                let number = decimal(*limit as u128);
                String::from_str("blob gas usage exceeds the limit of ").concat(
                    number.as_str(),
                ).concat(" gas per block.")
            },
        }
    }
}

/// How a simulation fails.
#[derive(Debug)]
pub enum BundleFailure<E> {
    /// The request itself is at fault; the text says how.
    InvalidParams(String),
    /// The request asks for more gas than a call may use.
    GasTooHigh,
    /// What was asked of the outside came back as an error.
    Outside(E),
}

impl<E> BundleFailure<E> {
    /// Whether this reports `error`.
    pub open spec fn reports(self, error: EthBundleError) -> bool {
        match self {
            BundleFailure::InvalidParams(words) => words@ == error.words(),
            _ => false,
        }
    }
}

/// The failure that reports `error`.
fn invalid_params<E>(error: EthBundleError) -> (r: BundleFailure<E>)
    ensures
        r.reports(error),
{
    BundleFailure::InvalidParams(error.message())
}

/// The block whose state a simulation starts from.
#[derive(Clone, Copy, Debug, PartialEq, Eq, Structural)]
pub enum BlockNumberOrTag {
    /// The latest block.
    Latest,
    /// The finalized block.
    Finalized,
    /// The safe block.
    Safe,
    /// The genesis block.
    Earliest,
    /// The pending block.
    Pending,
    /// The block of this number.
    Number(u64),
}

/// A request to simulate a bundle of transactions.
#[derive(Debug)]
pub struct EthCallBundle {
    /// Signed transactions, encoded.
    pub txs: Vec<Bytes>,
    /// The number of the block that the bundle is valid on.
    pub block_number: u64,
    /// The block whose state the simulation starts from.
    pub state_block_number: BlockNumberOrTag,
    /// The coinbase to use.
    pub coinbase: Option<Address>,
    /// The timestamp to use, in seconds since the unix epoch.
    pub timestamp: Option<u64>,
    /// The gas limit of the block to use.
    pub gas_limit: Option<u64>,
    /// The difficulty of the block to use.
    pub difficulty: Option<U256>,
    /// The base fee of the block to use.
    pub base_fee: Option<u128>,
}

/// A request to simulate a block.
#[derive(Clone, Debug, PartialEq, Eq)]
pub struct EthSimulateBlock {
    /// Signed transactions, encoded.
    pub txs: Vec<Bytes>,
    /// The number of the block that the transactions are valid on.
    pub block_number: u64,
    /// The block whose state the simulation starts from.
    pub state_block_number: BlockNumberOrTag,
    /// The coinbase to use.
    pub coinbase: Address,
    /// The address of the proposer.
    pub proposer_address: Address,
    /// The base fee to use.
    pub base_fee: Option<u128>,
    /// The addresses of the builder.
    pub builder_addresses: Vec<Address>,
    /// The timestamp to use, in seconds since the unix epoch.
    pub timestamp: Option<u64>,
}

impl Default for EthSimulateBlock {
    fn default() -> (r: EthSimulateBlock)
        ensures
            r.txs@.len() == 0,
            r.block_number == 0,
            r.state_block_number == BlockNumberOrTag::Latest,
            r.coinbase@ == Seq::new(20, |i: int| 0u8),
            r.proposer_address@ == Seq::new(20, |i: int| 0u8),
            r.base_fee is None,
            r.builder_addresses@.len() == 0,
            r.timestamp is None,
    {
        let nobody: Address = [0;20];
        assert(nobody@ =~= Seq::new(20, |i: int| 0u8));
        EthSimulateBlock {
            txs: Vec::new(),
            block_number: 0,
            state_block_number: BlockNumberOrTag::Latest,
            coinbase: nobody,
            proposer_address: nobody,
            base_fee: None,
            builder_addresses: Vec::new(),
            timestamp: None,
        }
    }
}

/// A decoded transaction with its recovered signer: what the simulation reads of it.
#[derive(Clone, Copy, Debug, PartialEq, Eq)]
pub struct Transaction {
    /// Who signed it.
    pub signer: Address,
    /// Whom it calls; `None` where it creates a contract.
    pub to: Option<Address>,
    /// The wei it carries.
    pub value: U256,
    /// Its hash.
    pub hash: B256,
    /// The blob gas it uses, where it carries blobs.
    pub blob_gas_used: Option<u64>,
    /// The most it pays per gas.
    pub max_fee_per_gas: u128,
    /// The most of that which may go to the coinbase, where it says.
    pub max_priority_fee_per_gas: Option<u128>,
}

/// The block environment: the part of it that a simulation reads or replaces.
#[derive(Clone, Copy, Debug, PartialEq, Eq)]
pub struct BlockEnv {
    /// The number of the block.
    pub number: U256,
    /// The coinbase.
    pub beneficiary: Address,
    /// The timestamp.
    pub timestamp: U256,
    /// The gas limit.
    pub gas_limit: u64,
    /// The base fee.
    pub basefee: u64,
    /// The difficulty.
    pub difficulty: U256,
}

/// The seconds from one block to the next.
pub const SECONDS_PER_BLOCK: u64 = 12;

/// The sum of the blob gas of the transactions that use any.
pub open spec fn blob_gas(txs: Seq<Transaction>) -> nat
    decreases txs.len(),
{
    if txs.len() == 0 {
        0
    } else {
        blob_gas(txs.drop_last()) + (match txs.last().blob_gas_used {
            Some(gas) => gas as nat,
            None => 0,
        })
    }
}

/// The blob gas of a longer run of transactions is at least that of a shorter one.
proof fn lemma_blob_gas_grows(txs: Seq<Transaction>, n: int)
    requires
        0 <= n <= txs.len(),
    ensures
        blob_gas(txs.take(n)) <= blob_gas(txs),
    decreases txs.len() - n,
{
    if n < txs.len() {
        lemma_blob_gas_grows(txs, n + 1);
        assert(txs.take(n + 1).drop_last() =~= txs.take(n));
    } else {
        assert(txs.take(n) =~= txs);
    }
}

/// The sum of the blob gas of the transactions that use any; `None` where that is not a 64-bit
/// number.
pub fn sum_blob_gas(txs: &Vec<Transaction>) -> (r: Option<u64>)
    ensures
        r is Some <==> blob_gas(txs@) <= u64::MAX,
        r is Some ==> r->0 == blob_gas(txs@),
{
    let mut sum: u64 = 0;
    let mut i: usize = 0;
    while i < txs.len()
        invariant
            i <= txs.len(),
            sum == blob_gas(txs@.take(i as int)),
        decreases txs.len() - i,
    {
        proof {
            lemma_blob_gas_grows(txs@, i + 1);
            assert(txs@.take(i + 1).drop_last() =~= txs@.take(i as int));
        }
        if let Some(gas) = txs[i].blob_gas_used {
            sum = match sum.checked_add(gas) {
                Some(sum) => sum,
                None => return None,
            };
        }
        i += 1;
    }
    assert(txs@.take(txs@.len() as int) =~= txs@);
    Some(sum)
}

/// The transactions of a list of recoveries, where every one succeeded.
pub open spec fn all_recovered<E>(recovered: Seq<Result<Transaction, E>>, txs: Seq<Transaction>) -> bool {
    &&& txs.len() == recovered.len()
    &&& forall|i: int|
        0 <= i < recovered.len() ==> (#[trigger] recovered[i]) == Ok::<Transaction, E>(txs[i])
}

/// `error` is what the first recovery that failed came back with.
pub open spec fn first_failure<E>(recovered: Seq<Result<Transaction, E>>, error: E) -> bool {
    exists|i: int|
        #![trigger recovered[i]]
        0 <= i < recovered.len() && recovered[i] == Err::<Transaction, E>(error) && forall|j: int|
            0 <= j < i ==> (#[trigger] recovered[j]) is Ok
}

/// Collects the recovered transactions, or the first error.
fn collect_recovered<E>(recovered: Vec<Result<Transaction, E>>) -> (r: Result<
    Vec<Transaction>,
    BundleFailure<E>,
>)
    ensures
        match r {
            Ok(txs) => all_recovered(recovered@, txs@),
            Err(BundleFailure::Outside(error)) => first_failure(recovered@, error),
            Err(_) => false,
        },
{
    let ghost all = recovered@;
    let mut txs: Vec<Transaction> = Vec::new();
    for item in it: recovered
        invariant
            it.seq() == all,
            all_recovered(all.take(it.index() as int), txs@),
    {
        let ghost n = it.index() as int;
        assert(all[n] == item);
        match item {
            Ok(tx) => {
                txs.push(tx);
                assert(all_recovered(all.take(n + 1), txs@)) by {
                    assert forall|i: int| 0 <= i < n + 1 implies (#[trigger] all.take(n + 1)[i])
                        == Ok::<Transaction, E>(txs@[i]) by {
                        if i < n {
                            assert(all.take(n)[i] == all[i]);
                        }
                    }
                }
            },
            Err(error) => {
                assert(first_failure(all, error)) by {
                    assert(all[n] == Err::<Transaction, E>(error));
                    assert forall|j: int| 0 <= j < n implies (#[trigger] all[j]) is Ok by {
                        assert(all.take(n)[j] == all[j]);
                    }
                }
                return Err(BundleFailure::Outside(error));
            },
        }
    }
    assert(all.take(all.len() as int) =~= all);
    Ok(txs)
}

/// The bundle methods of the `eth` namespace, over whatever gives access to the rest of it.
#[derive(Debug)]
pub struct EthBundle<Eth, Guard> {
    /// All nested fields bundled together.
    inner: Arc<EthBundleInner<Eth, Guard>>,
}

/// What an [`EthBundle`] shares with its clones.
#[derive(Debug)]
struct EthBundleInner<Eth, Guard> {
    /// Access to commonly used code of the `eth` namespace.
    eth_api: Eth,
    /// Restricts the number of concurrent tracing calls.
    blocking_task_guard: Guard,
}

/// [`std::sync::Arc::clone`]: another pointer to the same value.
#[verifier::external_body]
fn share<T>(pointer: &Arc<T>) -> (r: Arc<T>)
    ensures
        r == *pointer,
{
    Arc::clone(pointer)
}

impl<Eth, Guard> Clone for EthBundle<Eth, Guard> {
    fn clone(&self) -> (r: Self)
        ensures
            r == *self,
    {
        EthBundle { inner: share(&self.inner) }
    }
}

impl<Eth, Guard> EthBundle<Eth, Guard> {
    /// The underlying `Eth` API.
    pub closed spec fn api(self) -> Eth {
        self.inner.eth_api
    }

    /// The guard that was handed in.
    pub closed spec fn guard(self) -> Guard {
        self.inner.blocking_task_guard
    }

    /// Creates a new `EthBundle` instance.
    pub fn new(eth_api: Eth, blocking_task_guard: Guard) -> (r: Self)
        ensures
            r.api() == eth_api,
            r.guard() == blocking_task_guard,
    {
        EthBundle { inner: Arc::new(EthBundleInner { eth_api, blocking_task_guard }) }
    }

    /// Access to the underlying `Eth` API.
    pub fn eth_api(&self) -> (r: &Eth)
        ensures
            *r == self.api(),
    {
        &self.inner.eth_api
    }

    /// Takes on a request to simulate a bundle of transactions at the top of a block, with the
    /// state of another (or the same) block.
    ///
    /// A bundle without transactions, or for block 0, is turned down.
    pub fn call_bundle<E>(&self, bundle: EthCallBundle) -> (r: Result<CallBundle, BundleFailure<E>>)
        ensures
            match request_fault(bundle.txs@.len(), bundle.block_number) {
                None => r is Ok && r->Ok_0.request == bundle,
                Some(error) => r is Err && r->Err_0.reports(error),
            },
    {
        if bundle.txs.len() == 0 {
            return Err(invalid_params(EthBundleError::EmptyBundleTransactions));
        }
        if bundle.block_number == 0 {
            return Err(invalid_params(EthBundleError::BundleMissingBlockNumber));
        }
        Ok(CallBundle { request: bundle })
    }

    /// Takes on a request to simulate a block.
    ///
    /// A block without transactions, or of number 0, is turned down.
    pub fn simulate_block<E>(&self, block: EthSimulateBlock) -> (r: Result<
        SimulateBlock,
        BundleFailure<E>,
    >)
        ensures
            match request_fault(block.txs@.len(), block.block_number) {
                None => r is Ok && r->Ok_0.request == block,
                Some(error) => r is Err && r->Err_0.reports(error),
            },
    {
        if block.txs.len() == 0 {
            return Err(invalid_params(EthBundleError::EmptyBundleTransactions));
        }
        if block.block_number == 0 {
            return Err(invalid_params(EthBundleError::BundleMissingBlockNumber));
        }
        Ok(SimulateBlock { request: block })
    }
}

/// What is wrong with a request by itself, if anything: no transactions come before no block
/// number.
pub open spec fn request_fault(txs: nat, block_number: u64) -> Option<EthBundleError> {
    if txs == 0 {
        Some(EthBundleError::EmptyBundleTransactions)
    } else if block_number == 0 {
        Some(EthBundleError::BundleMissingBlockNumber)
    } else {
        None
    }
}

/// A bundle request that was taken on. Its transactions are to be recovered next.
#[derive(Debug)]
pub struct CallBundle {
    /// The request.
    pub request: EthCallBundle,
}

/// A bundle request with its transactions. The environment at its state block is to be fetched
/// next.
#[derive(Debug)]
pub struct CallTransactions {
    /// The request.
    pub request: EthCallBundle,
    /// The transactions, in order.
    pub transactions: Vec<Transaction>,
}

/// A bundle request with its environment half adjusted. The blob parameters may have to be looked
/// up next.
#[derive(Debug)]
pub struct CallEnv {
    /// The request.
    pub request: EthCallBundle,
    /// The transactions, in order.
    pub transactions: Vec<Transaction>,
    /// The environment so far.
    pub env: BlockEnv,
    /// The blob gas of all transactions.
    pub blob_gas_used: u64,
}

/// A bundle that is ready to execute. The balance of the coinbase is to be fetched next.
#[derive(Debug)]
pub struct CallReady {
    /// The transactions, in order.
    pub transactions: Vec<Transaction>,
    /// The environment to execute them in.
    pub env: BlockEnv,
    /// The number of the block whose state the simulation starts from.
    pub state_block_number: U256,
}

/// The timestamp of a simulated block: the one asked for, or one block after the state's,
/// wrapped around at the end of the range.
pub open spec fn simulated_timestamp(asked: Option<u64>, state: nat) -> nat {
    match asked {
        Some(timestamp) => timestamp as nat,
        None => (state + SECONDS_PER_BLOCK as nat) % u256::modulus(),
    }
}

/// The timestamp of a simulated block.
fn simulate_timestamp(asked: Option<u64>, state: &U256) -> (r: U256)
    ensures
        r@ == simulated_timestamp(asked, state@),
{
    match asked {
        Some(timestamp) => U256::from_u64(timestamp),
        None => wrapping_add(state, &U256::from_u64(SECONDS_PER_BLOCK)),
    }
}

impl CallBundle {
    /// Takes the recovery of each transaction, in order; the first that failed fails the bundle.
    pub fn with_transactions<E>(self, recovered: Vec<Result<Transaction, E>>) -> (r: Result<
        CallTransactions,
        BundleFailure<E>,
    >)
        requires
            recovered@.len() == self.request.txs@.len(),
        ensures
            match r {
                Ok(next) => next.request == self.request && all_recovered(
                    recovered@,
                    next.transactions@,
                ),
                Err(BundleFailure::Outside(error)) => first_failure(recovered@, error),
                Err(_) => false,
            },
    {
        match collect_recovered(recovered) {
            Ok(transactions) => Ok(CallTransactions { request: self.request, transactions }),
            Err(failure) => Err(failure),
        }
    }
}

impl CallTransactions {
    /// Takes the environment of the state block and sets coinbase, timestamp and difficulty as the
    /// request has them.
    pub fn with_env(self, env: BlockEnv) -> (r: CallEnv)
        requires
            blob_gas(self.transactions@) <= u64::MAX,
        ensures
            r.request == self.request,
            r.transactions == self.transactions,
            r.blob_gas_used == blob_gas(self.transactions@),
            r.env.number == env.number,
            r.env.gas_limit == env.gas_limit,
            r.env.basefee == env.basefee,
            r.env.beneficiary == (match self.request.coinbase {
                Some(coinbase) => coinbase,
                None => env.beneficiary,
            }),
            r.env.difficulty == (match self.request.difficulty {
                Some(difficulty) => difficulty,
                None => env.difficulty,
            }),
            r.env.timestamp@ == simulated_timestamp(self.request.timestamp, env.timestamp@),
    {
        let blob_gas_used = sum_blob_gas(&self.transactions).unwrap();
        let beneficiary = match self.request.coinbase {
            Some(coinbase) => coinbase,
            None => env.beneficiary,
        };
        let difficulty = match self.request.difficulty {
            Some(difficulty) => difficulty,
            None => env.difficulty,
        };
        let timestamp = simulate_timestamp(self.request.timestamp, &env.timestamp);
        CallEnv {
            request: self.request,
            transactions: self.transactions,
            env: BlockEnv {
                number: env.number,
                beneficiary,
                timestamp,
                gas_limit: env.gas_limit,
                basefee: env.basefee,
                difficulty,
            },
            blob_gas_used,
        }
    }
}

/// The most blob gas a block may use, by the parameters found or else those of Cancun.
pub open spec fn blob_gas_limit(found: Option<BlobParams>) -> nat {
    match found {
        Some(params) => (params.max_blob_count * fees::DATA_GAS_PER_BLOB) as nat,
        None => (6 * fees::DATA_GAS_PER_BLOB) as nat,
    }
}

/// A 128-bit base fee as a 64-bit one, no larger than the largest.
pub open spec fn clamped_base_fee(base_fee: u128) -> u64 {
    if base_fee <= u64::MAX {
        base_fee as u64
    } else {
        u64::MAX
    }
}

impl CallEnv {
    /// The timestamp at which the blob parameters are to be looked up: that of the simulated block,
    /// where any transaction uses blob gas.
    pub fn blob_lookup(&self) -> (r: Option<u64>)
        ensures
            self.blob_gas_used == 0 ==> r is None,
            self.blob_gas_used > 0 ==> r == Some(
                (if self.env.timestamp@ <= u64::MAX {
                    self.env.timestamp@
                } else {
                    u64::MAX as nat
                }) as u64,
            ),
    {
        if self.blob_gas_used > 0 {
            Some(self.env.timestamp.saturating_to_u64())
        } else {
            None
        }
    }

    /// What is wrong with the request against the limits, if anything: too much blob gas comes
    /// before too much gas.
    pub open spec fn over_limit(self, blob_params: Option<BlobParams>, call_gas_limit: u64) -> bool {
        self.over_blob_limit(blob_params) || self.over_gas_limit(call_gas_limit)
    }

    /// Whether the transactions use more blob gas than a block may.
    pub open spec fn over_blob_limit(self, blob_params: Option<BlobParams>) -> bool {
        self.blob_gas_used > 0 && self.blob_gas_used > blob_gas_limit(blob_params)
    }

    /// Whether the request asks for more gas than a call may use.
    pub open spec fn over_gas_limit(self, call_gas_limit: u64) -> bool {
        self.request.gas_limit is Some && self.request.gas_limit->0 > call_gas_limit
    }

    /// Takes the blob parameters that were found and the gas that a call may use, and finishes the
    /// environment: gas limit and base fee as the request has them, and the number of its block.
    ///
    /// The gas limit is that of a call unless the request asks for a smaller one.
    pub fn with_limits<E>(self, blob_params: Option<BlobParams>, call_gas_limit: u64) -> (r: Result<
        CallReady,
        BundleFailure<E>,
    >)
        requires
            self.blob_gas_used > 0 && blob_params is Some ==> blob_params->0.wf(),
        ensures
            self.over_blob_limit(blob_params) ==> r is Err && r->Err_0.reports(
                EthBundleError::Eip4844BlobGasExceeded(blob_gas_limit(blob_params) as u64),
            ),
            !self.over_blob_limit(blob_params) && self.over_gas_limit(call_gas_limit) ==> r is Err
                && r->Err_0 is GasTooHigh,
            !self.over_limit(blob_params, call_gas_limit) ==> r is Ok && {
                let ready = r->Ok_0;
                &&& ready.transactions == self.transactions
                &&& ready.state_block_number == self.env.number
                &&& ready.env.number@ == self.request.block_number
                &&& ready.env.beneficiary == self.env.beneficiary
                &&& ready.env.timestamp == self.env.timestamp
                &&& ready.env.difficulty == self.env.difficulty
                &&& ready.env.gas_limit == (match self.request.gas_limit {
                    Some(gas_limit) => gas_limit,
                    None => call_gas_limit,
                })
                &&& ready.env.gas_limit <= call_gas_limit
                &&& ready.env.basefee == (match self.request.base_fee {
                    Some(base_fee) => clamped_base_fee(base_fee),
                    None => self.env.basefee,
                })
                &&& self.request.base_fee is Some && self.request.base_fee->0 <= u64::MAX
                    ==> ready.env.basefee == self.request.base_fee->0
                &&& self.request.base_fee is Some && self.request.base_fee->0 > u64::MAX
                    ==> ready.env.basefee == u64::MAX
            },
    {
        if self.blob_gas_used > 0 {
            let params = match blob_params {
                Some(params) => params,
                None => BlobParams::cancun(),
            };
            let limit = params.max_blob_gas_per_block();
            if self.blob_gas_used > limit {
                return Err(invalid_params(EthBundleError::Eip4844BlobGasExceeded(limit)));
            }
        }
        let mut gas_limit: u64 = call_gas_limit;
        if let Some(asked) = self.request.gas_limit {
            if asked > call_gas_limit {
                return Err(BundleFailure::GasTooHigh);
            }
            gas_limit = asked;
        }
        let basefee: u64 = match self.request.base_fee {
            Some(base_fee) => if base_fee <= u64::MAX as u128 {
                base_fee as u64
            } else {
                u64::MAX
            },
            None => self.env.basefee,
        };
        Ok(
            CallReady {
                transactions: self.transactions,
                env: BlockEnv {
                    number: U256::from_u64(self.request.block_number),
                    beneficiary: self.env.beneficiary,
                    timestamp: self.env.timestamp,
                    gas_limit,
                    basefee,
                    difficulty: self.env.difficulty,
                },
                state_block_number: self.env.number,
            },
        )
    }
}

/// A block request that was taken on. Its transactions are to be recovered next.
#[derive(Debug)]
pub struct SimulateBlock {
    /// The request.
    pub request: EthSimulateBlock,
}

/// A block request with its transactions. The environment at its state block is to be fetched next.
#[derive(Debug)]
pub struct SimulateTransactions {
    /// The request.
    pub request: EthSimulateBlock,
    /// The transactions, in order.
    pub transactions: Vec<Transaction>,
    /// How the block pays its proposer.
    pub payment: Payment,
}

/// A block request with its timestamp set. The parent block may have to be looked up next.
#[derive(Debug)]
pub struct SimulateEnv {
    /// The request.
    pub request: EthSimulateBlock,
    /// The transactions, in order.
    pub transactions: Vec<Transaction>,
    /// How the block pays its proposer.
    pub payment: Payment,
    /// The environment so far.
    pub env: BlockEnv,
}

/// A block that is ready to execute. The balances of coinbase and builder are to be fetched next.
#[derive(Debug)]
pub struct SimulateReady {
    /// The transactions, in order.
    pub transactions: Vec<Transaction>,
    /// How the block pays its proposer.
    pub payment: Payment,
    /// The addresses of the builder.
    pub builder_addresses: Vec<Address>,
    /// The environment to execute the transactions in.
    pub env: BlockEnv,
    /// The number of the block whose state the simulation starts from.
    pub state_block_number: U256,
}

/// How a block pays its proposer, read off its last transaction.
#[derive(Clone, Copy, Debug, PartialEq, Eq)]
pub struct Payment {
    /// 2 where the last transaction calls the proposer, plus 1 where the coinbase is the proposer;
    /// 0 where the last transaction calls no one.
    pub option: u64,
    /// Who signed the last transaction.
    pub from_builder: Address,
    /// Whom the last transaction calls.
    pub to_proposer: Option<Address>,
    /// The wei that the last transaction carries.
    pub actual_value: U256,
}

/// Stands in for the builder where there is no last transaction.
pub fn unknown_builder() -> (r: Address)
    ensures
        r@ == seq![
            0xd8u8, 0xda, 0x6b, 0xf2, 0x69, 0x64, 0xaf, 0x9d, 0x7e, 0xed, 0x9e, 0x03, 0xe5, 0x34,
            0x15, 0xd3, 0x7a, 0xa9, 0x60, 0x45,
        ],
{
    let address: Address = [
        0xd8, 0xda, 0x6b, 0xf2, 0x69, 0x64, 0xaf, 0x9d, 0x7e, 0xed, 0x9e, 0x03, 0xe5, 0x34, 0x15,
        0xd3, 0x7a, 0xa9, 0x60, 0x45,
    ];
    assert(address@ =~= seq![
        0xd8u8, 0xda, 0x6b, 0xf2, 0x69, 0x64, 0xaf, 0x9d, 0x7e, 0xed, 0x9e, 0x03, 0xe5, 0x34, 0x15,
        0xd3, 0x7a, 0xa9, 0x60, 0x45,
    ]);
    address
}

/// How a block pays: which of the two ways its last transaction and its coinbase show.
pub open spec fn payment_option(to: Option<Address>, coinbase: Address, proposer: Address) -> int {
    match to {
        Some(to) => (if to@ == proposer@ {
            2int
        } else {
            0
        }) + (if coinbase@ == proposer@ {
            1int
        } else {
            0
        }),
        None => 0,
    }
}

/// Both ways of paying can be read off the option: the last transaction calls the proposer where it is
/// two or more, and where it calls anyone, the coinbase is the proposer where it is odd.
pub proof fn payment_option_tells_both_ways(
    to: Option<Address>,
    coinbase: Address,
    proposer: Address,
)
    ensures
        0 <= payment_option(to, coinbase, proposer) <= 3,
        payment_option(to, coinbase, proposer) >= 2 <==> to is Some && to->0@ == proposer@,
        payment_option(to, coinbase, proposer) % 2 == 1 <==> to is Some && coinbase@ == proposer@,
{
}

impl Payment {
    /// Reads the payment off the last transaction.
    pub fn of_block(transactions: &Vec<Transaction>, coinbase: &Address, proposer: &Address) -> (r:
        Payment)
        ensures
            transactions@.len() > 0 ==> {
                let last = transactions@.last();
                &&& r.from_builder == last.signer
                &&& r.to_proposer == last.to
                &&& r.actual_value == last.value
                &&& r.option == payment_option(last.to, *coinbase, *proposer)
            },
            transactions@.len() == 0 ==> {
                &&& r.to_proposer is None
                &&& r.actual_value@ == 0
                &&& r.option == 0
                &&& r.from_builder@ == seq![
                    0xd8u8, 0xda, 0x6b, 0xf2, 0x69, 0x64, 0xaf, 0x9d, 0x7e, 0xed, 0x9e, 0x03, 0xe5,
                    0x34, 0x15, 0xd3, 0x7a, 0xa9, 0x60, 0x45,
                ]
            },
    {
        if transactions.len() == 0 {
            return Payment {
                option: 0,
                from_builder: unknown_builder(),
                to_proposer: None,
                actual_value: U256::zero(),
            };
        }
        let last = transactions[transactions.len() - 1];
        let mut option: u64 = 0;
        if let Some(to) = last.to {
            if same_bytes(to.as_slice(), proposer.as_slice()) {
                option = option + 2;
            }
            if same_bytes(coinbase.as_slice(), proposer.as_slice()) {
                option = option + 1;
            }
        }
        Payment {
            option,
            from_builder: last.signer,
            to_proposer: last.to,
            actual_value: last.value,
        }
    }
}

impl SimulateBlock {
    /// Takes the recovery of each transaction, in order; the first that failed fails the block.
    pub fn with_transactions<E>(self, recovered: Vec<Result<Transaction, E>>) -> (r: Result<
        SimulateTransactions,
        BundleFailure<E>,
    >)
        requires
            self.request.txs@.len() > 0,
            recovered@.len() == self.request.txs@.len(),
        ensures
            match r {
                Ok(next) => {
                    let last = next.transactions@.last();
                    &&& next.request == self.request
                    &&& all_recovered(recovered@, next.transactions@)
                    &&& next.payment.from_builder == last.signer
                    &&& next.payment.to_proposer == last.to
                    &&& next.payment.actual_value == last.value
                    &&& next.payment.option == payment_option(
                        last.to,
                        self.request.coinbase,
                        self.request.proposer_address,
                    )
                },
                Err(BundleFailure::Outside(error)) => first_failure(recovered@, error),
                Err(_) => false,
            },
    {
        match collect_recovered(recovered) {
            Ok(transactions) => {
                let payment = Payment::of_block(
                    &transactions,
                    &self.request.coinbase,
                    &self.request.proposer_address,
                );
                Ok(SimulateTransactions { request: self.request, transactions, payment })
            },
            Err(failure) => Err(failure),
        }
    }
}

impl SimulateTransactions {
    /// Takes the environment of the state block and sets the timestamp as the request has it.
    pub fn with_env(self, env: BlockEnv) -> (r: SimulateEnv)
        ensures
            r.request == self.request,
            r.transactions == self.transactions,
            r.payment == self.payment,
            r.env.timestamp@ == simulated_timestamp(self.request.timestamp, env.timestamp@),
            r.env == (BlockEnv { timestamp: r.env.timestamp, ..env }),
    {
        let timestamp = simulate_timestamp(self.request.timestamp, &env.timestamp);
        SimulateEnv {
            request: self.request,
            transactions: self.transactions,
            payment: self.payment,
            env: BlockEnv {
                number: env.number,
                beneficiary: env.beneficiary,
                timestamp,
                gas_limit: env.gas_limit,
                basefee: env.basefee,
                difficulty: env.difficulty,
            },
        }
    }
}

/// What of a parent block decides the base fee of the next.
#[derive(Clone, Copy, Debug, PartialEq, Eq)]
pub struct ParentBlock {
    /// The gas it used.
    pub gas_used: u64,
    /// Its gas limit.
    pub gas_limit: u64,
    /// Its base fee, where it has one.
    pub base_fee_per_gas: Option<u64>,
    /// What governs the step to the next base fee.
    pub params: BaseFeeParams,
}

impl ParentBlock {
    /// Whether the step to the next base fee, where there is one, stays within machine integers.
    pub open spec fn wf(self) -> bool {
        match self.base_fee_per_gas {
            Some(base_fee) => fees::base_fee_step_fits(
                self.gas_used,
                self.gas_limit,
                base_fee,
                self.params,
            ),
            None => true,
        }
    }

    /// Tells whether the step to the next base fee, where there is one, stays within machine
    /// integers.
    pub fn fits(&self) -> (r: bool)
        ensures
            r == self.wf(),
    {
        match self.base_fee_per_gas {
            Some(base_fee) => step_fits(self.gas_used, self.gas_limit, base_fee, &self.params),
            None => true,
        }
    }

    /// The base fee of the next block; `None` where this one has none.
    pub open spec fn next_fee(self) -> Option<int> {
        match self.base_fee_per_gas {
            Some(base_fee) => Some(
                fees::next_base_fee(self.gas_used, self.gas_limit, base_fee, self.params),
            ),
            None => None,
        }
    }
}

impl SimulateEnv {
    /// The number of the block whose header decides the base fee: that of the state block, where
    /// the request names no base fee.
    pub fn parent_lookup(&self) -> (r: Option<u64>)
        ensures
            self.request.base_fee is Some ==> r is None,
            self.request.base_fee is None ==> r == Some(
                (if self.env.number@ <= u64::MAX {
                    self.env.number@
                } else {
                    u64::MAX as nat
                }) as u64,
            ),
    {
        match self.request.base_fee {
            Some(_) => None,
            None => Some(self.env.number.saturating_to_u64()),
        }
    }

    /// Takes the parent block that was found and finishes the environment: base fee, number and
    /// coinbase.
    ///
    /// A base fee that the request names is cut down to its low 64 bits. Where it names none, the
    /// parent has to be there, and the base fee is the one after it; a parent without one leaves
    /// the base fee as it is.
    pub fn with_parent<E>(self, parent: Option<ParentBlock>) -> (r: Result<
        SimulateReady,
        BundleFailure<E>,
    >)
        requires
            self.request.base_fee is None && parent is Some ==> parent->0.wf(),
        ensures
            self.request.base_fee is None && parent is None ==> r is Err && r->Err_0.reports(
                EthBundleError::BundleMissingBlockNumber,
            ),
            !(self.request.base_fee is None && parent is None) ==> r is Ok && {
                let ready = r->Ok_0;
                &&& ready.transactions == self.transactions
                &&& ready.payment == self.payment
                &&& ready.builder_addresses == self.request.builder_addresses
                &&& ready.state_block_number == self.env.number
                &&& ready.env.number@ == self.request.block_number
                &&& ready.env.beneficiary == self.request.coinbase
                &&& ready.env.timestamp == self.env.timestamp
                &&& ready.env.difficulty == self.env.difficulty
                &&& ready.env.gas_limit == self.env.gas_limit
                &&& ready.env.basefee == (match self.request.base_fee {
                    Some(base_fee) => base_fee as int % 0x1_0000_0000_0000_0000,
                    None => match parent->0.next_fee() {
                        Some(next) => next,
                        None => self.env.basefee as int,
                    },
                })
            },
    {
        let basefee: u64 = match self.request.base_fee {
            Some(base_fee) => {
                assert((base_fee as u64) as u128 == base_fee % 0x1_0000_0000_0000_0000u128)
                    by (bit_vector);
                #[verifier::truncate]
                (base_fee as u64)
            },
            None => match parent {
                None => {
                    return Err(invalid_params(EthBundleError::BundleMissingBlockNumber));
                },
                Some(parent) => match parent.base_fee_per_gas {
                    Some(base_fee) => next_block_base_fee(
                        parent.gas_used,
                        parent.gas_limit,
                        base_fee,
                        &parent.params,
                    ),
                    None => self.env.basefee,
                },
            },
        };
        Ok(
            SimulateReady {
                transactions: self.transactions,
                payment: self.payment,
                builder_addresses: self.request.builder_addresses,
                env: BlockEnv {
                    number: U256::from_u64(self.request.block_number),
                    beneficiary: self.request.coinbase,
                    timestamp: self.env.timestamp,
                    gas_limit: self.env.gas_limit,
                    basefee,
                    difficulty: self.env.difficulty,
                },
                state_block_number: self.env.number,
            },
        )
    }
}

/// A base fee that 64 bits hold is used as it is asked for; only a larger one comes down to the largest
/// of 64 bits.
pub proof fn an_ordinary_base_fee_is_used_as_asked(base_fee: u128)
    ensures
        base_fee <= u64::MAX ==> clamped_base_fee(base_fee) == base_fee,
        base_fee > u64::MAX ==> clamped_base_fee(base_fee) == u64::MAX,
{
}

/// Each fault of a bundle is reported in words of its own, and the blob limit is named in decimal.
pub proof fn each_fault_has_its_words(limit: u64)
    ensures
        EthBundleError::EmptyBundleTransactions.words() == "bundle missing txs"@,
        EthBundleError::BundleMissingBlockNumber.words() == "bundle missing blockNumber"@,
        EthBundleError::Eip4844BlobGasExceeded(limit).words()
            == "blob gas usage exceeds the limit of "@ + text::numeral(limit as nat, 10)
            + " gas per block."@,
{
}

/// A failure that reports an error is one of the request's parameters, in the words of that error.
pub proof fn a_reported_error_is_told_in_its_words<E>(failure: BundleFailure<E>, error: EthBundleError)
    ensures
        failure.reports(error) <==> (failure matches BundleFailure::InvalidParams(words) && words@
            == error.words()),
{
}

/// A request is turned down exactly where it has no transactions or no block number; where it has
/// neither, for the transactions.
pub proof fn only_empty_requests_are_turned_down(txs: nat, block_number: u64)
    ensures
        request_fault(txs, block_number) is None <==> txs > 0 && block_number > 0,
        txs == 0 ==> request_fault(txs, block_number) == Some(
            EthBundleError::EmptyBundleTransactions,
        ),
        txs > 0 && block_number == 0 ==> request_fault(txs, block_number) == Some(
            EthBundleError::BundleMissingBlockNumber,
        ),
{
}

/// A timestamp that is asked for is used; otherwise a block comes twelve seconds after the state it
/// builds on, wherever 256 bits hold that.
pub proof fn a_block_comes_twelve_seconds_later(asked: Option<u64>, state: nat)
    requires
        state < u256::modulus(),
    ensures
        asked is Some ==> simulated_timestamp(asked, state) == asked->0,
        asked is None && state + 12 < u256::modulus() ==> simulated_timestamp(asked, state) == state
            + 12,
        asked is None && state + 12 >= u256::modulus() ==> simulated_timestamp(asked, state) == state
            + 12 - u256::modulus(),
{
    if asked is None {
        if state + 12 < u256::modulus() {
            vstd::arithmetic::div_mod::lemma_small_mod(state + 12, u256::modulus());
        } else {
            let rest = (state + 12 - u256::modulus()) as nat;
            vstd::arithmetic::div_mod::lemma_small_mod(rest, u256::modulus());
            vstd::arithmetic::div_mod::lemma_mod_add_multiples_vanish(
                rest as int,
                u256::modulus() as int,
            );
        }
    }
}

/// A block may use 131072 gas for each blob that its parameters allow, and six blobs where there are
/// no parameters.
pub proof fn blob_gas_goes_by_the_blob(found: Option<BlobParams>)
    ensures
        found is Some ==> blob_gas_limit(found) == found->0.max_blob_count * 131072,
        found is None ==> blob_gas_limit(found) == 6 * 131072,
{
}

/// The blob gas of transactions is the sum over those that carry blobs.
pub proof fn blob_gas_adds_up(txs: Seq<Transaction>, tx: Transaction)
    ensures
        blob_gas(Seq::<Transaction>::empty()) == 0,
        tx.blob_gas_used is Some ==> blob_gas(txs.push(tx)) == blob_gas(txs) + tx.blob_gas_used->0,
        tx.blob_gas_used is None ==> blob_gas(txs.push(tx)) == blob_gas(txs),
{
    assert(txs.push(tx).drop_last() =~= txs);
}

/// A bundle is over the limits exactly where its blob gas is above that of a full block, or the gas it
/// asks for is above that of a call. A bundle without blobs is never over the first.
pub proof fn only_too_much_gas_is_over_the_limits(
    call: CallEnv,
    blob_params: Option<BlobParams>,
    call_gas_limit: u64,
)
    ensures
        ({
            let blobs = match blob_params {
                Some(params) => params.max_blob_count as int,
                None => 6,
            };
            let too_many_blobs = call.blob_gas_used > blobs * 131072;
            let too_much_gas = call.request.gas_limit is Some && call.request.gas_limit->0
                > call_gas_limit;
            &&& call.over_blob_limit(blob_params) <==> too_many_blobs
            &&& call.over_gas_limit(call_gas_limit) <==> too_much_gas
            &&& call.over_limit(blob_params, call_gas_limit) <==> too_many_blobs || too_much_gas
        }),
{
    if let Some(params) = blob_params {
        assert(0 <= params.max_blob_count * 131072) by (nonlinear_arith);
    }
}

/// Recovered transactions are those of the recoveries, one for each and in their order; there is no
/// failure among them.
pub proof fn recovered_transactions_keep_their_places<E>(
    recovered: Seq<Result<Transaction, E>>,
    txs: Seq<Transaction>,
)
    requires
        all_recovered(recovered, txs),
    ensures
        txs.len() == recovered.len(),
        forall|i: int|
            0 <= i < recovered.len() ==> (#[trigger] recovered[i]) is Ok && recovered[i]->Ok_0
                == txs[i],
        forall|error: E| !#[trigger] first_failure(recovered, error),
{
}

/// The failure of a list of recoveries comes with the first that failed: all before it succeeded.
pub proof fn the_first_failure_is_told<E>(
    recovered: Seq<Result<Transaction, E>>,
    error: E,
    i: int,
)
    requires
        first_failure(recovered, error),
        0 <= i < recovered.len(),
        recovered[i] is Err,
        forall|j: int| 0 <= j < i ==> (#[trigger] recovered[j]) is Ok,
    ensures
        recovered[i]->Err_0 == error,
{
    let k = choose|k: int|
        #![trigger recovered[k]]
        0 <= k < recovered.len() && recovered[k] == Err::<Transaction, E>(error) && forall|j: int|
            0 <= j < k ==> (#[trigger] recovered[j]) is Ok;
    if k < i {
        assert(recovered[k] is Ok);
    } else if i < k {
        assert(recovered[i] is Ok);
    }
}

/// How the option of a payment comes about: two for a call of the proposer, and one more for a coinbase
/// that is the proposer, but nothing where no one is called.
pub proof fn the_payment_option_adds_up(to: Option<Address>, coinbase: Address, proposer: Address)
    ensures
        to is None ==> payment_option(to, coinbase, proposer) == 0,
        to is Some && to->0@ == proposer@ && coinbase@ == proposer@ ==> payment_option(
            to,
            coinbase,
            proposer,
        ) == 3,
        to is Some && to->0@ == proposer@ && coinbase@ != proposer@ ==> payment_option(
            to,
            coinbase,
            proposer,
        ) == 2,
        to is Some && to->0@ != proposer@ && coinbase@ == proposer@ ==> payment_option(
            to,
            coinbase,
            proposer,
        ) == 1,
        to is Some && to->0@ != proposer@ && coinbase@ != proposer@ ==> payment_option(
            to,
            coinbase,
            proposer,
        ) == 0,
{
}

/// A parent without a base fee leaves the next block's open, and always fits. One with a base fee
/// decides it.
pub proof fn a_parent_decides_the_base_fee(parent: ParentBlock)
    ensures
        parent.next_fee() is Some <==> parent.base_fee_per_gas is Some,
        parent.next_fee() is Some ==> parent.next_fee()->0 == fees::next_base_fee(
            parent.gas_used,
            parent.gas_limit,
            parent.base_fee_per_gas->0,
            parent.params,
        ),
        parent.base_fee_per_gas is None ==> parent.wf(),
        parent.base_fee_per_gas is Some ==> parent.wf() == fees::base_fee_step_fits(
            parent.gas_used,
            parent.gas_limit,
            parent.base_fee_per_gas->0,
            parent.params,
        ),
{
}

/// A bundle executes in the environment that it asks for: its own coinbase, timestamp, difficulty, gas
/// limit and base fee where it names them, and otherwise those of the state it builds on, the timestamp
/// twelve seconds later and the gas limit that of a call. It executes as its own block, with its
/// transactions in the order of the request.
pub proof fn a_bundle_executes_in_the_environment_it_asks_for<E>(
    request: EthCallBundle,
    recovered: Vec<Result<Transaction, E>>,
    env: BlockEnv,
    blob_params: Option<BlobParams>,
    call_gas_limit: u64,
    with_transactions: CallTransactions,
    with_env: CallEnv,
    ready: CallReady,
)
    requires
        call_ensures(
            CallBundle::with_transactions::<E>,
            (CallBundle { request }, recovered),
            Ok(with_transactions),
        ),
        call_ensures(CallTransactions::with_env, (with_transactions, env), with_env),
        call_ensures(
            CallEnv::with_limits::<E>,
            (with_env, blob_params, call_gas_limit),
            Ok(ready),
        ),
    ensures
        ready.transactions@.len() == recovered@.len(),
        forall|i: int|
            0 <= i < recovered@.len() ==> (#[trigger] recovered@[i]) == Ok::<Transaction, E>(
                ready.transactions@[i],
            ),
        ready.state_block_number == env.number,
        ready.env.number@ == request.block_number,
        request.coinbase is Some ==> ready.env.beneficiary == request.coinbase->0,
        request.coinbase is None ==> ready.env.beneficiary == env.beneficiary,
        request.difficulty is Some ==> ready.env.difficulty == request.difficulty->0,
        request.difficulty is None ==> ready.env.difficulty == env.difficulty,
        request.timestamp is Some ==> ready.env.timestamp@ == request.timestamp->0,
        request.timestamp is None && env.timestamp@ + 12 < u256::modulus()
            ==> ready.env.timestamp@ == env.timestamp@ + 12,
        request.gas_limit is Some ==> ready.env.gas_limit == request.gas_limit->0
            && request.gas_limit->0 <= call_gas_limit,
        request.gas_limit is None ==> ready.env.gas_limit == call_gas_limit,
        request.base_fee is Some && request.base_fee->0 <= u64::MAX ==> ready.env.basefee
            == request.base_fee->0,
        request.base_fee is None ==> ready.env.basefee == env.basefee,
{
    if request.timestamp is None && env.timestamp@ + 12 < u256::modulus() {
        vstd::arithmetic::div_mod::lemma_small_mod(env.timestamp@ + 12, u256::modulus());
    }
}

/// A bundle or block is taken on exactly where it has transactions and a block number, and as it is. One
/// without transactions is turned down for that, whatever its number.
pub proof fn a_request_is_taken_on_as_it_is<Eth, Guard, E>(
    api: EthBundle<Eth, Guard>,
    bundle: EthCallBundle,
    block: EthSimulateBlock,
    call: Result<CallBundle, BundleFailure<E>>,
    simulation: Result<SimulateBlock, BundleFailure<E>>,
)
    requires
        call_ensures(EthBundle::<Eth, Guard>::call_bundle::<E>, (&api, bundle), call),
        call_ensures(EthBundle::<Eth, Guard>::simulate_block::<E>, (&api, block), simulation),
    ensures
        call is Ok <==> bundle.txs@.len() > 0 && bundle.block_number > 0,
        call is Ok ==> call->Ok_0.request == bundle,
        bundle.txs@.len() == 0 ==> (call->Err_0 matches BundleFailure::InvalidParams(words) && words@
            == "bundle missing txs"@),
        bundle.txs@.len() > 0 && bundle.block_number == 0 ==> (
        call->Err_0 matches BundleFailure::InvalidParams(words) && words@
            == "bundle missing blockNumber"@),
        simulation is Ok <==> block.txs@.len() > 0 && block.block_number > 0,
        simulation is Ok ==> simulation->Ok_0.request == block,
        block.txs@.len() == 0 ==> (simulation->Err_0 matches BundleFailure::InvalidParams(words)
            && words@ == "bundle missing txs"@),
        block.txs@.len() > 0 && block.block_number == 0 ==> (
        simulation->Err_0 matches BundleFailure::InvalidParams(words) && words@
            == "bundle missing blockNumber"@),
{
}

/// A bundle is held to its limits: too many blobs are refused first and name the limit, then more gas
/// than a call may use; a bundle within both limits is accepted.
pub proof fn a_bundle_is_held_to_its_limits<E>(
    call: CallEnv,
    blob_params: Option<BlobParams>,
    call_gas_limit: u64,
    r: Result<CallReady, BundleFailure<E>>,
)
    requires
        call_ensures(CallEnv::with_limits::<E>, (call, blob_params, call_gas_limit), r),
        blob_params is Some ==> blob_params->0.wf(),
    ensures
        ({
            let limit = 131072 * (if blob_params is Some {
                blob_params->0.max_blob_count as int
            } else {
                6
            });
            let gas = call.request.gas_limit;
            &&& r is Ok <==> call.blob_gas_used <= limit && (gas is None || gas->0 <= call_gas_limit)
            &&& call.blob_gas_used > limit ==> (r->Err_0 matches BundleFailure::InvalidParams(words)
                && words@ == "blob gas usage exceeds the limit of "@ + text::numeral(
                limit as nat,
                10,
            ) + " gas per block."@)
            &&& call.blob_gas_used <= limit && gas is Some && gas->0 > call_gas_limit
                ==> r->Err_0 is GasTooHigh
        }),
{
    if let Some(params) = blob_params {
        assert(0 <= params.max_blob_count * 131072) by (nonlinear_arith);
    }
}

/// A simulated block executes as it asks: at its own number, coinbase and timestamp, and at its own base
/// fee where that is a 64-bit number. Everything else is that of the state it builds on. Its payment is
/// read off its last transaction.
pub proof fn a_block_executes_as_it_asks<E>(
    request: EthSimulateBlock,
    recovered: Vec<Result<Transaction, E>>,
    env: BlockEnv,
    parent: Option<ParentBlock>,
    with_transactions: SimulateTransactions,
    with_env: SimulateEnv,
    ready: SimulateReady,
)
    requires
        request.txs@.len() > 0,
        recovered@.len() == request.txs@.len(),
        call_ensures(
            SimulateBlock::with_transactions::<E>,
            (SimulateBlock { request }, recovered),
            Ok(with_transactions),
        ),
        call_ensures(SimulateTransactions::with_env, (with_transactions, env), with_env),
        call_ensures(SimulateEnv::with_parent::<E>, (with_env, parent), Ok(ready)),
    ensures
        ready.transactions@.len() == recovered@.len(),
        forall|i: int|
            0 <= i < recovered@.len() ==> (#[trigger] recovered@[i]) == Ok::<Transaction, E>(
                ready.transactions@[i],
            ),
        ready.builder_addresses == request.builder_addresses,
        ready.state_block_number == env.number,
        ready.env.number@ == request.block_number,
        ready.env.beneficiary == request.coinbase,
        ready.env.gas_limit == env.gas_limit,
        ready.env.difficulty == env.difficulty,
        request.timestamp is Some ==> ready.env.timestamp@ == request.timestamp->0,
        request.timestamp is None && env.timestamp@ + 12 < u256::modulus()
            ==> ready.env.timestamp@ == env.timestamp@ + 12,
        request.base_fee is Some && request.base_fee->0 <= u64::MAX ==> ready.env.basefee
            == request.base_fee->0,
        request.base_fee is None ==> parent is Some,
        request.base_fee is None && parent->0.base_fee_per_gas is None ==> ready.env.basefee
            == env.basefee,
        request.base_fee is None && parent->0.base_fee_per_gas is Some ==> ready.env.basefee
            == fees::next_base_fee(
            parent->0.gas_used,
            parent->0.gas_limit,
            parent->0.base_fee_per_gas->0,
            parent->0.params,
        ),
        ({
            let last = ready.transactions@[recovered@.len() - 1];
            let pays = last.to is Some && last.to->0@ == request.proposer_address@;
            let own = last.to is Some && request.coinbase@ == request.proposer_address@;
            &&& ready.payment.from_builder == last.signer
            &&& ready.payment.to_proposer == last.to
            &&& ready.payment.actual_value == last.value
            &&& ready.payment.option >= 2 <==> pays
            &&& ready.payment.option == 1 || ready.payment.option == 3 <==> own
            &&& ready.payment.option <= 3
        }),
{
    if request.timestamp is None && env.timestamp@ + 12 < u256::modulus() {
        vstd::arithmetic::div_mod::lemma_small_mod(env.timestamp@ + 12, u256::modulus());
    }
    if request.base_fee is Some && request.base_fee->0 <= u64::MAX {
        vstd::arithmetic::div_mod::lemma_small_mod(
            request.base_fee->0 as nat,
            0x1_0000_0000_0000_0000,
        );
    }
}

/// A block that names no base fee needs its parent; without one it is turned down.
pub proof fn a_block_without_a_base_fee_needs_its_parent<E>(
    simulation: SimulateEnv,
    parent: Option<ParentBlock>,
    r: Result<SimulateReady, BundleFailure<E>>,
    lookup: Option<u64>,
)
    requires
        call_ensures(SimulateEnv::with_parent::<E>, (simulation, parent), r),
        call_ensures(SimulateEnv::parent_lookup, (&simulation,), lookup),
    ensures
        r is Err <==> simulation.request.base_fee is None && parent is None,
        r is Err ==> (r->Err_0 matches BundleFailure::InvalidParams(words) && words@
            == "bundle missing blockNumber"@),
        lookup is Some <==> simulation.request.base_fee is None,
        lookup is Some && simulation.env.number@ <= u64::MAX ==> lookup->0 == simulation.env.number@,
{
}

/// Where a recovery fails, the request fails with the error of the first that did.
pub proof fn a_failed_recovery_fails_the_request<E>(
    bundle: CallBundle,
    block: SimulateBlock,
    recovered: Vec<Result<Transaction, E>>,
    call: Result<CallTransactions, BundleFailure<E>>,
    simulation: Result<SimulateTransactions, BundleFailure<E>>,
    i: int,
)
    requires
        call_ensures(CallBundle::with_transactions::<E>, (bundle, recovered), call),
        call_ensures(SimulateBlock::with_transactions::<E>, (block, recovered), simulation),
        0 <= i < recovered@.len(),
        recovered@[i] is Err,
        forall|j: int| 0 <= j < i ==> (#[trigger] recovered@[j]) is Ok,
    ensures
        call matches Err(BundleFailure::Outside(error)) && error == recovered@[i]->Err_0,
        simulation matches Err(BundleFailure::Outside(error)) && error == recovered@[i]->Err_0,
{
    if let Err(BundleFailure::Outside(error)) = call {
        the_first_failure_is_told(recovered@, error, i);
    }
    if let Err(BundleFailure::Outside(error)) = simulation {
        the_first_failure_is_told(recovered@, error, i);
    }
}

/// The blob parameters are looked up exactly where any transaction uses blob gas, at the timestamp of
/// the simulated block.
pub proof fn blobs_are_looked_up_at_the_timestamp(call: CallEnv, lookup: Option<u64>)
    requires
        call_ensures(CallEnv::blob_lookup, (&call,), lookup),
    ensures
        lookup is Some <==> call.blob_gas_used > 0,
        lookup is Some && call.env.timestamp@ <= u64::MAX ==> lookup->0 == call.env.timestamp@,
{
}

} // verus!
