//! The account kept while the transactions of a bundle or block execute one after another: gas,
//! fees, and what reaches the coinbase.

use vstd::prelude::*;
use crate::bundle::{
    BlockEnv, BundleFailure, CallReady, Payment, SimulateReady, Transaction,
};
use crate::bytes::{copy_bytes, Address, Bytes, B256};
use crate::fees;
use crate::fees::effective_tip_per_gas;
use crate::hash;
use crate::hash::keccak256;
use crate::u256;
use crate::u256::{checked_div, saturating_sub, wrapping_add, wrapping_mul, U256};

verus! {

/// What executing one transaction came to.
#[derive(Debug)]
pub struct Execution {
    /// The gas it used.
    pub gas_used: u64,
    /// Whether it succeeded.
    pub success: bool,
    /// What it returned, where it returned anything.
    pub output: Option<Bytes>,
    /// The balance of the coinbase in the state it left, where that account is part of it.
    pub coinbase_balance: Option<U256>,
}

/// How the attempt to execute one transaction ended.
#[derive(Debug)]
pub enum Outcome<E> {
    /// Its blobs do not hold up; the text says how.
    BlobInvalid(String),
    /// The execution could not be carried out.
    Failed(E),
    /// It was executed.
    Executed(Execution),
}

/// Result of a single transaction in a bundle.
#[derive(Clone, Debug, PartialEq, Eq)]
pub struct EthCallBundleTransactionResult {
    /// The difference in Ether sent to the coinbase after the transaction.
    pub coinbase_diff: U256,
    /// The amount of Ether sent to the coinbase after the transaction.
    pub eth_sent_to_coinbase: U256,
    /// The address from which the transaction originated.
    pub from_address: Address,
    /// The gas fees paid for the transaction.
    pub gas_fees: U256,
    /// The gas price used for the transaction.
    pub gas_price: U256,
    /// The amount of gas used by the transaction.
    pub gas_used: u64,
    /// The address to which the transaction is sent.
    pub to_address: Option<Address>,
    /// The transaction hash.
    pub tx_hash: B256,
    /// The return data if the transaction succeeded.
    pub value: Option<Bytes>,
    /// The return data if the transaction reverted.
    pub revert: Option<Bytes>,
}

/// A transaction result, with numbers for 256-bit integers and sequences for byte strings.
pub struct ResultView {
    /// See [`EthCallBundleTransactionResult::coinbase_diff`].
    pub coinbase_diff: nat,
    /// See [`EthCallBundleTransactionResult::eth_sent_to_coinbase`].
    pub eth_sent_to_coinbase: nat,
    /// See [`EthCallBundleTransactionResult::from_address`].
    pub from_address: Address,
    /// See [`EthCallBundleTransactionResult::gas_fees`].
    pub gas_fees: nat,
    /// See [`EthCallBundleTransactionResult::gas_price`].
    pub gas_price: nat,
    /// See [`EthCallBundleTransactionResult::gas_used`].
    pub gas_used: u64,
    /// See [`EthCallBundleTransactionResult::to_address`].
    pub to_address: Option<Address>,
    /// See [`EthCallBundleTransactionResult::tx_hash`].
    pub tx_hash: B256,
    /// See [`EthCallBundleTransactionResult::value`].
    pub value: Option<Seq<u8>>,
    /// See [`EthCallBundleTransactionResult::revert`].
    pub revert: Option<Seq<u8>>,
}

/// An optional byte string, as a sequence.
pub open spec fn optional_bytes(b: Option<Bytes>) -> Option<Seq<u8>> {
    match b {
        Some(b) => Some(b@),
        None => None,
    }
}

impl View for EthCallBundleTransactionResult {
    type V = ResultView;

    open spec fn view(&self) -> ResultView {
        ResultView {
            coinbase_diff: self.coinbase_diff@,
            eth_sent_to_coinbase: self.eth_sent_to_coinbase@,
            from_address: self.from_address,
            gas_fees: self.gas_fees@,
            gas_price: self.gas_price@,
            gas_used: self.gas_used,
            to_address: self.to_address,
            tx_hash: self.tx_hash,
            value: optional_bytes(self.value),
            revert: optional_bytes(self.revert),
        }
    }
}

/// An optional balance, zero where there is none.
pub open spec fn balance_or_zero(b: Option<U256>) -> nat {
    match b {
        Some(b) => b@,
        None => 0,
    }
}

/// An optional balance, zero where there is none.
fn or_zero(b: Option<U256>) -> (r: U256)
    ensures
        r@ == balance_or_zero(b),
{
    match b {
        Some(b) => b,
        None => U256::zero(),
    }
}

/// The history of a run: what it was given, and every execution so far.
pub struct History {
    /// The transactions, in order.
    pub transactions: Seq<Transaction>,
    /// The base fee they execute at.
    pub basefee: u64,
    /// The balance of the coinbase before the first of them.
    pub initial: nat,
    /// The executions so far, in order.
    pub executed: Seq<Execution>,
}

impl History {
    /// The balance of the coinbase once the first `i` transactions have executed.
    pub open spec fn coinbase(self, i: int) -> nat {
        if i <= 0 {
            self.initial
        } else {
            balance_or_zero(self.executed[i - 1].coinbase_balance)
        }
    }

    /// The tip per gas of transaction `i`.
    pub open spec fn tip(self, i: int) -> Option<u128> {
        let tx = self.transactions[i];
        fees::effective_tip(tx.max_fee_per_gas, tx.max_priority_fee_per_gas, self.basefee)
    }

    /// The fees that transaction `i` paid: its gas at its tip.
    pub open spec fn fee(self, i: int) -> nat {
        (self.executed[i].gas_used * self.tip(i)->0) as nat
    }

    /// By how much transaction `i` raised the balance of the coinbase; zero where it lowered it.
    pub open spec fn gain(self, i: int) -> nat {
        u256::monus(self.coinbase(i + 1), self.coinbase(i))
    }

    /// The gas that the first `n` transactions used.
    pub open spec fn gas(self, n: int) -> nat
        decreases n,
    {
        if n <= 0 {
            0
        } else {
            self.gas(n - 1) + self.executed[n - 1].gas_used as nat
        }
    }

    /// The fees that the first `n` transactions paid.
    pub open spec fn fees(self, n: int) -> nat
        decreases n,
    {
        if n <= 0 {
            0
        } else {
            self.fees(n - 1) + self.fee(n - 1)
        }
    }

    /// What is reported of transaction `i`. Its output is the value where it succeeded and the
    /// revert data where it did not, empty where it returned nothing.
    pub open spec fn result(self, i: int) -> ResultView {
        let tx = self.transactions[i];
        let execution = self.executed[i];
        let output = match execution.output {
            Some(output) => output@,
            None => Seq::<u8>::empty(),
        };
        ResultView {
            coinbase_diff: self.gain(i),
            eth_sent_to_coinbase: u256::monus(self.gain(i), self.fee(i)),
            from_address: tx.signer,
            gas_fees: self.fee(i),
            gas_price: self.tip(i)->0 as nat,
            gas_used: execution.gas_used,
            to_address: tx.to,
            tx_hash: tx.hash,
            value: if execution.success {
                Some(output)
            } else {
                None
            },
            revert: if execution.success {
                None
            } else {
                Some(output)
            },
        }
    }

    /// What is reported of every transaction so far.
    pub open spec fn results(self) -> Seq<ResultView> {
        Seq::new(self.executed.len(), |i: int| self.result(i))
    }

    /// Whether this is the history of a run: no more executions than transactions, each at a fee
    /// cap that covers the base fee, and no more gas in all than a 64-bit number holds.
    pub open spec fn wf(self) -> bool {
        &&& self.executed.len() <= self.transactions.len()
        &&& self.gas(self.executed.len() as int) <= u64::MAX
        &&& forall|i: int| 0 <= i < self.executed.len() ==> (#[trigger] self.tip(i)) is Some
    }

    /// Whether every transaction has executed.
    pub open spec fn complete(self) -> bool {
        self.executed.len() == self.transactions.len()
    }

    /// The history once another transaction has executed.
    pub open spec fn extended(self, execution: Execution) -> History {
        History { executed: self.executed.push(execution), ..self }
    }
}

/// The hashes of the transactions, one after another.
pub open spec fn joined_hashes(txs: Seq<Transaction>) -> Seq<u8>
    decreases txs.len(),
{
    if txs.len() == 0 {
        Seq::empty()
    } else {
        joined_hashes(txs.drop_last()) + txs.last().hash@
    }
}

/// A run of transactions, executed one after another on the same state.
pub struct Run {
    transactions: Vec<Transaction>,
    basefee: u64,
    apply_last: bool,
    initial: U256,
    balance: U256,
    total_gas_used: u64,
    total_gas_fees: U256,
    hashes: Vec<u8>,
    results: Vec<EthCallBundleTransactionResult>,
    executed: Ghost<Seq<Execution>>,
}

impl View for Run {
    type V = History;

    closed spec fn view(&self) -> History {
        History {
            transactions: self.transactions@,
            basefee: self.basefee,
            initial: self.initial@,
            executed: self.executed@,
        }
    }
}

/// Adding an execution leaves every figure of the earlier ones as it was.
proof fn lemma_extended(h: History, e: Execution)
    ensures
        forall|i: int| 0 <= i < h.executed.len() ==> h.extended(e).executed[i] == h.executed[i],
        forall|i: int| 0 <= i < h.executed.len() ==> #[trigger] h.extended(e).result(i) == h.result(i),
        forall|i: int| #[trigger] h.extended(e).tip(i) == h.tip(i),
        forall|i: int| 0 <= i <= h.executed.len() ==> #[trigger] h.extended(e).coinbase(i) == h.coinbase(i),
        forall|i: int| 0 <= i < h.executed.len() ==> #[trigger] h.extended(e).fee(i) == h.fee(i),
        forall|n: int| n <= h.executed.len() ==> #[trigger] h.extended(e).gas(n) == h.gas(n),
        forall|n: int| n <= h.executed.len() ==> #[trigger] h.extended(e).fees(n) == h.fees(n),
{
    assert forall|n: int| n <= h.executed.len() implies #[trigger] h.extended(e).gas(n) == h.gas(
        n,
    ) by {
        lemma_extended_sums(h, e, n);
    }
    assert forall|n: int| n <= h.executed.len() implies #[trigger] h.extended(e).fees(n) == h.fees(
        n,
    ) by {
        lemma_extended_sums(h, e, n);
    }
}

/// Adding an execution leaves the sums over the earlier ones as they were.
proof fn lemma_extended_sums(h: History, e: Execution, n: int)
    requires
        n <= h.executed.len(),
    ensures
        h.extended(e).gas(n) == h.gas(n),
        h.extended(e).fees(n) == h.fees(n),
    decreases n,
{
    if n > 0 {
        lemma_extended_sums(h, e, n - 1);
        assert(h.extended(e).executed[n - 1] == h.executed[n - 1]);
    }
}

/// The fees of a run are far below the largest 256-bit number, whatever was executed.
proof fn lemma_fees_bound(h: History, n: int)
    requires
        h.wf(),
        0 <= n <= h.executed.len(),
    ensures
        h.fees(n) <= h.gas(n) * u128::MAX,
    decreases n,
{
    if n > 0 {
        lemma_fees_bound(h, n - 1);
        let gas = h.executed[n - 1].gas_used;
        assert(h.tip(n - 1) is Some);
        let tip = h.tip(n - 1)->0;
        assert(gas * tip <= gas * u128::MAX) by (nonlinear_arith)
            requires
                tip <= u128::MAX,
                0 <= gas,
        ;
        assert((h.gas(n - 1) + gas) * u128::MAX == h.gas(n - 1) * u128::MAX + gas * u128::MAX)
            by (nonlinear_arith);
    } else {
        assert(h.gas(0) * u128::MAX == 0) by (nonlinear_arith)
            requires
                h.gas(0) == 0,
        ;
    }
}

/// A product of a 64-bit number and a 128-bit one is below the largest 256-bit number.
proof fn lemma_fee_fits(gas: u64, tip: u128)
    ensures
        0 <= gas * tip <= u64::MAX * u128::MAX,
        u64::MAX * u128::MAX < u256::modulus(),
{
    assert(0 <= gas * tip <= u64::MAX * u128::MAX) by (nonlinear_arith)
        requires
            0 <= gas <= u64::MAX,
            0 <= tip <= u128::MAX,
    ;
}

/// A history extended by an execution that fits is a history again, and its fees are a 256-bit
/// number.
proof fn lemma_extended_wf(h: History, e: Execution)
    requires
        h.wf(),
        !h.complete(),
        h.gas(h.executed.len() as int) + e.gas_used <= u64::MAX,
        h.tip(h.executed.len() as int) is Some,
    ensures
        h.extended(e).wf(),
        h.extended(e).gas(h.executed.len() as int + 1) == h.gas(h.executed.len() as int) + e.gas_used,
        h.extended(e).fees(h.executed.len() as int + 1) < u256::modulus(),
{
    let next = h.extended(e);
    let done = h.executed.len() as int;
    lemma_extended(h, e);
    assert(next.executed[done] == e);
    assert(next.gas(done + 1) == next.gas(done) + e.gas_used);
    assert forall|i: int| 0 <= i < next.executed.len() implies (#[trigger] next.tip(i)) is Some by {
        assert(next.tip(i) == h.tip(i));
    }
    lemma_fees_bound(next, done + 1);
    assert(next.gas(done + 1) * u128::MAX <= u64::MAX * u128::MAX) by (nonlinear_arith)
        requires
            next.gas(done + 1) <= u64::MAX,
    ;
    lemma_fee_fits(0, 0);
}

/// What is reported of one transaction, given the balance of the coinbase before and after it.
fn settle(
    tx: &Transaction,
    basefee: u64,
    before: &U256,
    after: &U256,
    execution: &Execution,
) -> (r: EthCallBundleTransactionResult)
    requires
        fees::effective_tip(tx.max_fee_per_gas, tx.max_priority_fee_per_gas, basefee) is Some,
        after@ == balance_or_zero(execution.coinbase_balance),
    ensures
        r@ == (History {
            transactions: seq![*tx],
            basefee,
            initial: before@,
            executed: seq![*execution],
        }).result(0),
{
    let gas_price: u128 = match effective_tip_per_gas(
        tx.max_fee_per_gas,
        tx.max_priority_fee_per_gas,
        basefee,
    ) {
        Some(tip) => tip,
        None => 0,
    };
    let gas_used = execution.gas_used;
    proof {
        lemma_fee_fits(gas_used, gas_price);
        vstd::arithmetic::div_mod::lemma_small_mod(
            (gas_used * gas_price) as nat,
            u256::modulus(),
        );
    }
    let gas_fees = wrapping_mul(&U256::from_u64(gas_used), &U256::from_u128(gas_price));
    let coinbase_diff = saturating_sub(after, before);
    let eth_sent_to_coinbase = saturating_sub(&coinbase_diff, &gas_fees);
    let output: Bytes = match &execution.output {
        Some(output) => copy_bytes(output.as_slice()),
        None => Vec::new(),
    };
    let (value, revert) = if execution.success {
        (Some(output), None)
    } else {
        (None, Some(output))
    };
    EthCallBundleTransactionResult {
        coinbase_diff,
        eth_sent_to_coinbase,
        from_address: tx.signer,
        gas_fees,
        gas_price: U256::from_u128(gas_price),
        gas_used,
        to_address: tx.to,
        tx_hash: tx.hash,
        value,
        revert,
    }
}

impl Run {
    /// Whether the running figures are those of the history.
    pub closed spec fn wf(self) -> bool {
        let done = self.executed@.len() as int;
        &&& self@.wf()
        &&& self.balance@ == self@.coinbase(done)
        &&& self.total_gas_used == self@.gas(done)
        &&& self.total_gas_fees@ == self@.fees(done)
        &&& self.hashes@ == joined_hashes(self.transactions@.take(done))
        &&& self.results@.len() == done
        &&& forall|i: int| 0 <= i < done ==> (#[trigger] self.results@[i])@ == self@.result(i)
    }

    /// Whether the changes of the last transaction are applied too.
    pub closed spec fn applies_last(self) -> bool {
        self.apply_last
    }

    /// Starts a run. `apply_last` says whether the changes of the last transaction are to be
    /// applied as well, or only those that a later transaction builds on.
    pub fn start(
        transactions: Vec<Transaction>,
        basefee: u64,
        initial: U256,
        apply_last: bool,
    ) -> (r: Run)
        ensures
            r.wf(),
            r@.wf(),
            r.applies_last() == apply_last,
            r@ == (History {
                transactions: transactions@,
                basefee,
                initial: initial@,
                executed: Seq::empty(),
            }),
    {
        let r = Run {
            transactions,
            basefee,
            apply_last,
            initial,
            balance: initial,
            total_gas_used: 0,
            total_gas_fees: U256::zero(),
            hashes: Vec::new(),
            results: Vec::new(),
            executed: Ghost(Seq::empty()),
        };
        assert(r.transactions@.take(0) =~= Seq::<Transaction>::empty());
        r
    }

    /// The place of the transaction to execute next; `None` once all have.
    pub fn next(&self) -> (r: Option<usize>)
        requires
            self.wf(),
        ensures
            r is None <==> self@.complete(),
            r is Some ==> r->0 == self@.executed.len() && r->0 < self@.transactions.len(),
    {
        if self.results.len() < self.transactions.len() {
            Some(self.results.len())
        } else {
            None
        }
    }

    /// Whether the execution of the next transaction can be entered: its fee cap covers the base fee,
    /// and the gas so far and its own come to a 64-bit number.
    pub open spec fn accepts(self, gas_used: u64) -> bool {
        let done = self@.executed.len() as int;
        self@.gas(done) + gas_used <= u64::MAX && self@.tip(done) is Some
    }

    /// Tells whether the execution of the next transaction can be entered, if there is a next one.
    pub fn can_enter(&self, gas_used: u64) -> (r: bool)
        requires
            self.wf(),
        ensures
            r <==> !self@.complete() && self.accepts(gas_used),
    {
        let done = self.results.len();
        if done >= self.transactions.len() {
            return false;
        }
        let tx = self.transactions[done];
        let tip = effective_tip_per_gas(
            tx.max_fee_per_gas,
            tx.max_priority_fee_per_gas,
            self.basefee,
        );
        tip.is_some() && gas_used <= u64::MAX - self.total_gas_used
    }

    /// Enters how the next transaction ended, and says whether its changes are to be applied to the
    /// state before going on.
    ///
    /// Invalid blobs and a failed execution end the run.
    pub fn record<E>(&mut self, outcome: Outcome<E>) -> (r: Result<bool, BundleFailure<E>>)
        requires
            old(self).wf(),
            !old(self)@.complete(),
            match outcome {
                Outcome::Executed(execution) => old(self).accepts(execution.gas_used),
                _ => true,
            },
        ensures
            final(self).wf(),
            final(self)@.wf(),
            final(self).applies_last() == old(self).applies_last(),
            match outcome {
                Outcome::BlobInvalid(words) => {
                    &&& r matches Err(BundleFailure::InvalidParams(told)) && told == words
                    &&& final(self)@ == old(self)@
                },
                Outcome::Failed(error) => {
                    &&& r matches Err(BundleFailure::Outside(told)) && told == error
                    &&& final(self)@ == old(self)@
                },
                Outcome::Executed(execution) => {
                    &&& final(self)@ == old(self)@.extended(execution)
                    &&& r is Ok
                    &&& r->Ok_0 <==> (old(self).applies_last() || !final(self)@.complete())
                },
            },
    {
        let execution = match outcome {
            Outcome::BlobInvalid(words) => {
                return Err(BundleFailure::InvalidParams(words));
            },
            Outcome::Failed(error) => {
                return Err(BundleFailure::Outside(error));
            },
            Outcome::Executed(execution) => execution,
        };
        let done: usize = self.results.len();
        let ghost h = self@;
        let ghost next = h.extended(execution);
        proof {
            lemma_extended(h, execution);
            lemma_extended_wf(h, execution);
        }
        let tx = self.transactions[done];
        self.hashes.extend_from_slice(tx.hash.as_slice());
        assert(self.hashes@ == joined_hashes(self.transactions@.take(done + 1))) by {
            let taken = self.transactions@.take(done + 1);
            assert(taken.drop_last() =~= self.transactions@.take(done as int));
            assert(taken.last() == tx);
        }
        self.total_gas_used = self.total_gas_used + execution.gas_used;

        let balance = or_zero(execution.coinbase_balance);
        let result = settle(&tx, self.basefee, &self.balance, &balance, &execution);
        assert(result@ == next.result(done as int));
        self.balance = balance;
        self.total_gas_fees = wrapping_add(&self.total_gas_fees, &result.gas_fees);
        assert(self.total_gas_fees@ == next.fees(done + 1)) by {
            assert(result@.gas_fees == next.fee(done as int));
            assert(next.fees(done + 1) == next.fees(done as int) + next.fee(done as int));
            vstd::arithmetic::div_mod::lemma_small_mod(next.fees(done + 1), u256::modulus());
        }
        let ghost before = self.results@;
        self.results.push(result);
        proof {
            self.executed@ = self.executed@.push(execution);
            assert(self@ == next);
            assert forall|i: int| 0 <= i < done + 1 implies (#[trigger] self.results@[i])@
                == next.result(i) by {
                if i < done {
                    assert(self.results@[i] == before[i]);
                    assert(next.result(i) == h.result(i));
                }
            }
        }
        Ok(self.apply_last || self.results.len() < self.transactions.len())
    }
}

/// The answer to a bundle request.
#[derive(Debug)]
pub struct EthCallBundleResponse {
    /// The hash of the bundle bodies.
    pub bundle_hash: B256,
    /// The gas price of the entire bundle.
    pub bundle_gas_price: U256,
    /// The difference in Ether sent to the coinbase after all transactions in the bundle.
    pub coinbase_diff: U256,
    /// The total amount of Ether sent to the coinbase after all transactions in the bundle.
    pub eth_sent_to_coinbase: U256,
    /// The total gas fees paid for all transactions in the bundle.
    pub gas_fees: U256,
    /// Results of individual transactions within the bundle.
    pub results: Vec<EthCallBundleTransactionResult>,
    /// The block number used as a base for this simulation.
    pub state_block_number: u64,
    /// The total gas used by all transactions in the bundle.
    pub total_gas_used: u64,
}

/// The answer to a block request.
#[derive(Clone, Debug, PartialEq, Eq)]
pub struct EthSimulateBlockResponse {
    /// The balance of the coinbase before the block.
    pub coinbase_before: U256,
    /// The balance of the coinbase after the block.
    pub coinbase_after: U256,
    /// The balance of the builders before the block.
    pub builder_balances_before: Vec<U256>,
    /// The balance of the builders after the block.
    pub builder_balances_after: Vec<U256>,
    /// The total gas fees paid for all transactions in the bundle.
    pub gas_fees: U256,
    /// Results of individual transactions within the bundle.
    pub results: Vec<EthCallBundleTransactionResult>,
    /// The block number used as a base for this simulation.
    pub state_block_number: u64,
    /// The total gas used by all transactions in the bundle.
    pub total_gas_used: u64,
    /// How the block pays its proposer.
    pub option: u64,
    /// Who signed the last transaction.
    pub from_builder: Address,
    /// Whom the last transaction calls.
    pub to_proposer: Option<Address>,
    /// The wei that the last transaction carries.
    pub actual_value: U256,
}

impl Default for EthSimulateBlockResponse {
    fn default() -> (r: EthSimulateBlockResponse)
        ensures
            r.coinbase_before@ == 0,
            r.coinbase_after@ == 0,
            r.builder_balances_before@.len() == 0,
            r.builder_balances_after@.len() == 0,
            r.gas_fees@ == 0,
            r.results@.len() == 0,
            r.state_block_number == 0,
            r.total_gas_used == 0,
            r.option == 0,
            r.from_builder@ == Seq::new(20, |i: int| 0u8),
            r.to_proposer is None,
            r.actual_value@ == 0,
    {
        let nobody: Address = [0;20];
        assert(nobody@ =~= Seq::new(20, |i: int| 0u8));
        EthSimulateBlockResponse {
            coinbase_before: U256::zero(),
            coinbase_after: U256::zero(),
            builder_balances_before: Vec::new(),
            builder_balances_after: Vec::new(),
            gas_fees: U256::zero(),
            results: Vec::new(),
            state_block_number: 0,
            total_gas_used: 0,
            option: 0,
            from_builder: nobody,
            to_proposer: None,
            actual_value: U256::zero(),
        }
    }
}

/// Whether the list of results is what a history reports.
pub open spec fn reported(results: Seq<EthCallBundleTransactionResult>, h: History) -> bool {
    &&& results.len() == h.executed.len()
    &&& forall|i: int| 0 <= i < results.len() ==> (#[trigger] results[i])@ == h.result(i)
}

/// A bundle while it executes.
pub struct CallRun {
    /// The run of its transactions.
    pub run: Run,
    /// The number of the block whose state the simulation starts from.
    pub state_block_number: U256,
}

impl CallReady {
    /// Takes the balance of the coinbase, where that account exists, and starts the run.
    ///
    /// The changes of the last transaction are not applied: nothing builds on them.
    pub fn start(self, coinbase_balance: Option<U256>) -> (r: CallRun)
        ensures
            r.run.wf(),
            r.run@.wf(),
            !r.run.applies_last(),
            r.run@ == (History {
                transactions: self.transactions@,
                basefee: self.env.basefee,
                initial: balance_or_zero(coinbase_balance),
                executed: Seq::empty(),
            }),
            r.state_block_number == self.state_block_number,
    {
        CallRun {
            run: Run::start(self.transactions, self.env.basefee, or_zero(coinbase_balance), false),
            state_block_number: self.state_block_number,
        }
    }
}

impl CallRun {
    /// Answers the request once every transaction has executed.
    pub fn finish(self) -> (r: EthCallBundleResponse)
        requires
            self.run.wf(),
            self.run@.complete(),
            self.state_block_number@ <= u64::MAX,
        ensures
            ({
                let h = self.run@;
                let n = h.executed.len() as int;
                let gain = u256::monus(h.coinbase(n), h.initial);
                &&& r.bundle_hash@ == hash::keccak256_of(joined_hashes(h.transactions))
                &&& r.coinbase_diff@ == gain
                &&& r.gas_fees@ == h.fees(n)
                &&& r.eth_sent_to_coinbase@ == u256::monus(gain, h.fees(n))
                &&& r.total_gas_used == h.gas(n)
                &&& r.bundle_gas_price@ == (if h.gas(n) == 0 {
                    0
                } else {
                    gain / h.gas(n)
                })
                &&& r.state_block_number == self.state_block_number@
                &&& reported(r.results@, h)
            }),
            forall|i: int|
                #![trigger r.results@[i]]
                0 <= i < r.results@.len() ==> {
                    let execution = self.run@.executed[i];
                    let output = if execution.output is Some {
                        execution.output->0@
                    } else {
                        Seq::<u8>::empty()
                    };
                    &&& r.results@[i].gas_used == execution.gas_used
                    &&& execution.success ==> r.results@[i].revert is None && r.results@[i].value is Some
                        && r.results@[i].value->0@ == output
                    &&& !execution.success ==> r.results@[i].value is None && r.results@[i].revert is Some
                        && r.results@[i].revert->0@ == output
                },
    {
        let run = self.run;
        let coinbase_diff = saturating_sub(&run.balance, &run.initial);
        let eth_sent_to_coinbase = saturating_sub(&coinbase_diff, &run.total_gas_fees);
        let bundle_gas_price = or_zero(
            checked_div(&coinbase_diff, &U256::from_u64(run.total_gas_used)),
        );
        assert(run.transactions@.take(run.transactions@.len() as int) =~= run.transactions@);
        let bundle_hash = keccak256(run.hashes.as_slice());
        EthCallBundleResponse {
            bundle_gas_price,
            bundle_hash,
            coinbase_diff,
            eth_sent_to_coinbase,
            gas_fees: run.total_gas_fees,
            results: run.results,
            state_block_number: self.state_block_number.saturating_to_u64(),
            total_gas_used: run.total_gas_used,
        }
    }
}

/// A simulated block while it executes.
pub struct SimulateRun {
    /// The run of its transactions.
    pub run: Run,
    /// The number of the block whose state the simulation starts from.
    pub state_block_number: U256,
    /// How the block pays its proposer.
    pub payment: Payment,
    /// The balances of the builder's addresses before the block.
    pub builder_balances: Vec<U256>,
}

/// Whether each balance is the one found, or zero where none was.
pub open spec fn balances_found(balances: Seq<U256>, found: Seq<Option<U256>>) -> bool {
    &&& balances.len() == found.len()
    &&& forall|i: int| 0 <= i < found.len() ==> (#[trigger] balances[i])@ == balance_or_zero(found[i])
}

/// Each balance found, or zero where none was.
fn found_balances(found: &Vec<Option<U256>>) -> (r: Vec<U256>)
    ensures
        balances_found(r@, found@),
{
    let mut balances: Vec<U256> = Vec::new();
    let mut i: usize = 0;
    while i < found.len()
        invariant
            i <= found.len(),
            balances@.len() == i,
            forall|j: int| 0 <= j < i ==> (#[trigger] balances@[j])@ == balance_or_zero(found@[j]),
        decreases found.len() - i,
    {
        balances.push(or_zero(found[i]));
        i += 1;
    }
    balances
}

impl SimulateReady {
    /// Takes the balance of the coinbase and of each of the builder's addresses, where those
    /// accounts exist, and starts the run.
    ///
    /// The changes of every transaction are applied, so that the balances of the builder can be
    /// read off the state after the whole block.
    pub fn start(self, coinbase_balance: Option<U256>, builders: Vec<Option<U256>>) -> (r: SimulateRun)
        requires
            builders@.len() == self.builder_addresses@.len(),
        ensures
            r.run.wf(),
            r.run@.wf(),
            r.run.applies_last(),
            r.run@ == (History {
                transactions: self.transactions@,
                basefee: self.env.basefee,
                initial: balance_or_zero(coinbase_balance),
                executed: Seq::empty(),
            }),
            r.state_block_number == self.state_block_number,
            r.payment == self.payment,
            balances_found(r.builder_balances@, builders@),
    {
        SimulateRun {
            run: Run::start(self.transactions, self.env.basefee, or_zero(coinbase_balance), true),
            state_block_number: self.state_block_number,
            payment: self.payment,
            builder_balances: found_balances(&builders),
        }
    }
}

impl SimulateRun {
    /// Answers the request once every transaction has executed, given the balances of the builder
    /// in the state after them.
    pub fn finish(self, builders: Vec<Option<U256>>) -> (r: EthSimulateBlockResponse)
        requires
            self.run.wf(),
            self.run@.complete(),
            self.state_block_number@ <= u64::MAX,
            builders@.len() == self.builder_balances@.len(),
        ensures
            ({
                let h = self.run@;
                let n = h.executed.len() as int;
                &&& r.coinbase_before@ == h.initial
                &&& r.coinbase_after@ == h.coinbase(n)
                &&& r.builder_balances_before == self.builder_balances
                &&& balances_found(r.builder_balances_after@, builders@)
                &&& r.gas_fees@ == h.fees(n)
                &&& r.total_gas_used == h.gas(n)
                &&& r.state_block_number == self.state_block_number@
                &&& reported(r.results@, h)
                &&& r.option == self.payment.option
                &&& r.from_builder == self.payment.from_builder
                &&& r.to_proposer == self.payment.to_proposer
                &&& r.actual_value == self.payment.actual_value
            }),
            forall|i: int|
                #![trigger r.results@[i]]
                0 <= i < r.results@.len() ==> {
                    let execution = self.run@.executed[i];
                    let output = if execution.output is Some {
                        execution.output->0@
                    } else {
                        Seq::<u8>::empty()
                    };
                    &&& r.results@[i].gas_used == execution.gas_used
                    &&& execution.success ==> r.results@[i].revert is None && r.results@[i].value is Some
                        && r.results@[i].value->0@ == output
                    &&& !execution.success ==> r.results@[i].value is None && r.results@[i].revert is Some
                        && r.results@[i].revert->0@ == output
                },
    {
        let run = self.run;
        EthSimulateBlockResponse {
            coinbase_before: run.initial,
            coinbase_after: run.balance,
            builder_balances_before: self.builder_balances,
            builder_balances_after: found_balances(&builders),
            gas_fees: run.total_gas_fees,
            results: run.results,
            state_block_number: self.state_block_number.saturating_to_u64(),
            total_gas_used: run.total_gas_used,
            option: self.payment.option,
            from_builder: self.payment.from_builder,
            to_proposer: self.payment.to_proposer,
            actual_value: self.payment.actual_value,
        }
    }
}

/// The history of a run whose figures are in order is in order itself, so that what holds of every
/// history holds of the run.
pub proof fn a_run_has_a_history(run: Run)
    requires
        run.wf(),
    ensures
        run@.wf(),
{
}

/// The return data of a transaction is reported either as its value or as its revert data, never
/// as both and never as neither.
pub proof fn value_excludes_revert(h: History, i: int)
    requires
        h.wf(),
        0 <= i < h.executed.len(),
    ensures
        h.result(i).value is Some <==> h.executed[i].success,
        h.result(i).value is Some <==> h.result(i).revert is None,
{
}

/// The sum of what the first `n` transactions each added to the balance of the coinbase.
pub open spec fn gains(h: History, n: int) -> nat
    decreases n,
{
    if n <= 0 {
        0
    } else {
        gains(h, n - 1) + h.result(n - 1).coinbase_diff
    }
}

/// The differences of the single transactions add up to the difference over the bundle, wherever
/// no transaction takes from the coinbase.
pub proof fn gains_add_up(h: History, n: int)
    requires
        h.wf(),
        0 <= n <= h.executed.len(),
        forall|i: int| 0 <= i < n ==> #[trigger] h.coinbase(i + 1) >= h.coinbase(i),
    ensures
        gains(h, n) == u256::monus(h.coinbase(n), h.initial),
        h.coinbase(n) >= h.initial,
    decreases n,
{
    if n > 0 {
        gains_add_up(h, n - 1);
        assert(h.coinbase((n - 1) + 1) >= h.coinbase(n - 1));
    }
}

/// Where a transaction raised the balance of the coinbase by at least its fees, what it is reported
/// to have sent and its fees come to exactly the difference it made.
pub proof fn gains_split_into_fees_and_transfers(h: History, i: int)
    requires
        h.wf(),
        0 <= i < h.executed.len(),
        h.coinbase(i + 1) >= h.coinbase(i) + h.fee(i),
    ensures
        h.result(i).eth_sent_to_coinbase + h.result(i).gas_fees == h.result(i).coinbase_diff,
        h.coinbase(i) + h.result(i).coinbase_diff == h.coinbase(i + 1),
{
}

/// The fees of the single transactions add up to the fees of the bundle without ever wrapping
/// around: they stay below `2^192`.
pub proof fn fees_never_wrap(h: History)
    requires
        h.wf(),
    ensures
        h.fees(h.executed.len() as int) <= u64::MAX * u128::MAX < u256::modulus(),
{
    let n = h.executed.len() as int;
    lemma_fees_bound(h, n);
    lemma_fee_fits(0, 0);
    assert(h.gas(n) * u128::MAX <= u64::MAX * u128::MAX) by (nonlinear_arith)
        requires
            h.gas(n) <= u64::MAX,
    ;
}

/// The hash of a bundle covers 32 bytes of every transaction, in order.
pub proof fn hash_covers_every_transaction(txs: Seq<Transaction>, i: int)
    requires
        0 <= i < txs.len(),
    ensures
        joined_hashes(txs).len() == 32 * txs.len(),
        joined_hashes(txs).subrange(32 * i, 32 * i + 32) == txs[i].hash@,
    decreases txs.len(),
{
    let init = txs.drop_last();
    let last = txs.last().hash@;
    assert(last.len() == 32);
    if init.len() > 0 {
        let j = if i < init.len() {
            i
        } else {
            0
        };
        hash_covers_every_transaction(init, j);
    }
    let all = joined_hashes(txs);
    assert(all == joined_hashes(init) + last);
    if i < init.len() {
        assert(all.subrange(32 * i, 32 * i + 32) =~= joined_hashes(init).subrange(
            32 * i,
            32 * i + 32,
        ));
    } else {
        assert(all.subrange(32 * i, 32 * i + 32) =~= last);
    }
}

/// What is reported of each transaction, figure by figure: who signed it and whom it calls, its gas, its
/// price per gas, its fees, what it brought the coinbase, and its output.
///
/// The output is the value of a transaction that succeeded and the revert data of one that did not,
/// byte for byte, and empty where nothing was returned. The price is the most that its fee cap leaves
/// over the base fee, and no more than its priority fee. The fees are that price for each gas.
pub proof fn each_transaction_is_reported_as_it_ran(
    results: Seq<EthCallBundleTransactionResult>,
    h: History,
    i: int,
)
    requires
        h.wf(),
        reported(results, h),
        0 <= i < h.executed.len(),
    ensures
        results.len() == h.executed.len(),
        ({
            let tx = h.transactions[i];
            let execution = h.executed[i];
            let r = results[i];
            let output = if execution.output is Some {
                execution.output->0@
            } else {
                Seq::<u8>::empty()
            };
            &&& execution.success ==> r.revert is None && r.value is Some && r.value->0@ == output
            &&& !execution.success ==> r.value is None && r.revert is Some && r.revert->0@ == output
            &&& r.gas_used == execution.gas_used
            &&& r.from_address == tx.signer
            &&& r.to_address == tx.to
            &&& r.tx_hash == tx.hash
            &&& r.gas_price@ + h.basefee <= tx.max_fee_per_gas
            &&& tx.max_priority_fee_per_gas is Some ==> r.gas_price@
                <= tx.max_priority_fee_per_gas->0
            &&& r.gas_price@ + h.basefee == tx.max_fee_per_gas || (tx.max_priority_fee_per_gas is Some
                && r.gas_price@ == tx.max_priority_fee_per_gas->0)
            &&& r.gas_fees@ == execution.gas_used * r.gas_price@
        }),
        ({
            let r = results[i];
            let before = if i == 0 {
                h.initial
            } else if h.executed[i - 1].coinbase_balance is Some {
                h.executed[i - 1].coinbase_balance->0@
            } else {
                0
            };
            let after = if h.executed[i].coinbase_balance is Some {
                h.executed[i].coinbase_balance->0@
            } else {
                0
            };
            &&& after >= before ==> before + r.coinbase_diff@ == after
            &&& after < before ==> r.coinbase_diff@ == 0
            &&& r.coinbase_diff@ >= r.gas_fees@ ==> r.gas_fees@ + r.eth_sent_to_coinbase@
                == r.coinbase_diff@
            &&& r.coinbase_diff@ < r.gas_fees@ ==> r.eth_sent_to_coinbase@ == 0
        }),
{
    assert(results[i]@ == h.result(i));
    assert(h.tip(i) is Some);
    assert(h.executed[i].gas_used * h.tip(i)->0 >= 0) by (nonlinear_arith);
    assert(results[i].gas_price@ == h.tip(i)->0);
}

/// A transaction that has its output as its value or as its revert data has it whole, in the history
/// as in the answer.
pub proof fn outputs_are_kept(h: History, i: int)
    requires
        h.wf(),
        0 <= i < h.executed.len(),
    ensures
        h.executed[i].output is Some && h.executed[i].success ==> h.result(i).value == Some(
            h.executed[i].output->0@,
        ),
        h.executed[i].output is Some && !h.executed[i].success ==> h.result(i).revert == Some(
            h.executed[i].output->0@,
        ),
        h.executed[i].output is None && h.executed[i].success ==> h.result(i).value == Some(
            Seq::<u8>::empty(),
        ),
        h.executed[i].output is None && !h.executed[i].success ==> h.result(i).revert == Some(
            Seq::<u8>::empty(),
        ),
{
}

/// The gas of a run is the sum of what each transaction used, and its fees the sum of what each is
/// reported to have paid.
pub proof fn totals_are_sums_over_the_transactions(h: History, n: int)
    requires
        0 <= n < h.executed.len(),
    ensures
        h.gas(0) == 0,
        h.fees(0) == 0,
        h.gas(n + 1) == h.gas(n) + h.executed[n].gas_used,
        h.fees(n + 1) == h.fees(n) + h.result(n).gas_fees,
        h.result(n).gas_fees == h.executed[n].gas_used * h.result(n).gas_price,
{
    assert(h.executed[n].gas_used * h.tip(n)->0 >= 0) by (nonlinear_arith);
}

/// The balance of the coinbase is the one before the run until a transaction has executed, and from
/// then on the one that the last left, zero where it left none.
pub proof fn the_coinbase_has_what_the_last_transaction_left(h: History, n: int)
    requires
        0 <= n < h.executed.len(),
    ensures
        h.coinbase(0) == h.initial,
        h.executed[n].coinbase_balance is Some ==> h.coinbase(n + 1)
            == h.executed[n].coinbase_balance->0@,
        h.executed[n].coinbase_balance is None ==> h.coinbase(n + 1) == 0,
{
}

/// An execution comes behind those before it and changes none of them; nothing else of the history
/// changes.
pub proof fn executions_come_one_behind_another(h: History, execution: Execution)
    ensures
        h.extended(execution).executed.len() == h.executed.len() + 1,
        h.extended(execution).executed.last() == execution,
        h.extended(execution).executed.drop_last() == h.executed,
        h.extended(execution).transactions == h.transactions,
        h.extended(execution).basefee == h.basefee,
        h.extended(execution).initial == h.initial,
{
    assert(h.extended(execution).executed.drop_last() =~= h.executed);
}

/// A history is complete exactly where every transaction has executed; in one that is in order each
/// that has executed could pay the base fee, and the gas is a 64-bit number.
pub proof fn a_history_holds_payable_transactions(h: History, i: int)
    ensures
        h.complete() <==> h.executed.len() == h.transactions.len(),
        h.wf() ==> h.executed.len() <= h.transactions.len() && h.gas(h.executed.len() as int)
            <= u64::MAX,
        h.wf() && 0 <= i < h.executed.len() ==> h.transactions[i].max_fee_per_gas >= h.basefee,
{
    if h.wf() && 0 <= i < h.executed.len() {
        assert(h.tip(i) is Some);
    }
}

/// A run takes the next execution exactly where the fee cap of its transaction covers the base fee, and
/// the gas in all is a 64-bit number.
pub proof fn a_run_takes_what_can_pay(run: Run, gas_used: u64)
    ensures
        run.accepts(gas_used) <==> run@.gas(run@.executed.len() as int) + gas_used <= u64::MAX
            && run@.transactions[run@.executed.len() as int].max_fee_per_gas >= run@.basefee,
{
}

/// A bundle of one more transaction joins one more hash, behind those before it.
pub proof fn hashes_are_joined_in_order(txs: Seq<Transaction>, tx: Transaction)
    ensures
        joined_hashes(Seq::<Transaction>::empty()).len() == 0,
        joined_hashes(txs.push(tx)) == joined_hashes(txs) + tx.hash@,
{
    assert(txs.push(tx).drop_last() =~= txs);
}

/// Balances that are found are reported as found, each in its place, and as zero where none is.
pub proof fn balances_keep_their_places(balances: Seq<U256>, found: Seq<Option<U256>>, i: int)
    requires
        balances_found(balances, found),
        0 <= i < found.len(),
    ensures
        balances.len() == found.len(),
        found[i] is Some ==> balances[i]@ == found[i]->0@,
        found[i] is None ==> balances[i]@ == 0,
{
}

/// A missing balance counts as zero, and any other as itself.
pub proof fn a_missing_balance_is_zero(balance: Option<U256>)
    ensures
        balance is None ==> balance_or_zero(balance) == 0,
        balance is Some ==> balance_or_zero(balance) == balance->0@,
{
}

/// What a result is seen as is each of its figures under its own name.
pub proof fn a_result_is_seen_field_by_field(r: EthCallBundleTransactionResult)
    ensures
        r@.coinbase_diff == r.coinbase_diff@,
        r@.eth_sent_to_coinbase == r.eth_sent_to_coinbase@,
        r@.from_address == r.from_address,
        r@.gas_fees == r.gas_fees@,
        r@.gas_price == r.gas_price@,
        r@.gas_used == r.gas_used,
        r@.to_address == r.to_address,
        r@.tx_hash == r.tx_hash,
        r@.value is Some <==> r.value is Some,
        r@.value is Some ==> r@.value->0 == r.value->0@,
        r@.revert is Some <==> r.revert is Some,
        r@.revert is Some ==> r@.revert->0 == r.revert->0@,
{
}

/// The answer to a bundle is the account of its run: what came to the coinbase in all, the fees in it
/// and what is left beside them, the gas, the price that the bundle paid for each gas, rounded down, and
/// the hash of its transactions' hashes.
pub proof fn a_bundle_is_answered_with_its_account(call: CallRun, r: EthCallBundleResponse)
    requires
        call_ensures(CallRun::finish, (call,), r),
        call.run.wf(),
        call.run@.complete(),
        call.state_block_number@ <= u64::MAX,
    ensures
        ({
            let h = call.run@;
            let n = h.executed.len() as int;
            let after = if n == 0 {
                h.initial
            } else if h.executed[n - 1].coinbase_balance is Some {
                h.executed[n - 1].coinbase_balance->0@
            } else {
                0
            };
            &&& after >= h.initial ==> h.initial + r.coinbase_diff@ == after
            &&& after < h.initial ==> r.coinbase_diff@ == 0
            &&& r.gas_fees@ == h.fees(n)
            &&& r.total_gas_used == h.gas(n)
            &&& r.coinbase_diff@ >= r.gas_fees@ ==> r.gas_fees@ + r.eth_sent_to_coinbase@
                == r.coinbase_diff@
            &&& r.coinbase_diff@ < r.gas_fees@ ==> r.eth_sent_to_coinbase@ == 0
            &&& r.total_gas_used == 0 ==> r.bundle_gas_price@ == 0
            &&& r.total_gas_used > 0 ==> r.bundle_gas_price@ * r.total_gas_used
                <= r.coinbase_diff@ < (r.bundle_gas_price@ + 1) * r.total_gas_used
            &&& r.bundle_hash@ == hash::keccak256_of(joined_hashes(h.transactions))
            &&& r.state_block_number == call.state_block_number@
            &&& r.results@.len() == h.transactions.len()
        }),
{
    let diff = r.coinbase_diff@;
    let gas = r.total_gas_used as nat;
    let price = r.bundle_gas_price@;
    if gas > 0 {
        assert(price * gas <= diff < (price + 1) * gas) by (nonlinear_arith)
            requires
                price == diff / gas,
                gas > 0,
        ;
    }
}

/// The answer to a simulated block is the account of its run, the balances of coinbase and builder before
/// and after it, and how it pays its proposer.
pub proof fn a_block_is_answered_with_its_account(
    ready: SimulateReady,
    coinbase_balance: Option<U256>,
    before: Vec<Option<U256>>,
    started: SimulateRun,
    finished: SimulateRun,
    after: Vec<Option<U256>>,
    r: EthSimulateBlockResponse,
)
    requires
        call_ensures(SimulateReady::start, (ready, coinbase_balance, before), started),
        call_ensures(SimulateRun::finish, (finished, after), r),
        before@.len() == ready.builder_addresses@.len(),
        after@.len() == before@.len(),
        finished.payment == started.payment,
        finished.builder_balances == started.builder_balances,
        finished.state_block_number == started.state_block_number,
        finished.run@.initial == started.run@.initial,
        finished.run.wf(),
        finished.run@.complete(),
        ready.state_block_number@ <= u64::MAX,
    ensures
        ({
            let h = finished.run@;
            let n = h.executed.len() as int;
            &&& coinbase_balance is Some ==> r.coinbase_before@ == coinbase_balance->0@
            &&& coinbase_balance is None ==> r.coinbase_before@ == 0
            &&& n > 0 && h.executed[n - 1].coinbase_balance is Some ==> r.coinbase_after@
                == h.executed[n - 1].coinbase_balance->0@
            &&& r.gas_fees@ == h.fees(n)
            &&& r.total_gas_used == h.gas(n)
            &&& r.results@.len() == h.transactions.len()
        }),
        r.builder_balances_before@.len() == ready.builder_addresses@.len(),
        r.builder_balances_after@.len() == ready.builder_addresses@.len(),
        forall|i: int|
            0 <= i < before@.len() && before@[i] is Some ==> (
            #[trigger] r.builder_balances_before@[i])@ == before@[i]->0@,
        forall|i: int|
            0 <= i < after@.len() && after@[i] is Some ==> (#[trigger] r.builder_balances_after@[i])@
                == after@[i]->0@,
        r.state_block_number == ready.state_block_number@,
        r.option == ready.payment.option,
        r.from_builder == ready.payment.from_builder,
        r.to_proposer == ready.payment.to_proposer,
        r.actual_value == ready.payment.actual_value,
{
}

/// A bundle and a block begin with the transactions and the base fee that they are to run with, at the
/// balance that was found for the coinbase. Of a block the changes of the last transaction are applied
/// too, of a bundle they are not.
pub proof fn a_run_begins_with_its_transactions(
    call: CallReady,
    simulation: SimulateReady,
    balance: Option<U256>,
    builders: Vec<Option<U256>>,
    bundle: CallRun,
    block: SimulateRun,
)
    requires
        call_ensures(CallReady::start, (call, balance), bundle),
        call_ensures(SimulateReady::start, (simulation, balance, builders), block),
    ensures
        bundle.run@.transactions == call.transactions@,
        bundle.run@.basefee == call.env.basefee,
        bundle.run@.executed.len() == 0,
        balance is Some ==> bundle.run@.initial == balance->0@ && block.run@.initial == balance->0@,
        balance is None ==> bundle.run@.initial == 0 && block.run@.initial == 0,
        bundle.state_block_number == call.state_block_number,
        !bundle.run.applies_last(),
        block.run@.transactions == simulation.transactions@,
        block.run@.basefee == simulation.env.basefee,
        block.run@.executed.len() == 0,
        block.state_block_number == simulation.state_block_number,
        block.run.applies_last(),
{
}

/// Each execution enters the history behind those before it, and its changes are applied unless it is
/// the last of a bundle. An execution that fails ends the run with its error, and invalid blobs with
/// their words; neither leaves a trace in the history.
pub proof fn an_execution_enters_the_history<E>(
    run: &mut Run,
    outcome: Outcome<E>,
    r: Result<bool, BundleFailure<E>>,
)
    requires
        call_ensures(Run::record::<E>, (run, outcome), r),
    ensures
        outcome matches Outcome::BlobInvalid(words) ==> final(run)@ == old(run)@ && (
        r matches Err(BundleFailure::InvalidParams(told)) && told == words),
        outcome matches Outcome::Failed(error) ==> final(run)@ == old(run)@ && (
        r matches Err(BundleFailure::Outside(told)) && told == error),
        outcome matches Outcome::Executed(execution) ==> {
            &&& final(run)@.executed.len() == old(run)@.executed.len() + 1
            &&& final(run)@.executed.last() == execution
            &&& final(run)@.executed.drop_last() == old(run)@.executed
            &&& final(run)@.transactions == old(run)@.transactions
            &&& final(run)@.basefee == old(run)@.basefee
            &&& final(run)@.initial == old(run)@.initial
            &&& r is Ok
            &&& r->Ok_0 <==> old(run).applies_last() || final(run)@.executed.len()
                != final(run)@.transactions.len()
        },
        final(run).applies_last() == old(run).applies_last(),
{
    if let Outcome::Executed(execution) = outcome {
        assert(old(run)@.extended(execution).executed.drop_last() =~= old(run)@.executed);
    }
}

} // verus!
