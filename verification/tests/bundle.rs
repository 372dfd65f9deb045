//! Simulating bundles and blocks.

use alloy_eips::eip1559::BaseFeeParams as AlloyBaseFeeParams;
use witness_bench::bundle::{
    sum_blob_gas, unknown_builder, BlockEnv, BlockNumberOrTag, BundleFailure, CallReady, EthBundle,
    EthBundleError, EthCallBundle, EthSimulateBlock, ParentBlock, Payment, SimulateReady,
    Transaction,
};
use witness_bench::fees::{effective_tip_per_gas, step_fits, BaseFeeParams, BlobParams};
use witness_bench::tally::{EthSimulateBlockResponse, Execution, Outcome};
use witness_bench::u256::U256;

type Failure = BundleFailure<&'static str>;

const LIMIT: u64 = 50_000_000;

fn u(n: u128) -> U256 {
    U256::from_u128(n)
}

fn api() -> EthBundle<&'static str, u8> {
    EthBundle::new("eth", 1)
}

fn tx(tag: u8) -> Transaction {
    Transaction {
        signer: [tag; 20],
        to: Some([tag + 100; 20]),
        value: u(5),
        hash: [tag; 32],
        blob_gas_used: None,
        max_fee_per_gas: 130,
        max_priority_fee_per_gas: Some(20),
    }
}

fn bundle(txs: usize) -> EthCallBundle {
    EthCallBundle {
        txs: vec![vec![1]; txs],
        block_number: 500,
        state_block_number: BlockNumberOrTag::Latest,
        coinbase: None,
        timestamp: None,
        gas_limit: None,
        difficulty: None,
        base_fee: None,
    }
}

fn env() -> BlockEnv {
    BlockEnv {
        number: u(499),
        beneficiary: [0xcb; 20],
        timestamp: u(1_000),
        gas_limit: 30_000_000,
        basefee: 100,
        difficulty: u(0),
    }
}

fn message(failure: Failure) -> String {
    match failure {
        BundleFailure::InvalidParams(words) => words,
        BundleFailure::GasTooHigh => "gas too high".to_string(),
        BundleFailure::Outside(error) => format!("outside: {error}"),
    }
}

fn ready(bundle: EthCallBundle, txs: Vec<Transaction>) -> Result<CallReady, Failure> {
    let recovered = txs.into_iter().map(Ok).collect();
    api()
        .call_bundle(bundle)?
        .with_transactions(recovered)?
        .with_env(env())
        .with_limits(Some(BlobParams { max_blob_count: 9 }), LIMIT)
}

#[test]
fn errors_are_worded() {
    assert_eq!(EthBundleError::EmptyBundleTransactions.message(), "bundle missing txs");
    assert_eq!(EthBundleError::BundleMissingBlockNumber.message(), "bundle missing blockNumber");
    assert_eq!(
        EthBundleError::Eip4844BlobGasExceeded(786432).message(),
        "blob gas usage exceeds the limit of 786432 gas per block."
    );
}

#[test]
fn an_empty_bundle_is_turned_down_before_a_missing_block() {
    let empty = EthCallBundle { block_number: 0, ..bundle(0) };
    assert_eq!(message(api().call_bundle(empty).unwrap_err()), "bundle missing txs");
    let unnumbered = EthCallBundle { block_number: 0, ..bundle(1) };
    assert_eq!(message(api().call_bundle(unnumbered).unwrap_err()), "bundle missing blockNumber");
}

#[test]
fn the_first_transaction_that_cannot_be_recovered_fails_the_bundle() {
    let call = api().call_bundle::<&'static str>(bundle(3)).unwrap();
    let recovered = vec![Ok(tx(1)), Err("second"), Err("third")];
    assert_eq!(message(call.with_transactions(recovered).unwrap_err()), "outside: second");
}

#[test]
fn the_environment_defaults_to_the_next_block() {
    let ready = ready(bundle(1), vec![tx(1)]).unwrap();
    assert_eq!(ready.env.number, u(500));
    assert_eq!(ready.env.timestamp, u(1_012));
    assert_eq!(ready.env.beneficiary, [0xcb; 20]);
    assert_eq!((ready.env.gas_limit, ready.env.basefee), (LIMIT, 100));
    assert_eq!(ready.state_block_number, u(499));
}

#[test]
fn the_request_replaces_the_environment() {
    let request = EthCallBundle {
        coinbase: Some([2; 20]),
        timestamp: Some(77),
        gas_limit: Some(1_000_000),
        difficulty: Some(u(8)),
        base_fee: Some(u64::MAX as u128 + 9),
        ..bundle(1)
    };
    let ready = ready(request, vec![tx(1)]).unwrap();
    assert_eq!(ready.env.timestamp, u(77));
    assert_eq!(ready.env.beneficiary, [2; 20]);
    assert_eq!(ready.env.difficulty, u(8));
    assert_eq!((ready.env.gas_limit, ready.env.basefee), (1_000_000, u64::MAX));
}

#[test]
fn a_gas_limit_above_that_of_a_call_is_too_high() {
    let request = EthCallBundle { gas_limit: Some(LIMIT + 1), ..bundle(1) };
    assert_eq!(message(ready(request, vec![tx(1)]).unwrap_err()), "gas too high");
    let request = EthCallBundle { gas_limit: Some(LIMIT), ..bundle(1) };
    assert_eq!(ready(request, vec![tx(1)]).unwrap().env.gas_limit, LIMIT);
}

fn blob(tag: u8, blobs: u64) -> Transaction {
    Transaction { blob_gas_used: Some(blobs * 131_072), ..tx(tag) }
}

#[test]
fn blob_gas_is_limited_by_the_parameters_found() {
    assert!(ready(bundle(2), vec![blob(1, 4), blob(2, 5)]).is_ok());
    let error = ready(bundle(2), vec![blob(1, 5), blob(2, 5)]).unwrap_err();
    assert_eq!(message(error), "blob gas usage exceeds the limit of 1179648 gas per block.");
}

#[test]
fn without_parameters_the_limit_is_six_blobs() {
    let env = |blobs| {
        api()
            .call_bundle::<&'static str>(bundle(1))
            .unwrap()
            .with_transactions::<&'static str>(vec![Ok(blob(1, blobs))])
            .unwrap()
            .with_env(env())
    };
    assert_eq!(env(7).blob_lookup(), Some(1_012));
    let error = env(7).with_limits::<&'static str>(None, LIMIT).unwrap_err();
    let limit = alloy_eips::eip7840::BlobParams::cancun().max_blob_gas_per_block();
    assert_eq!(message(error), EthBundleError::Eip4844BlobGasExceeded(limit).message());
    assert_eq!(limit, 786_432);
    assert!(env(6).with_limits::<&'static str>(None, LIMIT).is_ok());
    assert_eq!(sum_blob_gas(&vec![blob(1, 2), tx(2), blob(3, 1)]), Some(3 * 131_072));
    let huge = Transaction { blob_gas_used: Some(u64::MAX), ..tx(1) };
    assert_eq!(sum_blob_gas(&vec![huge, blob(2, 1)]), None);
    assert!(BlobParams { max_blob_count: 9 }.fits());
    assert!(!BlobParams { max_blob_count: u64::MAX }.fits());
}

#[test]
fn no_blob_lookup_without_blobs() {
    let env = api()
        .call_bundle::<&'static str>(bundle(1))
        .unwrap()
        .with_transactions::<&'static str>(vec![Ok(tx(1))])
        .unwrap()
        .with_env(env());
    assert_eq!(env.blob_lookup(), None);
}

fn executed(gas_used: u64, success: bool, balance: u128) -> Outcome<&'static str> {
    Outcome::Executed(Execution {
        gas_used,
        success,
        output: if success { Some(vec![1, 2]) } else { None },
        coinbase_balance: Some(u(balance)),
    })
}

#[test]
fn a_bundle_is_accounted_for() {
    let ready = ready(bundle(2), vec![tx(1), tx(2)]).unwrap();
    let mut call = ready.start(Some(u(1_000_000)));
    assert_eq!(call.run.next(), Some(0));
    assert!(call.run.can_enter(21_000));
    // The first transaction pays its tip of 20 per gas, and sends 500 besides.
    assert!(call.run.record(executed(21_000, true, 1_420_500)).unwrap());
    assert_eq!(call.run.next(), Some(1));
    // The last one's changes are not applied.
    assert!(!call.run.record(executed(30_000, false, 2_020_500)).unwrap());
    assert_eq!(call.run.next(), None);
    assert!(!call.run.can_enter(1));

    let response = call.finish();
    assert_eq!(response.total_gas_used, 51_000);
    assert_eq!(response.gas_fees, u(1_020_000));
    assert_eq!(response.coinbase_diff, u(1_020_500));
    assert_eq!(response.eth_sent_to_coinbase, u(500));
    assert_eq!(response.bundle_gas_price, u(20));
    assert_eq!(response.state_block_number, 499);
    let mut hashes = vec![1u8; 32];
    hashes.extend([2u8; 32]);
    assert_eq!(response.bundle_hash, alloy_primitives::keccak256(hashes).0);

    let first = &response.results[0];
    assert_eq!((first.coinbase_diff, first.gas_fees), (u(420_500), u(420_000)));
    assert_eq!((first.eth_sent_to_coinbase, first.gas_price), (u(500), u(20)));
    assert_eq!((first.from_address, first.to_address), ([1; 20], Some([101; 20])));
    assert_eq!((first.gas_used, first.tx_hash), (21_000, [1; 32]));
    assert_eq!((first.value.clone(), first.revert.clone()), (Some(vec![1, 2]), None));
    let second = &response.results[1];
    assert_eq!((second.value.clone(), second.revert.clone()), (None, Some(vec![])));
    assert_eq!(second.eth_sent_to_coinbase, u(0));
}

#[test]
fn gains_add_up_unless_the_coinbase_loses() {
    let ready = ready(bundle(2), vec![tx(1), tx(2)]).unwrap();
    let mut call = ready.start(None);
    call.run.record(executed(1, true, 900)).unwrap();
    call.run.record(executed(1, true, 300)).unwrap();
    let response = call.finish();
    assert_eq!(response.results[0].coinbase_diff, u(900));
    assert_eq!(response.results[1].coinbase_diff, u(0));
    assert_eq!(response.coinbase_diff, u(300));
}

#[test]
fn no_gas_means_no_gas_price() {
    let ready = ready(bundle(1), vec![tx(1)]).unwrap();
    let mut call = ready.start(None);
    call.run.record(executed(0, true, 900)).unwrap();
    assert_eq!(call.finish().bundle_gas_price, u(0));
}

#[test]
fn failed_executions_end_the_run() {
    let ready = ready(bundle(2), vec![tx(1), tx(2)]).unwrap();
    let mut call = ready.start(None);
    let failure = call.run.record(Outcome::Failed("halted")).unwrap_err();
    assert_eq!(message(failure), "outside: halted");
    let invalid = Outcome::<&'static str>::BlobInvalid("bad proof".to_string());
    assert_eq!(message(call.run.record(invalid).unwrap_err()), "bad proof");
    assert_eq!(call.run.next(), Some(0));
}

#[test]
fn the_fee_cap_must_cover_the_base_fee() {
    let poor = Transaction { max_fee_per_gas: 99, ..tx(1) };
    let ready = ready(bundle(1), vec![poor]).unwrap();
    assert!(!ready.start(None).run.can_enter(1));
    assert_eq!(effective_tip_per_gas(99, Some(20), 100), None);
    assert_eq!(effective_tip_per_gas(130, Some(20), 100), Some(20));
    assert_eq!(effective_tip_per_gas(110, Some(20), 100), Some(10));
    assert_eq!(effective_tip_per_gas(110, None, 100), Some(10));
}

fn block() -> EthSimulateBlock {
    EthSimulateBlock {
        txs: vec![vec![1]; 2],
        block_number: 500,
        state_block_number: BlockNumberOrTag::Number(499),
        coinbase: [0xaa; 20],
        proposer_address: [0xbb; 20],
        base_fee: None,
        builder_addresses: vec![[1; 20], [2; 20]],
        timestamp: None,
    }
}

fn parent(gas_used: u64) -> ParentBlock {
    ParentBlock {
        gas_used,
        gas_limit: 30_000_000,
        base_fee_per_gas: Some(1_000_000_000),
        params: BaseFeeParams { max_change_denominator: 8, elasticity_multiplier: 2 },
    }
}

fn simulate(
    block: EthSimulateBlock,
    parent: Option<ParentBlock>,
) -> Result<SimulateReady, Failure> {
    api()
        .simulate_block(block)?
        .with_transactions(vec![Ok(tx(1)), Ok(tx(2))])?
        .with_env(env())
        .with_parent(parent)
}

#[test]
fn a_block_request_is_checked_like_a_bundle() {
    let empty = EthSimulateBlock { txs: vec![], block_number: 0, ..block() };
    assert_eq!(message(api().simulate_block(empty).unwrap_err()), "bundle missing txs");
    let unnumbered = EthSimulateBlock { block_number: 0, ..block() };
    let error = api().simulate_block(unnumbered).unwrap_err();
    assert_eq!(message(error), "bundle missing blockNumber");
}

#[test]
fn the_next_base_fee_follows_the_parent() {
    let alloy = AlloyBaseFeeParams::ethereum();
    for gas_used in [0, 1, 14_999_999, 15_000_000, 15_000_001, 21_650_000, 30_000_000] {
        let ready = simulate(block(), Some(parent(gas_used))).unwrap();
        let expected = alloy.next_block_base_fee(gas_used, 30_000_000, 1_000_000_000);
        assert_eq!(ready.env.basefee, expected);
        assert!(parent(gas_used).fits());
    }
    let full = simulate(block(), Some(parent(30_000_000))).unwrap();
    assert_eq!(full.env.basefee, 1_125_000_000);
    let without = ParentBlock { base_fee_per_gas: None, ..parent(1) };
    assert_eq!(simulate(block(), Some(without)).unwrap().env.basefee, 100);
    let params = BaseFeeParams { max_change_denominator: 1, elasticity_multiplier: 2 };
    assert!(!step_fits(u64::MAX, 2, u64::MAX, &params));
    assert!(step_fits(0, 2, u64::MAX, &params));
}

#[test]
fn a_parent_is_needed_unless_the_base_fee_is_given() {
    let error = simulate(block(), None).unwrap_err();
    assert_eq!(message(error), "bundle missing blockNumber");
    let given = EthSimulateBlock { base_fee: Some(0x2_0000_0000_0000_0005), ..block() };
    assert_eq!(simulate(given, None).unwrap().env.basefee, 5);

    let lookup = |base_fee| {
        api()
            .simulate_block::<&'static str>(EthSimulateBlock { base_fee, ..block() })
            .unwrap()
            .with_transactions::<&'static str>(vec![Ok(tx(1)), Ok(tx(2))])
            .unwrap()
            .with_env(env())
            .parent_lookup()
    };
    assert_eq!(lookup(None), Some(499));
    assert_eq!(lookup(Some(1)), None);
}

#[test]
fn a_block_is_accounted_for() {
    let ready = simulate(block(), Some(parent(15_000_000))).unwrap();
    assert_eq!(ready.env.number, u(500));
    assert_eq!(ready.env.beneficiary, [0xaa; 20]);
    assert_eq!(ready.env.timestamp, u(1_012));
    assert_eq!(ready.env.gas_limit, 30_000_000);

    let cheap = SimulateReady { env: BlockEnv { basefee: 100, ..ready.env }, ..ready };
    let mut run = cheap.start(Some(u(50)), vec![Some(u(7)), None]);
    assert!(run.run.record(executed(10, true, 250)).unwrap());
    // The builder's balances are those after the whole block, so that the last transaction's
    // changes are applied as well.
    assert!(run.run.record(executed(20, true, 650)).unwrap());
    let response = run.finish(vec![None, Some(u(3))]);
    assert_eq!((response.coinbase_before, response.coinbase_after), (u(50), u(650)));
    assert_eq!(response.builder_balances_before, vec![u(7), u(0)]);
    assert_eq!(response.builder_balances_after, vec![u(0), u(3)]);
    assert_eq!((response.gas_fees, response.total_gas_used), (u(600), 30));
    assert_eq!(response.state_block_number, 499);
    assert_eq!((response.option, response.from_builder), (0, [2; 20]));
    assert_eq!((response.to_proposer, response.actual_value), (Some([102; 20]), u(5)));
    assert_eq!(response.results.len(), 2);
}

#[test]
fn the_payment_is_read_off_the_last_transaction() {
    let option = |to, coinbase: u8| {
        let last = Transaction { to, ..tx(2) };
        Payment::of_block(&vec![tx(1), last], &[coinbase; 20], &[0xbb; 20]).option
    };
    assert_eq!(option(Some([0xbb; 20]), 0xaa), 2);
    assert_eq!(option(Some([0xbb; 20]), 0xbb), 3);
    assert_eq!(option(Some([0xcc; 20]), 0xbb), 1);
    assert_eq!(option(Some([0xcc; 20]), 0xaa), 0);
    assert_eq!(option(None, 0xbb), 0);

    let none = Payment::of_block(&vec![], &[0xaa; 20], &[0xaa; 20]);
    let address: alloy_primitives::Address =
        "0xd8da6bf26964af9d7eed9e03e53415d37aa96045".parse().unwrap();
    assert_eq!(none.from_builder, address.into_array());
    assert_eq!(none.from_builder, unknown_builder());
    assert_eq!((none.option, none.to_proposer, none.actual_value), (0, None, u(0)));
}

#[test]
fn a_clone_shares_the_api() {
    let api = api();
    assert_eq!(*api.clone().eth_api(), "eth");
    assert!(std::ptr::eq(api.eth_api(), api.clone().eth_api()));
}

#[test]
fn a_timestamp_wraps_around() {
    let call = api().call_bundle::<&'static str>(bundle(1)).unwrap();
    let last = BlockEnv { timestamp: U256 { limbs: [u64::MAX; 4] }, ..env() };
    let env = call.with_transactions::<&'static str>(vec![Ok(tx(1))]).unwrap().with_env(last);
    assert_eq!(env.env.timestamp, u(11));
}

#[test]
fn requests_and_answers_have_defaults() {
    let request = EthSimulateBlock::default();
    assert_eq!(request, request.clone());
    assert_eq!(request.state_block_number, BlockNumberOrTag::Latest);
    assert!(request.txs.is_empty() && request.builder_addresses.is_empty());
    assert_eq!((request.coinbase, request.timestamp), ([0; 20], None));
    let answer = EthSimulateBlockResponse::default();
    assert_eq!(answer, answer.clone());
    assert_eq!((answer.coinbase_after, answer.total_gas_used), (u(0), 0));
    assert_ne!(answer, EthSimulateBlockResponse { option: 1, ..answer.clone() });
}
