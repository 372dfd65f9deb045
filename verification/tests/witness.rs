//! Records of executed state, and the witnesses made from them.

use alloy_primitives::{keccak256, B256};
use std::cell::Cell;
use witness_bench::hashed_state::{Account, AccountInfo, CacheAccount, PlainAccount};
use witness_bench::u256::U256;
use witness_bench::witness::{
    AncestorRange, ExecutedState, ExecutionWitness, ExecutionWitnessMode, ExecutionWitnessRecord,
    WitnessEvent,
};
use witness_bench::clock::Duration;
use witness_bench::meter::{Probe, StepMeter, WitnessTiming};

fn no_faults() -> Probe<impl Fn() -> (u64, u64)> {
    Probe::new(|| (0, 0))
}

fn info(nonce: u64, code_hash: [u8; 32]) -> AccountInfo {
    AccountInfo { nonce, balance: U256::from_u64(nonce * 10), code_hash }
}

fn plain(nonce: u64, storage: Vec<(u64, u64)>) -> Option<PlainAccount> {
    let storage =
        storage.into_iter().map(|(k, v)| (U256::from_u64(k), U256::from_u64(v))).collect();
    Some(PlainAccount { info: info(nonce, [9; 32]), storage })
}

fn state() -> ExecutedState {
    ExecutedState {
        contracts: vec![vec![0x60, 2], vec![], vec![0x60, 1]],
        bundle_contracts: vec![vec![0x5f]],
        accounts: vec![
            CacheAccount { address: [1; 20], was_destroyed: false, account: plain(1, vec![(7, 70)]) },
            CacheAccount { address: [2; 20], was_destroyed: true, account: None },
            CacheAccount {
                address: [3; 20],
                was_destroyed: true,
                account: plain(3, vec![(256, 1), (1, 2)]),
            },
        ],
        lowest_block_hash: None,
    }
}

fn record(mode: ExecutionWitnessMode) -> ExecutionWitnessRecord {
    ExecutionWitnessRecord::from_executed_state(&state(), mode, &mut no_faults())
}

fn slot(n: u64) -> [u8; 32] {
    alloy_primitives::B256::from(alloy_primitives::U256::from(n)).0
}

#[test]
fn a_legacy_record_holds_all_codes_as_found() {
    let record = record(ExecutionWitnessMode::Legacy);
    assert_eq!(record.codes, vec![vec![0x60, 2], vec![], vec![0x60, 1], vec![0x5f]]);
}

#[test]
fn a_canonical_record_holds_loaded_codes_in_order() {
    let record = record(ExecutionWitnessMode::Canonical);
    assert_eq!(record.codes, vec![vec![0x60, 1], vec![0x60, 2]]);
}

#[test]
fn canonical_codes_do_not_depend_on_the_walk() {
    let mut other = state();
    other.contracts.reverse();
    let mode = ExecutionWitnessMode::Canonical;
    let reversed = ExecutionWitnessRecord::from_executed_state(&other, mode, &mut no_faults());
    assert_eq!(record(mode).codes, reversed.codes);
}

#[test]
fn keys_are_addresses_and_slots_of_existing_accounts() {
    let record = record(ExecutionWitnessMode::Legacy);
    let expected: Vec<Vec<u8>> = vec![
        vec![1; 20],
        slot(7).to_vec(),
        vec![3; 20],
        slot(256).to_vec(),
        slot(1).to_vec(),
    ];
    assert_eq!(record.keys, expected);
    // Most significant byte first.
    assert_eq!(record.keys[3][30..], [1, 0]);
    assert!(record.keys[3][..30].iter().all(|byte| *byte == 0));
}

#[test]
fn accounts_stand_under_the_hash_of_their_address() {
    let record = record(ExecutionWitnessMode::Legacy);
    let state = &record.hashed_state;
    let first = state.accounts.get(&keccak256([1u8; 20])).unwrap().unwrap();
    assert_eq!(first, Account { nonce: 1, balance: U256::from_u64(10), bytecode_hash: Some([9; 32]) });
    assert_eq!(*state.accounts.get(&keccak256([2u8; 20])).unwrap(), None);
    assert!(!state.accounts.contains_key(&B256::repeat_byte(1)));
    assert_eq!(state.accounts.len(), 3);

    let storage = state.storages.get(&keccak256([3u8; 20])).unwrap();
    assert!(storage.wiped);
    assert_eq!(storage.storage.get(&keccak256(slot(256))), Some(&U256::from_u64(1)));
    assert_eq!(storage.storage.get(&keccak256(slot(1))), Some(&U256::from_u64(2)));
    assert!(storage.storage.get(&keccak256(slot(7))).is_none());
    assert!(!state.storages.get(&keccak256([1u8; 20])).unwrap().wiped);
}

#[test]
fn an_account_without_code_has_no_code_hash() {
    let empty = keccak256([]).0;
    assert_eq!(Account::from_info(&info(1, empty)).bytecode_hash, None);
    assert_eq!(Account::from_info(&info(1, [0; 32])).bytecode_hash, Some([0; 32]));
}

#[test]
fn a_second_record_replaces_codes_and_adds_the_rest() {
    let first = record(ExecutionWitnessMode::Legacy);
    let mut record = first.clone();
    let again = ExecutedState {
        contracts: vec![vec![1]],
        bundle_contracts: vec![],
        accounts: vec![CacheAccount {
            address: [3; 20],
            was_destroyed: false,
            account: plain(4, vec![(1, 5)]),
        }],
        lowest_block_hash: Some(90),
    };
    record.record_executed_state(&again, ExecutionWitnessMode::Legacy, &mut no_faults());
    assert_eq!((first.codes.len(), first.keys.len()), (4, 5));
    assert_eq!(record.codes, vec![vec![1]]);
    assert_eq!(record.keys.len(), 7);
    assert_eq!(record.lowest_block_number, Some(90));
    let key = keccak256([3u8; 20]);
    assert_eq!(record.hashed_state.accounts.get(&key).unwrap().unwrap().nonce, 4);
    let storage = record.hashed_state.storages.get(&key).unwrap();
    assert!(storage.wiped);
    assert_eq!(storage.storage.get(&keccak256(slot(1))), Some(&U256::from_u64(5)));
    assert_eq!(storage.storage.get(&keccak256(slot(256))), Some(&U256::from_u64(1)));
}

fn finish(
    lowest_block_hash: Option<u64>,
    number: u64,
) -> (AncestorRange, ExecutionWitness, WitnessEvent) {
    let state = ExecutedState { lowest_block_hash, ..state() };
    let mode = ExecutionWitnessMode::Legacy;
    let record = ExecutionWitnessRecord::from_executed_state(&state, mode, &mut no_faults());
    let (request, trie) = record.into_execution_witness(number, mode, &mut no_faults());
    assert_eq!(request.mode, mode);
    assert_eq!(request.hashed_state.accounts.len(), 3);
    let nodes: Result<_, ()> = Ok(vec![vec![1, 2, 3], vec![4]]);
    let (range, headers) = trie.with_state(nodes, &mut no_faults()).unwrap();
    let encoded: Result<_, ()> = Ok((range.start..range.end).map(|n| vec![n as u8]).collect());
    let (witness, event) = headers.with_headers(encoded, &mut no_faults()).unwrap();
    (range, witness, event)
}

#[test]
fn without_block_hashes_only_the_parent_is_included() {
    let (range, witness, event) = finish(None, 40);
    assert_eq!(range, AncestorRange { start: 39, end: 40 });
    assert_eq!(witness.headers, vec![vec![39]]);
    assert_eq!(witness.state, vec![vec![1, 2, 3], vec![4]]);
    assert_eq!((witness.codes.len(), witness.keys.len()), (4, 5));
    assert_eq!((event.block_number, event.nodes, event.codes), (40, 2, 4));
    assert_eq!((event.keys, event.headers), (5, 1));
    assert_eq!(finish(None, 0).0, AncestorRange { start: 0, end: 0 });
}

#[test]
fn block_hashes_reach_back_to_the_lowest() {
    let (range, witness, _) = finish(Some(36), 40);
    assert_eq!(range, AncestorRange { start: 36, end: 40 });
    assert_eq!(witness.headers.len(), 4);
}

#[test]
fn provider_failures_are_passed_on() {
    let record = record(ExecutionWitnessMode::Legacy);
    let (_, trie) = record.into_execution_witness(4, ExecutionWitnessMode::Legacy, &mut no_faults());
    let failed: Result<Vec<Vec<u8>>, &str> = Err("no trie");
    assert_eq!(trie.with_state(failed, &mut no_faults()).unwrap_err(), "no trie");

    let record = ExecutionWitnessRecord::default();
    let (_, trie) = record.into_execution_witness(4, ExecutionWitnessMode::Legacy, &mut no_faults());
    let nodes: Result<_, &str> = Ok(vec![]);
    let (_, headers) = trie.with_state(nodes, &mut no_faults()).unwrap();
    let failed: Result<Vec<Vec<u8>>, &str> = Err("no headers");
    assert_eq!(headers.with_headers(failed, &mut no_faults()).unwrap_err(), "no headers");
}

#[test]
fn the_event_reports_whole_microseconds() {
    let meter = |nanos, major_faults, minor_faults| StepMeter {
        elapsed: Duration { nanos },
        major_faults,
        minor_faults,
    };
    let timing = WitnessTiming {
        codes: meter(1_500, 1, 11),
        hash: meter(2_999, 2, 12),
        trie: meter(322_720_000, 3, 13),
        headers: meter(999, 4, 14),
    };
    let witness =
        ExecutionWitness { state: vec![vec![]], codes: vec![], keys: vec![], headers: vec![] };
    let event = WitnessEvent::of(9, &witness, &timing);
    assert_eq!((event.us_codes, event.us_hash, event.us_trie, event.us_headers), (1, 2, 322_720, 0));
    assert_eq!((event.major_codes, event.major_hash), (1, 2));
    assert_eq!((event.major_trie, event.major_headers, event.minor_trie), (3, 4, 13));
    assert_eq!((event.nodes, event.codes), (1, 0));
}

#[test]
fn each_step_is_measured_by_its_own_readings() {
    let read = Cell::new(0u64);
    let mut probe = Probe::new(|| {
        read.set(read.get() + 1);
        (read.get().pow(2), 10 * read.get().pow(3))
    });
    let mode = ExecutionWitnessMode::Legacy;
    let record = ExecutionWitnessRecord::from_executed_state(&state(), mode, &mut probe);
    let faults = |meter: StepMeter| (meter.minor_faults, meter.major_faults);
    assert_eq!(faults(record.timing.codes), (4 - 1, 10 * (8 - 1)));
    assert_eq!(faults(record.timing.hash), (16 - 9, 10 * (64 - 27)));
    assert_eq!(record.timing.trie, StepMeter::zero());

    let (_, trie) = record.into_execution_witness(40, mode, &mut probe);
    let nodes: Result<_, ()> = Ok(vec![]);
    let (_, headers) = trie.with_state(nodes, &mut probe).unwrap();
    let encoded: Result<_, ()> = Ok(vec![]);
    let (_, event) = headers.with_headers(encoded, &mut probe).unwrap();
    assert_eq!((event.major_codes, event.major_hash), (70, 370));
    assert_eq!((event.minor_trie, event.major_trie), (36 - 25, 10 * (216 - 125)));
    assert_eq!(event.major_headers, 10 * (512 - 343));
    assert_eq!(read.get(), 8);
}
