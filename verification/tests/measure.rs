//! Measuring one block, from fetching it to persisting it.

use witness_bench::clock::Duration;
use witness_bench::measure::{
    count_bytes, witness_mode, BlockFacts, BlockSource, Execute, Fetch, Fetched, MeasureError,
    Compressed, Passes, Rooted, Rooting, Shape, StateWriteConfig, WarmUp, Witnessed, Write,
};
use witness_bench::replay::Options;
use witness_bench::witness::{ExecutionWitness, ExecutionWitnessMode};

type Failure = MeasureError<&'static str>;

fn ns(nanos: u128) -> Duration {
    Duration { nanos }
}

fn options() -> Options {
    Options {
        from: Some(9),
        to: None,
        repeat: 2,
        commit: false,
        history_indices: false,
        encode_witness: false,
        verify_root: true,
        blocks_dir: false,
        witness_dir: false,
        witness_zstd_level: 3,
        write_side_tables: false,
        pre_execute: 0,
        pre_root: true,
        skip_preflight: false,
        allow_inconsistent: false,
        check_tip_root: false,
    }
}

fn block() -> BlockFacts {
    BlockFacts { gas_used: 21_650_000, tx_count: 261, state_root: [7; 32], hash: [8; 32] }
}

fn witness() -> ExecutionWitness {
    ExecutionWitness {
        state: vec![vec![0xab, 0x01], vec![0xff]],
        codes: vec![vec![0x60; 5]],
        keys: vec![],
        headers: vec![vec![1], vec![2], vec![3]],
    }
}

fn fetched(options: Options) -> Fetched {
    Fetch::new(9, options).fetched::<&'static str>(Some(block()), ns(11)).unwrap()
}

fn execute(options: Options) -> Execute {
    fetched(options).warmed(ns(13))
}

fn passes(times: &[u128]) -> Passes<&'static str> {
    let mut passes = Passes::new();
    for nanos in times {
        passes.push(ns(*nanos), Ok(witness()));
    }
    passes
}

fn witnessed(options: Options) -> Witnessed {
    execute(options).executed(passes(&[400, 200]), ns(1_000)).unwrap().validated().unwrap()
}

fn compressed(options: Options) -> Compressed {
    witnessed(options).encode().unwrap().timed(ns(17)).compress().unwrap()
}

fn rooting(options: Options) -> Rooting {
    compressed(options).saved(ns(19))
}

#[test]
fn the_legacy_form_is_measured() {
    assert_eq!(witness_mode(), ExecutionWitnessMode::Legacy);
}

#[test]
fn a_block_comes_from_the_directory_or_from_storage() {
    let from_dir = Options { blocks_dir: true, ..options() };
    assert_eq!(Fetch::new(9, from_dir).source(), BlockSource::Directory);
    assert_eq!(Fetch::new(9, options()).source(), BlockSource::Storage);
    let missing: Result<Fetched, Failure> = Fetch::new(9, options()).fetched(None, ns(1));
    assert!(matches!(missing, Err(MeasureError::BlockNotFound { number: 9 })));
}

#[test]
fn warm_ups_are_charged_only_where_there_are_any() {
    assert_eq!(fetched(options()).warm_up(), None);
    let warm = Options { pre_execute: 2, ..options() };
    assert_eq!(fetched(warm).warm_up(), Some(WarmUp { runs: 2, with_root: true }));

    let sample = |options| match rooting(options).with_root::<()>([7; 32], ns(23)).unwrap() {
        Rooted::Measured(sample) => sample,
        Rooted::Persist(_) => panic!("not a committing run"),
    };
    let cold = sample(options());
    assert_eq!((cold.t_pre_execute, cold.pre_root), (ns(0), false));
    let warm = sample(warm);
    assert_eq!((warm.t_pre_execute, warm.pre_root), (ns(13), true));
}

#[test]
fn a_read_only_measurement_ends_in_a_sample() {
    let rooted = rooting(options()).with_root::<()>([7; 32], ns(23)).unwrap();
    let Rooted::Measured(sample) = rooted else { panic!("not a committing run") };
    assert_eq!((sample.number, sample.gas_used, sample.tx_count), (9, 21_650_000, 261));
    assert_eq!((sample.t_fetch, sample.t_exec, sample.t_state_root), (ns(11), ns(400), ns(23)));
    assert_eq!(sample.t_witness, vec![ns(400), ns(200)]);
    assert_eq!((sample.witness_nodes, sample.witness_bytes), (2, 3));
    assert_eq!((sample.codes, sample.codes_bytes), (1, 5));
    assert_eq!((sample.keys, sample.headers, sample.blockhash_depth), (0, 3, 2));
    assert_eq!((sample.encoded_bytes, sample.saved_bytes), (0, 0));
    assert_eq!((sample.t_encode, sample.t_save, sample.t_persist), (ns(0), ns(0), ns(0)));
    assert!(sample.state_root_ok);
    assert_eq!(sample.computed_state_root, [7; 32]);
    assert_eq!(sample.expected_state_root, [7; 32]);
}

#[test]
fn a_read_only_measurement_reports_a_mismatched_root() {
    let rooted = rooting(options()).with_root::<()>([6; 32], ns(23)).unwrap();
    let Rooted::Measured(sample) = rooted else { panic!("not a committing run") };
    assert!(!sample.state_root_ok);
    assert_eq!(sample.computed_state_root, [6; 32]);
    assert_eq!(sample.expected_state_root, [7; 32]);
}

#[test]
fn passes_are_due_until_there_are_as_many_as_asked_for() {
    let three = Options { repeat: 3, ..options() };
    let execute = execute(three);
    let mut passes: Passes<&'static str> = Passes::new();
    let mut made = 0;
    while execute.pass_due(&passes) {
        passes.push(ns(1), Ok(witness()));
        made += 1;
    }
    assert_eq!(made, 3);
    let saved = execute
        .executed(passes, ns(10))
        .unwrap()
        .validated()
        .unwrap()
        .encode()
        .unwrap()
        .timed(ns(0))
        .compress()
        .unwrap()
        .saved(ns(0));
    let Rooted::Measured(sample) = saved.with_root::<()>([7; 32], ns(0)).unwrap() else {
        panic!("not a committing run")
    };
    assert_eq!((sample.t_witness.len(), sample.t_exec), (3, ns(7)));
}

#[test]
fn execution_time_never_goes_below_zero() {
    let executed = execute(options()).executed(passes(&[700, 500]), ns(1_000)).unwrap();
    let rooted = executed.validated().unwrap().encode().unwrap().timed(ns(0)).compress().unwrap();
    let rooted = rooted.saved(ns(0)).with_root::<()>([7; 32], ns(0)).unwrap();
    let Rooted::Measured(sample) = rooted else {
        panic!("not a committing run")
    };
    assert_eq!(sample.t_exec, ns(0));
}

#[test]
fn witnesses_of_different_shapes_end_the_measurement() {
    let mut passes = passes(&[1, 1]);
    let smaller = ExecutionWitness { keys: vec![vec![1]], ..witness() };
    passes.push(ns(1), Ok(smaller));
    passes.push(ns(1), Err("gone"));
    let four = Options { repeat: 4, ..options() };
    let error = execute(four).executed(passes, ns(10)).unwrap_err();
    let shape = |keys| Some(Shape { nodes: 2, codes: 1, keys, headers: 3 });
    assert!(matches!(
        error,
        MeasureError::NotDeterministic { number: 9, first, repeat: 3, other }
            if first == shape(0) && other == shape(1)
    ));
}

#[test]
fn the_last_pass_must_have_given_a_witness() {
    let executed = execute(options()).executed(passes(&[]), ns(10)).unwrap();
    assert!(matches!(executed.validated(), Err(MeasureError::NeverRan { number: 9 })));

    let mut failing: Passes<&'static str> = Passes::new();
    failing.push(ns(1), Err("no proof"));
    let once = Options { repeat: 1, ..options() };
    let executed = execute(once).executed(failing, ns(10)).unwrap();
    assert!(matches!(executed.validated(), Err(MeasureError::Witness("no proof"))));
}

const JSON: &str = "{\"state\":[\"0xab01\",\"0xff\"],\"codes\":[\"0x6060606060\"],\"keys\":[],\
                    \"headers\":[\"0x01\",\"0x02\",\"0x03\"]}";

#[test]
fn encoding_is_charged_where_it_was_asked_for() {
    let encoding = Options { encode_witness: true, ..options() };
    let compressed = compressed(encoding);
    assert!(compressed.contents().is_none());
    let rooted = compressed.saved(ns(1)).with_root::<()>([7; 32], ns(1)).unwrap();
    let Rooted::Measured(sample) = rooted else {
        panic!("not a committing run")
    };
    assert_eq!((sample.t_encode, sample.encoded_bytes), (ns(17), JSON.len()));
    assert_eq!((sample.t_save, sample.saved_bytes), (ns(0), 0));
    assert_eq!(sample.marginal(), ns(417));
}

#[test]
fn a_saved_witness_is_compressed_json() {
    let options = Options { witness_dir: true, ..options() };
    let compressed = compressed(options);
    assert_eq!(compressed.file_name(), "9.json.zst");
    let written = compressed.contents().unwrap().clone();
    assert_eq!(zstd::decode_all(written.as_slice()).unwrap(), JSON.as_bytes());
    assert_eq!(written, zstd::encode_all(JSON.as_bytes(), 3).unwrap());

    let rooting = compressed.saved(ns(31));
    let Rooted::Measured(sample) = rooting.with_root::<()>([7; 32], ns(1)).unwrap() else {
        panic!("not a committing run")
    };
    assert_eq!((sample.t_save, sample.saved_bytes), (ns(31), written.len()));
    // Saving never lands in the marginal cost.
    assert_eq!((sample.t_encode, sample.encoded_bytes), (ns(0), 0));
    assert_eq!(sample.marginal(), ns(400));
}

#[test]
fn a_block_with_a_mismatched_root_is_not_persisted() {
    let commit = Options { commit: true, ..options() };
    let error = rooting(commit).with_root::<&'static str>([6; 32], ns(1)).unwrap_err();
    assert!(matches!(
        error,
        MeasureError::RootMismatch { number: 9, computed, expected }
            if computed == [6; 32] && expected == [7; 32]
    ));
}

fn persist(options: Options) -> witness_bench::measure::Persist {
    match rooting(Options { commit: true, ..options }).with_root::<()>([7; 32], ns(23)).unwrap() {
        Rooted::Persist(persist) => persist,
        Rooted::Measured(_) => panic!("a committing run"),
    }
}

fn config(side_tables: bool) -> StateWriteConfig {
    StateWriteConfig {
        write_receipts: side_tables,
        write_account_changesets: side_tables,
        write_storage_changesets: side_tables,
    }
}

#[test]
fn a_block_from_storage_is_not_inserted_again() {
    let persist = persist(options());
    assert!(!persist.looks_up_block());
    let steps = persist.plan::<()>(None).unwrap();
    let expected = vec![
        Write::State(config(false)),
        Write::HashedState,
        Write::TrieUpdates,
        Write::StageCheckpoints(9),
        Write::CommitStaticFiles,
        Write::CommitDatabase,
    ];
    assert_eq!(steps, expected);
    let sample = persist.persisted(ns(4_240));
    assert_eq!((sample.t_persist, sample.t_state_root), (ns(4_240), ns(23)));
    assert!(sample.state_root_ok);
}

#[test]
fn an_absent_block_is_inserted_before_its_state() {
    let options =
        Options { blocks_dir: true, history_indices: true, write_side_tables: true, ..options() };
    let persist = persist(options);
    assert!(persist.looks_up_block());
    let steps = persist.plan::<()>(None).unwrap();
    let expected = vec![
        Write::Block,
        Write::State(config(true)),
        Write::HashedState,
        Write::TrieUpdates,
        Write::HistoryIndices(9),
        Write::StageCheckpoints(9),
        Write::CommitStaticFiles,
        Write::CommitDatabase,
    ];
    assert_eq!(steps, expected);
}

#[test]
fn a_stored_block_is_kept_and_a_fork_is_refused() {
    let persist = persist(Options { blocks_dir: true, ..options() });
    let steps = persist.plan::<()>(Some([8; 32])).unwrap();
    assert_eq!(steps[0], Write::State(config(false)));
    let error = persist.plan::<()>(Some([1; 32])).unwrap_err();
    assert!(matches!(
        error,
        MeasureError::Fork { number: 9, stored, given } if stored == [1; 32] && given == [8; 32]
    ));
}

#[test]
fn byte_counts_add_up() {
    assert_eq!(count_bytes(&vec![]), 0);
    assert_eq!(count_bytes(&vec![vec![1, 2], vec![], vec![3; 40]]), 42);
}
