//! Plans, stages, samples and the run as a whole.

use witness_bench::clock::Duration;
use witness_bench::replay::{
    check_tip_root, tip_state_root, AccessRights, Options, PlanError, Replay, RootMismatch,
    TipRootError,
};
use witness_bench::sample::Sample;
use witness_bench::stages::{
    advance_stage_checkpoints, aligned_stages, preflight, AlignedStage, PreflightError,
    StageCheckpoint,
};

fn options() -> Options {
    Options {
        from: Some(10),
        to: None,
        repeat: 1,
        commit: false,
        history_indices: false,
        encode_witness: false,
        verify_root: true,
        blocks_dir: false,
        witness_dir: false,
        witness_zstd_level: 3,
        write_side_tables: false,
        pre_execute: 0,
        pre_root: false,
        skip_preflight: false,
        allow_inconsistent: false,
        check_tip_root: false,
    }
}

fn ns(nanos: u128) -> Duration {
    Duration { nanos }
}

#[test]
fn only_a_committing_run_opens_for_writing() {
    let access = |commit, allow_inconsistent| {
        Options { commit, allow_inconsistent, ..options() }.access()
    };
    assert_eq!(access(true, false), AccessRights::RW);
    assert_eq!(access(true, true), AccessRights::RW);
    assert_eq!(access(false, false), AccessRights::RO);
    assert_eq!(access(false, true), AccessRights::RoInconsistent);
}

#[test]
fn a_plan_defaults_to_one_block() {
    assert_eq!(options().plan(), Ok((10, 10)));
    let range = Options { to: Some(14), commit: true, ..options() };
    assert_eq!(range.plan(), Ok((10, 14)));
}

#[test]
fn a_plan_can_be_turned_down() {
    let none = Options { from: None, ..options() };
    assert_eq!(none.plan(), Err(PlanError::FromMissing));
    let backwards = Options { to: Some(9), repeat: 0, ..options() };
    assert_eq!(backwards.plan(), Err(PlanError::ToBeforeFrom { to: 9, from: 10 }));
    let unpersisted = Options { to: Some(11), repeat: 0, ..options() };
    assert_eq!(unpersisted.plan(), Err(PlanError::NeedsCommit { from: 10, to: 11 }));
    let idle = Options { repeat: 0, ..options() };
    assert_eq!(idle.plan(), Err(PlanError::NoRepeats));
}

#[test]
fn the_tip_is_compared_with_its_header() {
    assert_eq!(tip_state_root(5, Some([1; 32])), Ok([1; 32]));
    assert_eq!(tip_state_root(5, None), Err(TipRootError::NoHeader { tip: 5 }));
    assert_eq!(check_tip_root(5, [1; 32], [1; 32]), Ok(()));
    let mismatch = TipRootError::Mismatch { tip: 5, computed: [1; 32], expected: [2; 32] };
    assert_eq!(check_tip_root(5, [1; 32], [2; 32]), Err(mismatch));
}

#[test]
fn preflight_wants_aligned_stages_and_the_next_block() {
    let at = [Some(7u64); 5];
    assert_eq!(preflight(7, &at, 8, false), Ok(7));
    assert_eq!(
        preflight(7, &at, 9, false),
        Err(PreflightError::NotAfterTip { from: 9, tip: 7 })
    );
    let torn = [Some(15), Some(7), Some(7), None, Some(7)];
    assert_eq!(
        preflight(7, &torn, 8, false),
        Err(PreflightError::NotAligned([15, 7, 7, 0, 7]))
    );
    assert_eq!(preflight(7, &torn, 99, true), Ok(7));
    assert_eq!(preflight(0, &[None; 5], 1, false), Ok(0));
    assert_eq!(aligned_stages()[0], AlignedStage::Execution);
    assert_eq!(aligned_stages()[4], AlignedStage::Finish);
}

fn stage(block_number: u64, progress: char) -> Option<StageCheckpoint<char>> {
    Some(StageCheckpoint { block_number, progress })
}

#[test]
fn only_stages_at_the_parent_are_moved() {
    let stages = vec![
        ("Headers", stage(20, 'a')),
        ("Execution", stage(7, 'b')),
        ("TransactionLookup", stage(0, 'c')),
        ("Prune", None),
        ("Finish", stage(7, 'd')),
    ];
    let saved = advance_stage_checkpoints(stages, 8);
    let expected = vec![
        ("Execution", StageCheckpoint { block_number: 8, progress: 'b' }),
        ("Finish", StageCheckpoint { block_number: 8, progress: 'd' }),
    ];
    assert_eq!(saved, expected);
}

#[test]
fn a_range_is_replayed_in_lockstep() {
    let mut heights = [Some(7u64); 5];
    for number in 8..12 {
        assert_eq!(preflight(number - 1, &heights, number, false), Ok(number - 1));
        let stages = heights
            .iter()
            .enumerate()
            .map(|(i, h)| (i, h.map(|block_number| StageCheckpoint { block_number, progress: () })))
            .collect();
        for (i, checkpoint) in advance_stage_checkpoints(stages, number) {
            heights[i] = Some(checkpoint.block_number);
        }
    }
    assert_eq!(heights, [Some(11); 5]);
}

fn sample(number: u64, ok: bool) -> Sample {
    let mut sample = Sample::new(number);
    sample.state_root_ok = ok;
    sample.t_witness = vec![ns(900), ns(400), ns(300), ns(350)];
    sample.t_encode = ns(50);
    sample.t_save = ns(7_000);
    sample.gas_used = 21_000;
    sample
}

#[test]
fn a_sample_gives_one_row_per_pass() {
    let sample = sample(42, true);
    let rows = sample.rows();
    assert_eq!(rows.len(), 4);
    for (i, row) in rows.iter().enumerate() {
        assert_eq!(row.iteration, i + 1);
        assert_eq!(row.t_witness, sample.t_witness[i]);
        assert_eq!(row.cold, i == 0);
        assert_eq!(row.block, rows[0].block);
    }
    let block = rows[0].block;
    assert_eq!((block.number, block.repeats, block.gas_used), (42, 4, 21_000));
    assert_eq!(block.t_witness_cold, ns(900));
    assert_eq!(block.t_witness_warm, Some(ns(300)));
    assert_eq!(block.t_marginal, ns(950));
    assert_eq!(block.t_save, ns(7_000));
}

#[test]
fn a_single_pass_says_nothing_of_the_warm_case() {
    let mut sample = sample(1, true);
    sample.t_witness = vec![ns(5)];
    assert_eq!(sample.witness_cold(), ns(5));
    assert_eq!(sample.witness_warm(), None);
    assert_eq!(sample.marginal(), ns(55));
    sample.t_witness = vec![];
    assert_eq!(sample.marginal(), ns(50));
    assert!(sample.rows().is_empty());
}

#[test]
fn every_block_follows_its_parent_until_the_last() {
    let mut replay = Replay::new(10, 12, true);
    let mut seen = vec![];
    while let Some(number) = replay.next() {
        seen.push(number);
        let (rows, outcome) = replay.measured(&sample(number, true));
        assert_eq!(rows.len(), 4);
        assert_eq!(outcome, Ok(()));
    }
    assert_eq!(seen, vec![10, 11, 12]);
    assert_eq!(Replay::new(5, 4, true).next(), None);
    let mut last = Replay::new(u64::MAX, u64::MAX, true);
    assert_eq!(last.measured(&sample(u64::MAX, true)).1, Ok(()));
    assert_eq!(last.next(), None);
}

#[test]
fn a_mismatched_root_stops_the_run_after_its_rows() {
    let mut replay = Replay::new(10, 12, true);
    let (rows, outcome) = replay.measured(&sample(10, false));
    assert_eq!(rows.len(), 4);
    assert_eq!(outcome, Err(RootMismatch { number: 10 }));
    assert_eq!(replay.next(), None);

    let mut unverified = Replay::new(10, 12, false);
    assert_eq!(unverified.measured(&sample(10, false)).1, Ok(()));
    assert_eq!(unverified.next(), Some(11));
}
