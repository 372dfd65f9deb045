//! The stage checkpoints of a data directory: whether a replay may start on them, and how it moves
//! them.

use vstd::prelude::*;

verus! {

/// Stages that must all sit at the same height for the plain state, the hashed state and the tries
/// to describe the same block. A snapshot taken between two of them will not satisfy this, and
/// replaying on top of it silently produces wrong state roots and meaningless witnesses.
#[derive(Clone, Copy, Debug, PartialEq, Eq, Structural)]
pub enum AlignedStage {
    /// Executing blocks.
    Execution,
    /// Hashing accounts.
    AccountHashing,
    /// Hashing storage.
    StorageHashing,
    /// Building the tries.
    MerkleExecute,
    /// The tip.
    Finish,
}

/// The number of [`AlignedStage`]s.
pub const ALIGNED_STAGES: usize = 5;

/// The stages that must be aligned, in the order in which they are looked up.
pub open spec fn stage_list() -> Seq<AlignedStage> {
    seq![
        AlignedStage::Execution,
        AlignedStage::AccountHashing,
        AlignedStage::StorageHashing,
        AlignedStage::MerkleExecute,
        AlignedStage::Finish,
    ]
}

/// The stages that must be aligned, in the order in which they are looked up.
pub fn aligned_stages() -> (r: [AlignedStage; ALIGNED_STAGES])
    ensures
        r@ == stage_list(),
{
    let r = [
        AlignedStage::Execution,
        AlignedStage::AccountHashing,
        AlignedStage::StorageHashing,
        AlignedStage::MerkleExecute,
        AlignedStage::Finish,
    ];
    assert(r@ =~= stage_list());
    r
}

/// Why a replay may not start.
#[derive(Clone, Copy, Debug, PartialEq, Eq)]
pub enum PreflightError {
    /// The stages are not at one height; these are their heights, in the order of
    /// [`aligned_stages`].
    NotAligned([u64; ALIGNED_STAGES]),
    /// The replay does not start right after the tip.
    NotAfterTip {
        /// Where it was to start.
        from: u64,
        /// The tip.
        tip: u64,
    },
}

/// The height that a stage's checkpoint stands for: its block, or zero where there is none.
pub open spec fn height(checkpoint: Option<u64>) -> u64 {
    match checkpoint {
        Some(block_number) => block_number,
        None => 0,
    }
}

/// Whether all checkpoints stand for one height.
pub open spec fn aligned(checkpoints: Seq<Option<u64>>) -> bool {
    forall|i: int| 0 <= i < checkpoints.len() ==> height(#[trigger] checkpoints[i]) == height(checkpoints[0])
}

/// Checks that a data directory is in a state in which a lockstep replay from block `from` is
/// meaningful, and returns the tip. `checkpoints` are those of the [`aligned_stages`].
pub fn preflight(
    tip: u64,
    checkpoints: &[Option<u64>; ALIGNED_STAGES],
    from: u64,
    skip: bool,
) -> (r: Result<u64, PreflightError>)
    requires
        !skip && aligned(checkpoints@) ==> tip < u64::MAX,
    ensures
        r is Ok <==> skip || (aligned(checkpoints@) && from == tip + 1),
        r is Ok ==> r->Ok_0 == tip,
        r is Err && !aligned(checkpoints@) ==> (r->Err_0 matches PreflightError::NotAligned(heights)
            && forall|i: int|
            0 <= i < ALIGNED_STAGES ==> #[trigger] heights@[i] == height(checkpoints@[i])),
        r is Err && aligned(checkpoints@) ==> r->Err_0 == (PreflightError::NotAfterTip {
            from,
            tip,
        }),
{
    if skip {
        return Ok(tip);
    }
    let mut heights: [u64; ALIGNED_STAGES] = [0;ALIGNED_STAGES];
    let mut same = true;
    let mut i: usize = 0;
    while i < ALIGNED_STAGES
        invariant
            i <= ALIGNED_STAGES,
            forall|j: int| 0 <= j < i ==> #[trigger] heights@[j] == height(checkpoints@[j]),
            same == (forall|j: int|
                0 <= j < i ==> height(#[trigger] checkpoints@[j]) == height(checkpoints@[0])),
        decreases ALIGNED_STAGES - i,
    {
        let at: u64 = match checkpoints[i] {
            Some(block_number) => block_number,
            None => 0,
        };
        heights[i] = at;
        if at != heights[0] {
            same = false;
        }
        i += 1;
    }
    if !same {
        return Err(PreflightError::NotAligned(heights));
    }
    if from != tip + 1 {
        return Err(PreflightError::NotAfterTip { from, tip });
    }
    Ok(tip)
}

/// Where a stage stands.
#[derive(Debug, PartialEq, Eq)]
pub struct StageCheckpoint<P> {
    /// The block up to which the stage has run.
    pub block_number: u64,
    /// What else the stage keeps.
    pub progress: P,
}

/// A checkpoint that stood at the parent of block `number`, moved to that block; `None` for one that
/// stood elsewhere.
pub open spec fn advanced<P>(checkpoint: Option<StageCheckpoint<P>>, number: u64) -> Option<
    StageCheckpoint<P>,
> {
    match checkpoint {
        Some(checkpoint) => if checkpoint.block_number + 1 == number {
            Some(StageCheckpoint { block_number: number, ..checkpoint })
        } else {
            None
        },
        None => None,
    }
}

/// The stages of a list that are moved to block `number`, with their new checkpoints.
pub open spec fn advanced_stages<S, P>(
    stages: Seq<(S, Option<StageCheckpoint<P>>)>,
    number: u64,
) -> Seq<(S, StageCheckpoint<P>)>
    decreases stages.len(),
{
    if stages.len() == 0 {
        Seq::empty()
    } else {
        let before = advanced_stages(stages.drop_last(), number);
        match advanced(stages.last().1, number) {
            Some(checkpoint) => before.push((stages.last().0, checkpoint)),
            None => before,
        }
    }
}

/// Which stage checkpoints are to be saved after block `number` was persisted, and as what: those
/// that were exactly at the parent block, moved to this one.
///
/// Moving every stage would be wrong in both directions. A stage deliberately left behind would be
/// dragged forward, which claims that its indices are built when they are not. A stage ahead would
/// be dragged back, which leaves static files looking ahead of the database. Moving exactly those at
/// the parent preserves whatever shape the data directory arrived in, and covers the tip.
pub fn advance_stage_checkpoints<S, P>(
    stages: Vec<(S, Option<StageCheckpoint<P>>)>,
    number: u64,
) -> (r: Vec<(S, StageCheckpoint<P>)>)
    requires
        number > 0,
    ensures
        r@ == advanced_stages(stages@, number),
{
    let parent = number - 1;
    let ghost all = stages@;
    let mut saved: Vec<(S, StageCheckpoint<P>)> = Vec::new();
    assert(all.take(0) =~= Seq::<(S, Option<StageCheckpoint<P>>)>::empty());
    for entry in it: stages
        invariant
            it.seq() == all,
            parent == number - 1,
            saved@ == advanced_stages(all.take(it.index() as int), number),
    {
        let ghost n = it.index() as int;
        proof {
            assert(all.take(n + 1).drop_last() =~= all.take(n));
            assert(all.take(n + 1).last() == entry);
        }
        let (stage, checkpoint) = entry;
        if let Some(checkpoint) = checkpoint {
            if checkpoint.block_number == parent {
                saved.push(
                    (
                        stage,
                        StageCheckpoint { block_number: number, progress: checkpoint.progress },
                    ),
                );
            }
        }
    }
    assert(all.take(all.len() as int) =~= all);
    saved
}

/// The block number that a stage's checkpoint holds once block `number` was persisted.
pub open spec fn moved(checkpoint: Option<u64>, number: u64) -> Option<u64> {
    match advanced(
        match checkpoint {
            Some(block_number) => Some(StageCheckpoint { block_number, progress: () }),
            None => None,
        },
        number,
    ) {
        Some(checkpoint) => Some(checkpoint.block_number),
        None => checkpoint,
    }
}

/// Lockstep: where a replay may start on a block and every aligned stage has a checkpoint at the tip,
/// persisting that block leaves all of them at it, so that the replay may go on with the next.
pub proof fn replay_stays_in_lockstep(tip: u64, checkpoints: Seq<Option<u64>>)
    requires
        tip < u64::MAX,
        checkpoints.len() == ALIGNED_STAGES,
        forall|i: int| 0 <= i < checkpoints.len() ==> #[trigger] checkpoints[i] is Some,
        aligned(checkpoints),
        checkpoints[ALIGNED_STAGES - 1] == Some(tip),
    ensures
        ({
            let number = (tip + 1) as u64;
            let after = checkpoints.map_values(|c: Option<u64>| moved(c, number));
            &&& forall|i: int| 0 <= i < after.len() ==> #[trigger] after[i] == Some(number)
            &&& aligned(after)
            &&& after[ALIGNED_STAGES - 1] == Some(number)
        }),
{
    let number = (tip + 1) as u64;
    let after = checkpoints.map_values(|c: Option<u64>| moved(c, number));
    assert forall|i: int| 0 <= i < after.len() implies #[trigger] after[i] == Some(number) by {
        assert(height(checkpoints[i]) == height(checkpoints[0]));
        assert(height(checkpoints[ALIGNED_STAGES - 1]) == height(checkpoints[0]));
    }
}

/// Checkpoints once the `n` blocks after `tip` were persisted, one after another.
pub open spec fn after_blocks(checkpoints: Seq<Option<u64>>, tip: u64, n: nat) -> Seq<Option<u64>>
    decreases n,
{
    if n == 0 {
        checkpoints
    } else {
        after_blocks(checkpoints, tip, (n - 1) as nat).map_values(
            |c: Option<u64>| moved(c, (tip + n) as u64),
        )
    }
}

/// Lockstep over a range: however many blocks are replayed and persisted one after another, the
/// aligned stages all stand at the last of them, and the tip with them.
pub proof fn a_range_stays_in_lockstep(tip: u64, checkpoints: Seq<Option<u64>>, n: nat)
    requires
        tip + n <= u64::MAX,
        checkpoints.len() == ALIGNED_STAGES,
        forall|i: int| 0 <= i < checkpoints.len() ==> #[trigger] checkpoints[i] is Some,
        aligned(checkpoints),
        checkpoints[ALIGNED_STAGES - 1] == Some(tip),
    ensures
        ({
            let after = after_blocks(checkpoints, tip, n);
            &&& after.len() == ALIGNED_STAGES
            &&& forall|i: int| 0 <= i < after.len() ==> #[trigger] after[i] == Some((tip + n) as u64)
            &&& aligned(after)
        }),
    decreases n,
{
    if n == 0 {
        assert forall|i: int| 0 <= i < checkpoints.len() implies #[trigger] checkpoints[i] == Some(
            tip,
        ) by {
            assert(height(checkpoints[i]) == height(checkpoints[0]));
            assert(height(checkpoints[ALIGNED_STAGES - 1]) == height(checkpoints[0]));
        }
    } else {
        let before = (n - 1) as nat;
        a_range_stays_in_lockstep(tip, checkpoints, before);
        replay_stays_in_lockstep((tip + before) as u64, after_blocks(checkpoints, tip, before));
    }
}

/// A stage that is not at the parent, behind it or ahead, keeps its checkpoint.
pub proof fn other_stages_stay(checkpoint: Option<u64>, number: u64)
    requires
        checkpoint is None || checkpoint->0 + 1 != number,
    ensures
        moved(checkpoint, number) == checkpoint,
{
}

/// The stages that are moved are among those that were there, each stood at the parent, and each
/// keeps all of its checkpoint but the block.
pub proof fn only_stages_at_the_parent_move<S, P>(
    stages: Seq<(S, Option<StageCheckpoint<P>>)>,
    number: u64,
)
    ensures
        forall|i: int|
            #![trigger advanced_stages(stages, number)[i]]
            0 <= i < advanced_stages(stages, number).len() ==> {
                let (stage, checkpoint) = advanced_stages(stages, number)[i];
                &&& checkpoint.block_number == number
                &&& exists|parent: u64|
                    parent + 1 == number && stages.contains(
                        (
                            stage,
                            Some(
                                StageCheckpoint {
                                    block_number: parent,
                                    progress: checkpoint.progress,
                                },
                            ),
                        ),
                    )
            },
    decreases stages.len(),
{
    if stages.len() > 0 {
        let shorter = stages.drop_last();
        only_stages_at_the_parent_move(shorter, number);
        let before = advanced_stages(shorter, number);
        let after = advanced_stages(stages, number);
        assert forall|i: int| #![trigger after[i]] 0 <= i < after.len() implies ({
            let (stage, checkpoint) = after[i];
            &&& checkpoint.block_number == number
            &&& exists|parent: u64|
                parent + 1 == number && stages.contains(
                    (
                        stage,
                        Some(
                            StageCheckpoint { block_number: parent, progress: checkpoint.progress },
                        ),
                    ),
                )
        }) by {
            let (stage, checkpoint) = after[i];
            if i < before.len() {
                assert(before[i] == after[i]);
                let parent = choose|parent: u64|
                    parent + 1 == number && shorter.contains(
                        (
                            stage,
                            Some(
                                StageCheckpoint {
                                    block_number: parent,
                                    progress: checkpoint.progress,
                                },
                            ),
                        ),
                    );
                let entry = (
                    stage,
                    Some(StageCheckpoint { block_number: parent, progress: checkpoint.progress }),
                );
                let j = choose|j: int| 0 <= j < shorter.len() && shorter[j] == entry;
                assert(stages[j] == entry);
                assert(stages.contains(entry));
            } else {
                let parent = (number - 1) as u64;
                assert(stages[stages.len() - 1] == stages.last());
                assert(stages.contains(
                    (
                        stage,
                        Some(
                            StageCheckpoint { block_number: parent, progress: checkpoint.progress },
                        ),
                    ),
                ));
            }
        }
    }
}

/// Every stage that stood at the parent is moved.
pub proof fn every_stage_at_the_parent_moves<S, P>(
    stages: Seq<(S, Option<StageCheckpoint<P>>)>,
    number: u64,
    i: int,
)
    requires
        0 <= i < stages.len(),
        stages[i].1 is Some,
        stages[i].1->0.block_number + 1 == number,
    ensures
        advanced_stages(stages, number).contains(
            (
                stages[i].0,
                StageCheckpoint { block_number: number, progress: stages[i].1->0.progress },
            ),
        ),
    decreases stages.len(),
{
    let entry = (
        stages[i].0,
        StageCheckpoint { block_number: number, progress: stages[i].1->0.progress },
    );
    let after = advanced_stages(stages, number);
    if i == stages.len() - 1 {
        assert(after.last() == entry);
    } else {
        let shorter = stages.drop_last();
        let before = advanced_stages(shorter, number);
        every_stage_at_the_parent_moves(shorter, number, i);
        let j = choose|j: int| 0 <= j < before.len() && before[j] == entry;
        assert(after[j] == entry);
    }
}

/// Each of the five stages is looked up once, the tip last.
pub proof fn every_stage_is_looked_up(stage: AlignedStage)
    ensures
        stage_list().len() == ALIGNED_STAGES,
        ALIGNED_STAGES == 5,
        stage_list().contains(stage),
        stage_list().no_duplicates(),
        stage_list().last() == AlignedStage::Finish,
{
    let list = stage_list();
    assert(list[0] == AlignedStage::Execution);
    assert(list[1] == AlignedStage::AccountHashing);
    assert(list[2] == AlignedStage::StorageHashing);
    assert(list[3] == AlignedStage::MerkleExecute);
    assert(list[4] == AlignedStage::Finish);
}

/// A stage without a checkpoint stands at zero, and any other at its block.
pub proof fn a_stage_stands_at_its_block(checkpoint: Option<u64>)
    ensures
        checkpoint is Some ==> height(checkpoint) == checkpoint->0,
        checkpoint is None ==> height(checkpoint) == 0,
{
}

/// Stages are aligned exactly where no two stand at different heights.
pub proof fn aligned_stages_stand_together(checkpoints: Seq<Option<u64>>)
    ensures
        aligned(checkpoints) <==> forall|i: int, j: int|
            0 <= i < checkpoints.len() && 0 <= j < checkpoints.len() ==> height(
                #[trigger] checkpoints[i],
            ) == height(#[trigger] checkpoints[j]),
{
    if forall|i: int, j: int|
        0 <= i < checkpoints.len() && 0 <= j < checkpoints.len() ==> height(
            #[trigger] checkpoints[i],
        ) == height(#[trigger] checkpoints[j]) {
        assert forall|i: int| 0 <= i < checkpoints.len() implies height(#[trigger] checkpoints[i])
            == height(checkpoints[0]) by {}
    }
}

/// A checkpoint at the parent is moved by one block and keeps everything else; no other is moved.
pub proof fn a_checkpoint_moves_by_one_block<P>(checkpoint: Option<StageCheckpoint<P>>, number: u64)
    ensures
        advanced(checkpoint, number) is Some <==> checkpoint is Some && checkpoint->0.block_number + 1
            == number,
        advanced(checkpoint, number) is Some ==> {
            &&& advanced(checkpoint, number)->0.block_number == number
            &&& advanced(checkpoint, number)->0.progress == checkpoint->0.progress
        },
{
}

/// The stages that are moved keep their order, and none is moved twice: a stage at the parent comes
/// behind those before it, and any other leaves them as they are.
pub proof fn moved_stages_keep_their_order<S, P>(
    stages: Seq<(S, Option<StageCheckpoint<P>>)>,
    stage: S,
    checkpoint: Option<StageCheckpoint<P>>,
    number: u64,
)
    ensures
        advanced_stages(Seq::<(S, Option<StageCheckpoint<P>>)>::empty(), number).len() == 0,
        checkpoint is Some && checkpoint->0.block_number + 1 == number ==> advanced_stages(
            stages.push((stage, checkpoint)),
            number,
        ) == advanced_stages(stages, number).push(
            (
                stage,
                StageCheckpoint { block_number: number, progress: checkpoint->0.progress },
            ),
        ),
        checkpoint is None || checkpoint->0.block_number + 1 != number ==> advanced_stages(
            stages.push((stage, checkpoint)),
            number,
        ) == advanced_stages(stages, number),
{
    assert(stages.push((stage, checkpoint)).drop_last() =~= stages);
}

/// A replay may start exactly where every stage stands at one height and it starts right after the tip,
/// or where nobody looks; it is given the tip. A stage without a checkpoint stands at zero.
pub proof fn a_replay_starts_right_after_the_tip(
    tip: u64,
    checkpoints: [Option<u64>; ALIGNED_STAGES],
    from: u64,
    skip: bool,
    r: Result<u64, PreflightError>,
)
    requires
        call_ensures(preflight, (tip, &checkpoints, from, skip), r),
        tip < u64::MAX,
    ensures
        ({
            let same = forall|i: int, j: int|
                0 <= i < 5 && 0 <= j < 5 ==> (if (#[trigger] checkpoints@[i]) is Some {
                    checkpoints@[i]->0
                } else {
                    0
                }) == (if (#[trigger] checkpoints@[j]) is Some {
                    checkpoints@[j]->0
                } else {
                    0
                });
            &&& r is Ok <==> skip || same && from == tip + 1
            &&& r is Ok ==> r->Ok_0 == tip
            &&& r is Err && !same ==> r->Err_0 is NotAligned
            &&& r is Err && same ==> r->Err_0 == (PreflightError::NotAfterTip { from, tip })
        }),
{
    aligned_stages_stand_together(checkpoints@);
    assert(forall|i: int|
        0 <= i < 5 ==> height(#[trigger] checkpoints@[i]) == (if checkpoints@[i] is Some {
            checkpoints@[i]->0
        } else {
            0
        }));
    assert(checkpoints@.len() == 5);
}

} // verus!
