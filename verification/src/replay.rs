//! The run as a whole: what it was asked to do, which blocks it replays, and when it stops.

use vstd::prelude::*;
use crate::bytes::{same_bytes, B256};
use crate::clock;
use crate::sample::{Sample, SampleRow};

verus! {

/// What a run was asked to do.
#[derive(Clone, Copy, Debug, PartialEq, Eq, Structural)]
pub struct Options {
    /// First block to replay. Must be right after the tip.
    pub from: Option<u64>,
    /// Last block to replay. The first one where it is not given.
    pub to: Option<u64>,
    /// How many times the witness pass runs per block.
    pub repeat: u32,
    /// Whether each block is persisted and the tip advanced.
    pub commit: bool,
    /// Whether history indices are written when persisting.
    pub history_indices: bool,
    /// Whether the witness is serialized and the time of that reported.
    pub encode_witness: bool,
    /// Whether the run stops at a block whose state root does not match its header.
    pub verify_root: bool,
    /// Whether blocks are read from a directory instead of from storage.
    pub blocks_dir: bool,
    /// Whether each witness is saved to a directory.
    pub witness_dir: bool,
    /// The compression level for saved witnesses.
    pub witness_zstd_level: i32,
    /// Whether receipts and changesets are written when persisting.
    pub write_side_tables: bool,
    /// How many times a block is executed before it is measured.
    pub pre_execute: u32,
    /// Whether those executions compute the state root too.
    pub pre_root: bool,
    /// Whether the alignment of the stages goes unchecked.
    pub skip_preflight: bool,
    /// Whether the data directory is opened without the consistency check.
    pub allow_inconsistent: bool,
    /// Whether the run only recomputes the state root of the tip.
    pub check_tip_root: bool,
}

/// How the data directory is opened.
#[derive(Clone, Copy, Debug, PartialEq, Eq, Structural)]
pub enum AccessRights {
    /// For reading and writing.
    RW,
    /// For reading.
    RO,
    /// For reading, without the consistency check.
    RoInconsistent,
}

/// Why a run cannot be carried out as asked.
#[derive(Clone, Copy, Debug, PartialEq, Eq, Structural)]
pub enum PlanError {
    /// The first block is not given.
    FromMissing,
    /// The last block comes before the first.
    ToBeforeFrom {
        /// The last block.
        to: u64,
        /// The first block.
        from: u64,
    },
    /// More than one block is to be replayed without persisting any: every block after the first
    /// would be executed against the wrong parent state.
    NeedsCommit {
        /// The first block.
        from: u64,
        /// The last block.
        to: u64,
    },
    /// No witness pass at all.
    NoRepeats,
}

impl Options {
    /// The last block to replay, given the first.
    pub open spec fn last(self, from: u64) -> u64 {
        match self.to {
            Some(to) => to,
            None => from,
        }
    }

    /// How the data directory is opened: for writing exactly where blocks are persisted. A run that
    /// persists blocks must pass the consistency check.
    pub fn access(&self) -> (r: AccessRights)
        ensures
            r == AccessRights::RW <==> self.commit,
            r == AccessRights::RoInconsistent <==> !self.commit && self.allow_inconsistent,
            r == AccessRights::RO <==> !self.commit && !self.allow_inconsistent,
    {
        if self.commit {
            AccessRights::RW
        } else if self.allow_inconsistent {
            AccessRights::RoInconsistent
        } else {
            AccessRights::RO
        }
    }

    /// The first and the last block to replay.
    ///
    /// Fails on the first of these that holds: the first block is not given, the last comes before
    /// it, several blocks are asked for without persisting them, no witness pass is asked for.
    pub fn plan(&self) -> (r: Result<(u64, u64), PlanError>)
        ensures
            r is Ok <==> self.from is Some && self.from->0 <= self.last(self.from->0) && (self.commit
                || self.last(self.from->0) == self.from->0) && self.repeat > 0,
            r is Ok ==> r->Ok_0 == (self.from->0, self.last(self.from->0)),
            self.from is None ==> r == Err::<(u64, u64), PlanError>(PlanError::FromMissing),
            self.from is Some ==> ({
                let from = self.from->0;
                let to = self.last(from);
                &&& to < from ==> r == Err::<(u64, u64), PlanError>(
                    PlanError::ToBeforeFrom { to, from },
                )
                &&& to > from && !self.commit ==> r == Err::<(u64, u64), PlanError>(
                    PlanError::NeedsCommit { from, to },
                )
                &&& to >= from && (to == from || self.commit) && self.repeat == 0 ==> r == Err::<
                    (u64, u64),
                    PlanError,
                >(PlanError::NoRepeats)
            }),
    {
        let from = match self.from {
            Some(from) => from,
            None => return Err(PlanError::FromMissing),
        };
        let to = match self.to {
            Some(to) => to,
            None => from,
        };
        if to < from {
            return Err(PlanError::ToBeforeFrom { to, from });
        }
        if to > from && !self.commit {
            return Err(PlanError::NeedsCommit { from, to });
        }
        if self.repeat == 0 {
            return Err(PlanError::NoRepeats);
        }
        Ok((from, to))
    }
}

/// Why the tip does not hold up.
#[derive(Clone, Copy, Debug, PartialEq, Eq)]
pub enum TipRootError {
    /// The tip has no header.
    NoHeader {
        /// The tip.
        tip: u64,
    },
    /// The trie tables do not hash to the state root in the tip's header, so that no witness or
    /// state root derived from them can be correct.
    Mismatch {
        /// The tip.
        tip: u64,
        /// The root computed from the trie tables.
        computed: B256,
        /// The root in the header.
        expected: B256,
    },
}

/// The state root in the tip's header.
pub fn tip_state_root(tip: u64, header: Option<B256>) -> (r: Result<B256, TipRootError>)
    ensures
        header is Some ==> r == Ok::<B256, TipRootError>(header->0),
        header is None ==> r == Err::<B256, TipRootError>(TipRootError::NoHeader { tip }),
{
    match header {
        Some(state_root) => Ok(state_root),
        None => Err(TipRootError::NoHeader { tip }),
    }
}

/// Compares the state root of the tip, recomputed from the trie tables, with its header.
pub fn check_tip_root(tip: u64, computed: B256, expected: B256) -> (r: Result<(), TipRootError>)
    ensures
        r is Ok <==> computed@ == expected@,
        r is Err ==> r->Err_0 == (TipRootError::Mismatch { tip, computed, expected }),
{
    if same_bytes(computed.as_slice(), expected.as_slice()) {
        Ok(())
    } else {
        Err(TipRootError::Mismatch { tip, computed, expected })
    }
}

/// A block whose computed state root is not the one in its header: the trie tables are not
/// consistent with the plain state, and every measurement after this point is meaningless.
#[derive(Clone, Copy, Debug, PartialEq, Eq, Structural)]
pub struct RootMismatch {
    /// The number of the block.
    pub number: u64,
}

/// The block after `number` in a replay up to `to` that nothing stops.
pub open spec fn following(number: u64, to: u64) -> Option<u64> {
    if number == to {
        None
    } else {
        Some((number + 1) as u64)
    }
}

/// A replay under way: which blocks are left.
#[derive(Clone, Copy, Debug, PartialEq, Eq, Structural)]
pub struct Replay {
    next: Option<u64>,
    to: u64,
    verify_root: bool,
}

impl Replay {
    /// The block to be replayed next, if any is left.
    pub closed spec fn upcoming(self) -> Option<u64> {
        self.next
    }

    /// The last block.
    pub closed spec fn last(self) -> u64 {
        self.to
    }

    /// Whether the replay stops at a block whose state root does not match.
    pub closed spec fn verifies(self) -> bool {
        self.verify_root
    }

    /// Whether the next block is not past the last.
    pub open spec fn wf(self) -> bool {
        self.upcoming() is Some ==> self.upcoming()->0 <= self.last()
    }

    /// A replay of the blocks `from` to `to`.
    pub fn new(from: u64, to: u64, verify_root: bool) -> (r: Replay)
        ensures
            r.wf(),
            r.upcoming() == (if from <= to {
                Some(from)
            } else {
                None
            }),
            r.last() == to,
            r.verifies() == verify_root,
    {
        Replay {
            next: if from <= to {
                Some(from)
            } else {
                None
            },
            to,
            verify_root,
        }
    }

    /// The block to be replayed next, if any is left.
    pub fn next(&self) -> (r: Option<u64>)
        ensures
            r == self.upcoming(),
    {
        self.next
    }

    /// Takes the sample of the block that was next: gives the rows to write, and then whether the
    /// replay goes on.
    ///
    /// The rows of a block with a mismatched state root are written like any others.
    pub fn measured(&mut self, sample: &Sample) -> (r: (Vec<SampleRow>, Result<(), RootMismatch>))
        requires
            old(self).wf(),
            old(self).upcoming() == Some(sample.number),
            sample.cold().nanos + sample.t_encode.nanos <= clock::MAX_NANOS,
        ensures
            final(self).wf(),
            final(self).last() == old(self).last(),
            final(self).verifies() == old(self).verifies(),
            r.0@.len() == sample.t_witness@.len(),
            forall|i: int|
                #![trigger r.0@[i]]
                0 <= i < r.0@.len() ==> {
                    &&& r.0@[i].iteration == i + 1
                    &&& r.0@[i].t_witness == sample.t_witness@[i]
                    &&& r.0@[i].cold == (i == 0)
                    &&& sample.describes(r.0@[i].block)
                },
            r.1 is Err <==> !sample.state_root_ok && old(self).verifies(),
            r.1 is Err ==> r.1->Err_0 == (RootMismatch { number: sample.number }),
            final(self).upcoming() == (if r.1 is Err {
                None
            } else {
                following(sample.number, old(self).last())
            }),
    {
        let rows = sample.rows();
        if !sample.state_root_ok && self.verify_root {
            self.next = None;
            return (rows, Err(RootMismatch { number: sample.number }));
        }
        self.next = if sample.number < self.to {
            Some(sample.number + 1)
        } else {
            None
        };
        (rows, Ok(()))
    }
}

/// The blocks that a replay visits where none stops it: all from the first to the last, in order.
pub open spec fn visited(from: u64, to: u64) -> Seq<u64> {
    Seq::new((to - from + 1) as nat, |i: int| (from + i) as u64)
}

/// Each visited block is followed by its child, each but the first by way of its parent, and the last
/// by none: every block is replayed exactly once, right after its parent.
pub proof fn every_block_follows_its_parent(from: u64, to: u64)
    requires
        from <= to,
    ensures
        ({
            let blocks = visited(from, to);
            &&& blocks[0] == from
            &&& blocks.last() == to
            &&& following(blocks.last(), to) is None
            &&& forall|i: int|
                0 <= i < blocks.len() - 1 ==> following(#[trigger] blocks[i], to) == Some(
                    blocks[i + 1],
                )
            &&& forall|i: int|
                0 < i < blocks.len() ==> (#[trigger] blocks[i]) == blocks[i - 1] + 1
        }),
{
}

/// A replay without a last block is of the first alone.
pub proof fn a_replay_ends_where_it_is_asked_to(options: Options, from: u64)
    ensures
        options.to is Some ==> options.last(from) == options.to->0,
        options.to is None ==> options.last(from) == from,
{
}

/// Before the last block comes the next, and after it none.
pub proof fn each_block_is_followed_by_the_next(number: u64, to: u64)
    requires
        number <= to,
    ensures
        number < to ==> following(number, to) is Some && following(number, to)->0 == number + 1,
        number == to ==> following(number, to) is None,
{
}

/// A run is planned exactly where it has a first block, a last that is not before it, a witness pass to
/// make, and leave to persist where there are several blocks; the plan is the blocks that were asked
/// for.
pub proof fn a_run_is_planned_as_asked(
    options: Options,
    plan: Result<(u64, u64), PlanError>,
    access: AccessRights,
)
    requires
        call_ensures(Options::plan, (&options,), plan),
        call_ensures(Options::access, (&options,), access),
    ensures
        ({
            let from = options.from->0;
            let to = if options.to is Some {
                options.to->0
            } else {
                from
            };
            &&& plan is Ok <==> options.from is Some && from <= to && (from == to || options.commit)
                && options.repeat > 0
            &&& plan is Ok ==> plan->Ok_0.0 == from && plan->Ok_0.1 == to
            &&& plan is Ok && from < to ==> access == AccessRights::RW
            &&& options.from is None ==> plan->Err_0 is FromMissing
            &&& options.from is Some && to < from ==> plan->Err_0 == (PlanError::ToBeforeFrom {
                to,
                from,
            })
            &&& options.from is Some && from < to && !options.commit ==> plan->Err_0 == (
            PlanError::NeedsCommit { from, to })
        }),
        access == AccessRights::RW <==> options.commit,
        !options.commit && options.allow_inconsistent ==> access == AccessRights::RoInconsistent,
        !options.commit && !options.allow_inconsistent ==> access == AccessRights::RO,
{
}

/// The tip holds up exactly where it has a header and the recomputed root is the one in it.
pub proof fn the_tip_is_held_to_its_header(
    tip: u64,
    header: Option<B256>,
    computed: B256,
    expected: Result<B256, TipRootError>,
    checked: Result<(), TipRootError>,
)
    requires
        call_ensures(tip_state_root, (tip, header), expected),
        expected is Ok ==> call_ensures(check_tip_root, (tip, computed, expected->Ok_0), checked),
    ensures
        expected is Ok <==> header is Some,
        header is Some ==> (checked is Ok <==> computed@ == header->0@),
        header is Some && checked is Err ==> checked->Err_0 == (TipRootError::Mismatch {
            tip,
            computed,
            expected: header->0,
        }),
        header is None ==> expected->Err_0 == (TipRootError::NoHeader { tip }),
{
}

/// A replay begins with its first block, and is over at once where the last comes before it.
pub proof fn a_replay_begins_with_its_first_block(from: u64, to: u64, verify: bool, replay: Replay)
    requires
        call_ensures(Replay::new, (from, to, verify), replay),
    ensures
        from <= to ==> replay.upcoming() == Some(from),
        from > to ==> replay.upcoming() is None,
        replay.last() == to,
        replay.verifies() == verify,
{
}

/// A measured block is reported with a row for each of its passes, whatever its root. The replay goes on
/// with the next block unless this was the last or its root is wrong and roots are verified; then it
/// names the block and stops.
pub proof fn a_replay_goes_on_while_roots_are_right(
    replay: &mut Replay,
    sample: Sample,
    rows: Vec<SampleRow>,
    outcome: Result<(), RootMismatch>,
)
    requires
        call_ensures(Replay::measured, (replay, &sample), (rows, outcome)),
        sample.number <= old(replay).last(),
    ensures
        rows@.len() == sample.t_witness@.len(),
        forall|i: int|
            0 <= i < rows@.len() ==> (#[trigger] rows@[i]).t_witness == sample.t_witness@[i]
                && rows@[i].iteration == i + 1,
        outcome is Err <==> !sample.state_root_ok && old(replay).verifies(),
        outcome is Err ==> outcome->Err_0.number == sample.number && final(replay).upcoming() is None,
        outcome is Ok && sample.number < old(replay).last() ==> final(replay).upcoming() is Some
            && final(replay).upcoming()->0 == sample.number + 1,
        outcome is Ok && sample.number == old(replay).last() ==> final(replay).upcoming() is None,
        final(replay).last() == old(replay).last(),
{
}

} // verus!
