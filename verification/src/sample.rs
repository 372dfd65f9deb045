//! What is measured of one block, and the rows that report it.

use vstd::prelude::*;
use crate::bytes::B256;
use crate::clock;
use crate::clock::{first_or_zero, shortest_after_first, Duration};

verus! {

/// One measurement of one block.
#[derive(Debug)]
pub struct Sample {
    /// The number of the block.
    pub number: u64,
    /// The gas it used.
    pub gas_used: u64,
    /// How many transactions it holds.
    pub tx_count: usize,
    /// How many trie nodes the witness holds.
    pub witness_nodes: usize,
    /// How many bytes those come to.
    pub witness_bytes: u128,
    /// How many codes the witness holds.
    pub codes: usize,
    /// How many bytes those come to.
    pub codes_bytes: u128,
    /// How many keys the witness holds.
    pub keys: usize,
    /// How many headers the witness holds.
    pub headers: usize,
    /// How far back `BLOCKHASH` reached, in blocks. Zero if it was never called.
    pub blockhash_depth: u64,
    /// How many bytes the serialized witness comes to.
    pub encoded_bytes: usize,
    /// How many bytes of it were written, after compression.
    pub saved_bytes: usize,
    /// Whether the computed state root is the one in the header.
    pub state_root_ok: bool,
    /// The state root that was computed.
    pub computed_state_root: B256,
    /// The state root in the header.
    pub expected_state_root: B256,
    /// Time to fetch the block.
    pub t_fetch: Duration,
    /// Time to execute it, without the witness passes.
    pub t_exec: Duration,
    /// Time of each witness pass. The first is cold; the rest run against a warm page cache.
    pub t_witness: Vec<Duration>,
    /// Time to serialize the witness.
    pub t_encode: Duration,
    /// Time to compute the state root.
    pub t_state_root: Duration,
    /// Time to persist the block.
    pub t_persist: Duration,
    /// Time of the executions that came before the measured one.
    pub t_pre_execute: Duration,
    /// Whether those computed the state root too.
    pub pre_root: bool,
    /// Time to compress and write the witness.
    pub t_save: Duration,
}

/// The columns of a row that belong to the block and not to one witness pass.
#[derive(Clone, Copy, Debug, PartialEq, Eq)]
pub struct BlockColumns {
    /// The number of the block.
    pub number: u64,
    /// How many witness passes there were.
    pub repeats: usize,
    /// The gas the block used.
    pub gas_used: u64,
    /// How many transactions it holds.
    pub tx_count: usize,
    /// How many trie nodes the witness holds.
    pub witness_nodes: usize,
    /// How many bytes those come to.
    pub witness_bytes: u128,
    /// How many codes the witness holds.
    pub codes: usize,
    /// How many bytes those come to.
    pub codes_bytes: u128,
    /// How many keys the witness holds.
    pub keys: usize,
    /// How many headers the witness holds.
    pub headers: usize,
    /// How far back `BLOCKHASH` reached.
    pub blockhash_depth: u64,
    /// How many bytes the serialized witness comes to.
    pub encoded_bytes: usize,
    /// How many bytes of it were written.
    pub saved_bytes: usize,
    /// Whether the computed state root is the one in the header.
    pub state_root_ok: bool,
    /// The state root that was computed.
    pub computed_state_root: B256,
    /// The state root in the header.
    pub expected_state_root: B256,
    /// Time to fetch the block.
    pub t_fetch: Duration,
    /// Time to execute it.
    pub t_exec: Duration,
    /// Time to serialize the witness.
    pub t_encode: Duration,
    /// Time to compute the state root.
    pub t_state_root: Duration,
    /// Time to persist the block.
    pub t_persist: Duration,
    /// Time of the executions that came before.
    pub t_pre_execute: Duration,
    /// Whether those computed the state root too.
    pub pre_root: bool,
    /// Time to compress and write the witness.
    pub t_save: Duration,
    /// Time of the cold witness pass.
    pub t_witness_cold: Duration,
    /// Time of the shortest warm one, where there is any.
    pub t_witness_warm: Option<Duration>,
    /// Everything that a builder would not otherwise have paid.
    pub t_marginal: Duration,
}

/// One row: a witness pass, with everything known of its block, so that each row stands alone.
#[derive(Clone, Copy, Debug, PartialEq, Eq)]
pub struct SampleRow {
    /// Which pass this is, counted from one.
    pub iteration: usize,
    /// Its time.
    pub t_witness: Duration,
    /// Whether it is the one pass that had to fault its trie nodes in from disk.
    pub cold: bool,
    /// What belongs to the block.
    pub block: BlockColumns,
}

impl Sample {
    /// The time of the first witness pass, none where there was no pass.
    pub open spec fn cold(self) -> Duration {
        if self.t_witness@.len() > 0 {
            self.t_witness@[0]
        } else {
            Duration { nanos: 0 }
        }
    }

    /// Whether nothing has been measured.
    pub open spec fn unmeasured(self) -> bool {
        let none = Duration { nanos: 0 };
        &&& self.gas_used == 0
        &&& self.tx_count == 0
        &&& self.witness_nodes == 0
        &&& self.witness_bytes == 0
        &&& self.codes == 0
        &&& self.codes_bytes == 0
        &&& self.keys == 0
        &&& self.headers == 0
        &&& self.blockhash_depth == 0
        &&& self.encoded_bytes == 0
        &&& self.saved_bytes == 0
        &&& !self.state_root_ok
        &&& self.computed_state_root@ == Seq::new(32, |i: int| 0u8)
        &&& self.expected_state_root@ == Seq::new(32, |i: int| 0u8)
        &&& self.t_fetch == none
        &&& self.t_exec == none
        &&& self.t_witness@.len() == 0
        &&& self.t_encode == none
        &&& self.t_state_root == none
        &&& self.t_persist == none
        &&& self.t_pre_execute == none
        &&& !self.pre_root
        &&& self.t_save == none
    }

    /// Whether `columns` are what the rows of this sample say of the block.
    pub open spec fn describes(self, columns: BlockColumns) -> bool {
        &&& columns.number == self.number
        &&& columns.repeats == self.t_witness@.len()
        &&& columns.gas_used == self.gas_used
        &&& columns.tx_count == self.tx_count
        &&& columns.witness_nodes == self.witness_nodes
        &&& columns.witness_bytes == self.witness_bytes
        &&& columns.codes == self.codes
        &&& columns.codes_bytes == self.codes_bytes
        &&& columns.keys == self.keys
        &&& columns.headers == self.headers
        &&& columns.blockhash_depth == self.blockhash_depth
        &&& columns.encoded_bytes == self.encoded_bytes
        &&& columns.saved_bytes == self.saved_bytes
        &&& columns.state_root_ok == self.state_root_ok
        &&& columns.computed_state_root == self.computed_state_root
        &&& columns.expected_state_root == self.expected_state_root
        &&& columns.t_fetch == self.t_fetch
        &&& columns.t_exec == self.t_exec
        &&& columns.t_encode == self.t_encode
        &&& columns.t_state_root == self.t_state_root
        &&& columns.t_persist == self.t_persist
        &&& columns.t_pre_execute == self.t_pre_execute
        &&& columns.pre_root == self.pre_root
        &&& columns.t_save == self.t_save
        &&& columns.t_witness_cold == self.cold()
        &&& columns.t_witness_warm is None <==> self.t_witness@.len() <= 1
        &&& columns.t_witness_warm is Some ==> clock::is_shortest(
            self.t_witness@.skip(1),
            columns.t_witness_warm->0,
        )
        &&& columns.t_marginal.nanos == self.cold().nanos + self.t_encode.nanos
    }

    /// A sample of block `number` of which nothing has been measured.
    pub fn new(number: u64) -> (r: Sample)
        ensures
            r.number == number,
            r.unmeasured(),
    {
        let zeros: B256 = [0;32];
        assert(zeros@ =~= Seq::new(32, |i: int| 0u8));
        Sample {
            number,
            gas_used: 0,
            tx_count: 0,
            witness_nodes: 0,
            witness_bytes: 0,
            codes: 0,
            codes_bytes: 0,
            keys: 0,
            headers: 0,
            blockhash_depth: 0,
            encoded_bytes: 0,
            saved_bytes: 0,
            state_root_ok: false,
            computed_state_root: zeros,
            expected_state_root: zeros,
            t_fetch: Duration::zero(),
            t_exec: Duration::zero(),
            t_witness: Vec::new(),
            t_encode: Duration::zero(),
            t_state_root: Duration::zero(),
            t_persist: Duration::zero(),
            t_pre_execute: Duration::zero(),
            pre_root: false,
            t_save: Duration::zero(),
        }
    }

    /// The cold witness pass: the first and only one a builder gets for a given parent.
    pub fn witness_cold(&self) -> (r: Duration)
        ensures
            r == self.cold(),
    {
        first_or_zero(&self.t_witness)
    }

    /// The floor the witness pass converges to once the trie nodes it touches are cached.
    ///
    /// `None` for a single pass, which says nothing about the warm case.
    pub fn witness_warm(&self) -> (r: Option<Duration>)
        ensures
            r is None <==> self.t_witness@.len() <= 1,
            r is Some ==> clock::is_shortest(self.t_witness@.skip(1), r->0),
    {
        shortest_after_first(&self.t_witness)
    }

    /// Everything the builder would not otherwise have paid.
    pub fn marginal(&self) -> (r: Duration)
        requires
            self.cold().nanos + self.t_encode.nanos <= clock::MAX_NANOS,
        ensures
            r.nanos == self.cold().nanos + self.t_encode.nanos,
    {
        self.witness_cold().plus(self.t_encode)
    }

    /// The columns that belong to the block.
    fn columns(&self) -> (r: BlockColumns)
        requires
            self.cold().nanos + self.t_encode.nanos <= clock::MAX_NANOS,
        ensures
            self.describes(r),
    {
        BlockColumns {
            number: self.number,
            repeats: self.t_witness.len(),
            gas_used: self.gas_used,
            tx_count: self.tx_count,
            witness_nodes: self.witness_nodes,
            witness_bytes: self.witness_bytes,
            codes: self.codes,
            codes_bytes: self.codes_bytes,
            keys: self.keys,
            headers: self.headers,
            blockhash_depth: self.blockhash_depth,
            encoded_bytes: self.encoded_bytes,
            saved_bytes: self.saved_bytes,
            state_root_ok: self.state_root_ok,
            computed_state_root: self.computed_state_root,
            expected_state_root: self.expected_state_root,
            t_fetch: self.t_fetch,
            t_exec: self.t_exec,
            t_encode: self.t_encode,
            t_state_root: self.t_state_root,
            t_persist: self.t_persist,
            t_pre_execute: self.t_pre_execute,
            pre_root: self.pre_root,
            t_save: self.t_save,
            t_witness_cold: self.witness_cold(),
            t_witness_warm: self.witness_warm(),
            t_marginal: self.marginal(),
        }
    }

    /// One row per witness pass.
    ///
    /// The pass and its time are the only things that differ between the rows of a block.
    /// Everything else is a property of the block and was measured once; it is repeated on every
    /// row, so summing those columns across rows counts them more than once.
    pub fn rows(&self) -> (r: Vec<SampleRow>)
        requires
            self.cold().nanos + self.t_encode.nanos <= clock::MAX_NANOS,
        ensures
            r@.len() == self.t_witness@.len(),
            forall|i: int|
                #![trigger r@[i]]
                0 <= i < r@.len() ==> {
                    &&& r@[i].iteration == i + 1
                    &&& r@[i].t_witness == self.t_witness@[i]
                    &&& r@[i].cold == (i == 0)
                    &&& self.describes(r@[i].block)
                    &&& r@[i].block == r@[0].block
                    &&& r@[i].block.repeats == self.t_witness@.len()
                    &&& r@[i].block.t_witness_cold == self.t_witness@[0]
                    &&& r@[i].block.t_marginal.nanos == self.t_witness@[0].nanos + self.t_encode.nanos
                    &&& r@[i].block.number == self.number
                    &&& r@[i].block.gas_used == self.gas_used
                    &&& r@[i].block.tx_count == self.tx_count
                    &&& r@[i].block.witness_nodes == self.witness_nodes
                    &&& r@[i].block.witness_bytes == self.witness_bytes
                    &&& r@[i].block.codes == self.codes
                    &&& r@[i].block.codes_bytes == self.codes_bytes
                    &&& r@[i].block.keys == self.keys
                    &&& r@[i].block.headers == self.headers
                    &&& r@[i].block.blockhash_depth == self.blockhash_depth
                    &&& r@[i].block.encoded_bytes == self.encoded_bytes
                    &&& r@[i].block.saved_bytes == self.saved_bytes
                    &&& r@[i].block.state_root_ok == self.state_root_ok
                    &&& r@[i].block.computed_state_root == self.computed_state_root
                    &&& r@[i].block.expected_state_root == self.expected_state_root
                    &&& r@[i].block.t_fetch == self.t_fetch
                    &&& r@[i].block.t_exec == self.t_exec
                    &&& r@[i].block.t_encode == self.t_encode
                    &&& r@[i].block.t_state_root == self.t_state_root
                    &&& r@[i].block.t_persist == self.t_persist
                    &&& r@[i].block.t_pre_execute == self.t_pre_execute
                    &&& r@[i].block.pre_root == self.pre_root
                    &&& r@[i].block.t_save == self.t_save
                },
    {
        let block = self.columns();
        let mut rows: Vec<SampleRow> = Vec::new();
        let mut i: usize = 0;
        while i < self.t_witness.len()
            invariant
                i <= self.t_witness.len(),
                rows@.len() == i,
                self.describes(block),
                forall|j: int|
                    #![trigger rows@[j]]
                    0 <= j < i ==> {
                        &&& rows@[j].iteration == j + 1
                        &&& rows@[j].t_witness == self.t_witness@[j]
                        &&& rows@[j].cold == (j == 0)
                        &&& rows@[j].block == block
                    },
            decreases self.t_witness.len() - i,
        {
            rows.push(
                SampleRow { iteration: i + 1, t_witness: self.t_witness[i], cold: i == 0, block },
            );
            i += 1;
        }
        rows
    }
}

/// The columns of a block report what was measured of it, each the figure of its own name. The cold
/// time is that of the first pass, the warm one the shortest of the others, and the marginal cost the
/// cold time and that of serializing.
pub proof fn columns_report_what_was_measured(sample: Sample, columns: BlockColumns)
    requires
        sample.describes(columns),
    ensures
        columns.number == sample.number,
        columns.repeats == sample.t_witness@.len(),
        columns.gas_used == sample.gas_used,
        columns.tx_count == sample.tx_count,
        columns.witness_nodes == sample.witness_nodes,
        columns.witness_bytes == sample.witness_bytes,
        columns.codes == sample.codes,
        columns.codes_bytes == sample.codes_bytes,
        columns.keys == sample.keys,
        columns.headers == sample.headers,
        columns.blockhash_depth == sample.blockhash_depth,
        columns.encoded_bytes == sample.encoded_bytes,
        columns.saved_bytes == sample.saved_bytes,
        columns.state_root_ok == sample.state_root_ok,
        columns.computed_state_root == sample.computed_state_root,
        columns.expected_state_root == sample.expected_state_root,
        columns.t_fetch == sample.t_fetch,
        columns.t_exec == sample.t_exec,
        columns.t_encode == sample.t_encode,
        columns.t_state_root == sample.t_state_root,
        columns.t_persist == sample.t_persist,
        columns.t_pre_execute == sample.t_pre_execute,
        columns.pre_root == sample.pre_root,
        columns.t_save == sample.t_save,
        sample.t_witness@.len() > 0 ==> columns.t_witness_cold == sample.t_witness@[0]
            && columns.t_marginal.nanos == sample.t_witness@[0].nanos + sample.t_encode.nanos,
        sample.t_witness@.len() == 0 ==> columns.t_witness_cold.nanos == 0
            && columns.t_marginal.nanos == sample.t_encode.nanos,
        columns.t_witness_warm is Some <==> sample.t_witness@.len() >= 2,
        columns.t_witness_warm is Some ==> (exists|i: int|
            1 <= i < sample.t_witness@.len() && #[trigger] sample.t_witness@[i]
                == columns.t_witness_warm->0),
        columns.t_witness_warm is Some ==> forall|i: int|
            1 <= i < sample.t_witness@.len() ==> columns.t_witness_warm->0.nanos <= (
            #[trigger] sample.t_witness@[i]).nanos,
{
    if columns.t_witness_warm is Some {
        let rest = sample.t_witness@.skip(1);
        let warm = columns.t_witness_warm->0;
        let j = choose|j: int| 0 <= j < rest.len() && rest[j] == warm;
        assert(sample.t_witness@[j + 1] == warm);
        assert forall|i: int| 1 <= i < sample.t_witness@.len() implies warm.nanos <= (
        #[trigger] sample.t_witness@[i]).nanos by {
            assert(rest[i - 1] == sample.t_witness@[i]);
        }
    }
}

/// Samples that the same columns describe agree in every time that was measured once: a difference
/// between two measurements shows in their rows.
pub proof fn different_measurements_show(a: Sample, b: Sample, columns: BlockColumns)
    requires
        a.describes(columns),
        b.describes(columns),
    ensures
        a.number == b.number,
        a.t_fetch == b.t_fetch,
        a.t_exec == b.t_exec,
        a.t_encode == b.t_encode,
        a.t_state_root == b.t_state_root,
        a.t_persist == b.t_persist,
        a.t_pre_execute == b.t_pre_execute,
        a.t_save == b.t_save,
        a.t_witness@.len() == b.t_witness@.len(),
{
}

/// Of a new sample nothing is known: every count, size and time is zero, and no root was found right.
pub proof fn a_new_sample_is_blank(sample: Sample)
    requires
        sample.unmeasured(),
    ensures
        sample.gas_used == 0 && sample.tx_count == 0,
        sample.witness_nodes == 0 && sample.witness_bytes == 0,
        sample.codes == 0 && sample.codes_bytes == 0,
        sample.keys == 0 && sample.headers == 0 && sample.blockhash_depth == 0,
        sample.encoded_bytes == 0 && sample.saved_bytes == 0,
        !sample.state_root_ok && !sample.pre_root,
        forall|i: int| 0 <= i < 32 ==> #[trigger] sample.computed_state_root@[i] == 0,
        forall|i: int| 0 <= i < 32 ==> #[trigger] sample.expected_state_root@[i] == 0,
        sample.t_witness@.len() == 0,
        sample.t_fetch.nanos == 0 && sample.t_exec.nanos == 0 && sample.t_encode.nanos == 0,
        sample.t_state_root.nanos == 0 && sample.t_persist.nanos == 0,
        sample.t_pre_execute.nanos == 0 && sample.t_save.nanos == 0,
{
}

/// The cold time is that of the first pass, and no time where there was no pass.
pub proof fn the_first_pass_is_the_cold_one(sample: Sample)
    ensures
        sample.t_witness@.len() > 0 ==> sample.cold() == sample.t_witness@[0],
        sample.t_witness@.len() == 0 ==> sample.cold().nanos == 0,
{
}

/// There is one row for each witness pass, in order, each with its own time and everything that was
/// measured of the block; only the first is cold.
pub proof fn each_pass_has_its_row(sample: Sample, rows: Vec<SampleRow>, i: int)
    requires
        call_ensures(Sample::rows, (&sample,), rows),
        0 <= i < rows@.len(),
    ensures
        rows@.len() == sample.t_witness@.len(),
        rows@[i].iteration == i + 1,
        rows@[i].t_witness == sample.t_witness@[i],
        rows@[i].cold <==> i == 0,
        rows@[i].block.number == sample.number,
        rows@[i].block.t_exec == sample.t_exec,
        rows@[i].block.t_state_root == sample.t_state_root,
        rows@[i].block.t_encode == sample.t_encode,
        rows@[i].block.t_witness_cold == sample.t_witness@[0],
        rows@[i].block.t_marginal.nanos == sample.t_witness@[0].nanos + sample.t_encode.nanos,
{
    columns_report_what_was_measured(sample, rows@[i].block);
}

} // verus!
