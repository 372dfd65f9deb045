//! Measuring one block.
//!
//! The measurement runs as a dialogue. The caller fetches, executes, proves, computes roots and
//! writes, and reports what came of each step and how long it took; this module decides what comes
//! next, what a step's time is charged to, and whether the block may be persisted.
//!
//! `Fetch` → [`Fetched`] → [`Execute`] → [`Executed`] → [`Witnessed`] → [`Encoded`] → [`Saving`] →
//! [`Compressed`] → [`Rooting`], and from there either the finished sample or [`Persist`].

use vstd::prelude::*;
use crate::bytes::{same_bytes, Bytes, B256};
use crate::clock;
use crate::clock::{total, Duration};
use crate::encoding;
use crate::encoding::{witness_to_json, zstd_encode};
use crate::replay::Options;
use crate::sample::Sample;
use crate::text;
use crate::text::numbered;
use crate::witness;
use crate::witness::{ExecutionWitness, ExecutionWitnessMode};

verus! {

/// The form of witness that is measured.
pub fn witness_mode() -> (r: ExecutionWitnessMode)
    ensures
        r == ExecutionWitnessMode::Legacy,
{
    ExecutionWitnessMode::Legacy
}

/// What a measurement needs to know of its block.
#[derive(Clone, Copy, Debug, PartialEq, Eq)]
pub struct BlockFacts {
    /// The gas it used.
    pub gas_used: u64,
    /// How many transactions it holds.
    pub tx_count: usize,
    /// The state root in its header.
    pub state_root: B256,
    /// Its hash.
    pub hash: B256,
}

/// Where a block is read from.
#[derive(Clone, Copy, Debug, PartialEq, Eq, Structural)]
pub enum BlockSource {
    /// A file in the directory of blocks.
    Directory,
    /// The node's own storage.
    Storage,
}

/// How many items of each kind a witness holds.
#[derive(Clone, Copy, Debug, PartialEq, Eq, Structural)]
pub struct Shape {
    /// Trie nodes.
    pub nodes: usize,
    /// Codes.
    pub codes: usize,
    /// Keys.
    pub keys: usize,
    /// Headers.
    pub headers: usize,
}

/// Why a measurement ends without a sample.
#[derive(Debug)]
pub enum MeasureError<E> {
    /// There is no such block on disk.
    BlockNotFound {
        /// The number of the block.
        number: u64,
    },
    /// Two passes over the same state gave witnesses of different shapes. The walk depends on
    /// something other than its inputs, which invalidates every timing.
    NotDeterministic {
        /// The number of the block.
        number: u64,
        /// The shape that the first pass gave.
        first: Option<Shape>,
        /// The first pass that gave another, counted from one.
        repeat: usize,
        /// The shape which that one gave.
        other: Option<Shape>,
    },
    /// No witness pass ran.
    NeverRan {
        /// The number of the block.
        number: u64,
    },
    /// The last witness pass failed.
    Witness(E),
    /// The block is not persisted, because its state root does not match its header.
    RootMismatch {
        /// The number of the block.
        number: u64,
        /// The root that was computed.
        computed: B256,
        /// The root in the header.
        expected: B256,
    },
    /// Storage holds another block of this number: persisting this one would fork it.
    Fork {
        /// The number of the block.
        number: u64,
        /// The hash of the block in storage.
        stored: B256,
        /// The hash of this one.
        given: B256,
    },
}

/// A measurement that waits for its block.
#[derive(Debug)]
pub struct Fetch {
    options: Options,
    sample: Sample,
}

impl Fetch {
    /// What the run was asked to do.
    pub closed spec fn options(self) -> Options {
        self.options
    }

    /// The sample so far.
    pub closed spec fn sample(self) -> Sample {
        self.sample
    }

    /// Begins to measure block `number`.
    pub fn new(number: u64, options: Options) -> (r: Fetch)
        ensures
            r.options() == options,
            r.sample().number == number,
            r.sample().unmeasured(),
    {
        Fetch { options, sample: Sample::new(number) }
    }

    /// Where the block is to be read from.
    pub fn source(&self) -> (r: BlockSource)
        ensures
            r == BlockSource::Directory <==> self.options().blocks_dir,
    {
        if self.options.blocks_dir {
            BlockSource::Directory
        } else {
            BlockSource::Storage
        }
    }

    /// Takes the block and how long it took to fetch it.
    pub fn fetched<E>(self, block: Option<BlockFacts>, elapsed: Duration) -> (r: Result<
        Fetched,
        MeasureError<E>,
    >)
        ensures
            r is Ok <==> block is Some,
            r is Err ==> r->Err_0 == (MeasureError::<E>::BlockNotFound {
                number: self.sample().number,
            }),
            r is Ok ==> {
                &&& r->Ok_0.options() == self.options()
                &&& r->Ok_0.block() == block->0
                &&& r->Ok_0.sample() == (Sample {
                    t_fetch: elapsed,
                    gas_used: block->0.gas_used,
                    tx_count: block->0.tx_count,
                    ..self.sample()
                })
            },
    {
        let Fetch { options, mut sample } = self;
        let block = match block {
            Some(block) => block,
            None => return Err(MeasureError::BlockNotFound { number: sample.number }),
        };
        sample.t_fetch = elapsed;
        sample.gas_used = block.gas_used;
        sample.tx_count = block.tx_count;
        Ok(Fetched { options, block, sample })
    }
}

/// The executions that come before the measured one.
#[derive(Clone, Copy, Debug, PartialEq, Eq, Structural)]
pub struct WarmUp {
    /// How many there are.
    pub runs: u32,
    /// Whether each also computes the state root.
    pub with_root: bool,
}

/// A measurement that has its block.
#[derive(Debug)]
pub struct Fetched {
    options: Options,
    block: BlockFacts,
    sample: Sample,
}

impl Fetched {
    /// What the run was asked to do.
    pub closed spec fn options(self) -> Options {
        self.options
    }

    /// The block.
    pub closed spec fn block(self) -> BlockFacts {
        self.block
    }

    /// The sample so far.
    pub closed spec fn sample(self) -> Sample {
        self.sample
    }

    /// The executions to be made before the measured one, if any.
    pub fn warm_up(&self) -> (r: Option<WarmUp>)
        ensures
            r == (if self.options().pre_execute > 0 {
                Some(
                    WarmUp {
                        runs: self.options().pre_execute,
                        with_root: self.options().pre_root,
                    },
                )
            } else {
                None
            }),
    {
        if self.options.pre_execute > 0 {
            Some(WarmUp { runs: self.options.pre_execute, with_root: self.options.pre_root })
        } else {
            None
        }
    }

    /// Takes how long those executions took. Where there were none the time is not charged.
    pub fn warmed(self, elapsed: Duration) -> (r: Execute)
        ensures
            r.options() == self.options(),
            r.block() == self.block(),
            self.options().pre_execute > 0 ==> r.sample() == (Sample {
                t_pre_execute: elapsed,
                pre_root: self.options().pre_root,
                ..self.sample()
            }),
            self.options().pre_execute == 0 ==> r.sample() == self.sample(),
    {
        let Fetched { options, block, mut sample } = self;
        if options.pre_execute > 0 {
            sample.t_pre_execute = elapsed;
            sample.pre_root = options.pre_root;
        }
        Execute { options, block, sample }
    }
}

/// The shape of a witness, where there is one.
pub open spec fn shape_of<E>(generated: Result<ExecutionWitness, E>) -> Option<Shape> {
    match generated {
        Ok(witness) => Some(
            Shape {
                nodes: witness.state@.len() as usize,
                codes: witness.codes@.len() as usize,
                keys: witness.keys@.len() as usize,
                headers: witness.headers@.len() as usize,
            },
        ),
        Err(_) => None,
    }
}

/// The witness passes over one executed state.
#[derive(Debug)]
pub struct Passes<E> {
    times: Vec<Duration>,
    shapes: Vec<Option<Shape>>,
    last: Option<Result<ExecutionWitness, E>>,
}

impl<E> Passes<E> {
    /// The time of each pass.
    pub closed spec fn times(self) -> Seq<Duration> {
        self.times@
    }

    /// The shape of what each pass gave.
    pub closed spec fn shapes(self) -> Seq<Option<Shape>> {
        self.shapes@
    }

    /// What the last pass gave.
    pub closed spec fn last(self) -> Option<Result<ExecutionWitness, E>> {
        self.last
    }

    /// Whether times, shapes and what the last pass gave belong together.
    pub open spec fn wf(self) -> bool {
        &&& self.times().len() == self.shapes().len()
        &&& self.last() is Some <==> self.shapes().len() > 0
        &&& self.last() is Some ==> self.shapes().last() == shape_of(self.last()->0)
    }

    /// No passes yet.
    pub fn new() -> (r: Passes<E>)
        ensures
            r.wf(),
            r.times().len() == 0,
            r.last() is None,
    {
        Passes { times: Vec::new(), shapes: Vec::new(), last: None }
    }

    /// Adds a pass: what it gave, and its time.
    pub fn push(&mut self, elapsed: Duration, generated: Result<ExecutionWitness, E>)
        requires
            old(self).wf(),
        ensures
            final(self).wf(),
            final(self).times() == old(self).times().push(elapsed),
            final(self).shapes() == old(self).shapes().push(shape_of(generated)),
            final(self).last() == Some(generated),
    {
        self.times.push(elapsed);
        let shape = match &generated {
            Ok(witness) => Some(
                Shape {
                    nodes: witness.state.len(),
                    codes: witness.codes.len(),
                    keys: witness.keys.len(),
                    headers: witness.headers.len(),
                },
            ),
            Err(_) => None,
        };
        self.shapes.push(shape);
        self.last = Some(generated);
    }
}

/// Whether all shapes are the same.
pub open spec fn same_shapes(shapes: Seq<Option<Shape>>) -> bool {
    forall|i: int| 0 <= i < shapes.len() ==> #[trigger] shapes[i] == shapes[0]
}

/// Whether `at` is the first shape that differs from the first of all.
pub open spec fn first_difference(shapes: Seq<Option<Shape>>, at: int) -> bool {
    &&& 0 <= at < shapes.len()
    &&& shapes[at] != shapes[0]
    &&& forall|i: int| 0 <= i < at ==> #[trigger] shapes[i] == shapes[0]
}

/// The first shape that differs from the first of all.
fn find_difference(shapes: &Vec<Option<Shape>>) -> (r: Option<usize>)
    ensures
        r is None <==> same_shapes(shapes@),
        r is Some ==> first_difference(shapes@, r->0 as int),
{
    let mut i: usize = 0;
    while i < shapes.len()
        invariant
            i <= shapes.len(),
            forall|j: int| 0 <= j < i ==> #[trigger] shapes@[j] == shapes@[0],
        decreases shapes.len() - i,
    {
        let same = match (shapes[i], shapes[0]) {
            (Some(a), Some(b)) => a == b,
            (None, None) => true,
            _ => false,
        };
        if !same {
            return Some(i);
        }
        i += 1;
    }
    None
}

/// A measurement that waits for the block to be executed.
#[derive(Debug)]
pub struct Execute {
    options: Options,
    block: BlockFacts,
    sample: Sample,
}

impl Execute {
    /// What the run was asked to do.
    pub closed spec fn options(self) -> Options {
        self.options
    }

    /// The block.
    pub closed spec fn block(self) -> BlockFacts {
        self.block
    }

    /// The sample so far.
    pub closed spec fn sample(self) -> Sample {
        self.sample
    }

    /// Whether these are all the passes of a measurement: as many as the run asks for, or none where
    /// the executed state was never handed out.
    pub open spec fn all_made<E>(self, passes: Passes<E>) -> bool {
        passes.times().len() == 0 || passes.times().len() == self.options().repeat
    }

    /// Tells whether another witness pass is to be made over the executed state.
    pub fn pass_due<E>(&self, passes: &Passes<E>) -> (r: bool)
        ensures
            r <==> passes.times().len() < self.options().repeat,
    {
        (passes.times.len() as u64) < self.options.repeat as u64
    }

    /// Takes the witness passes, and how long the execution took with them.
    ///
    /// There are as many passes as the run asks for, or none at all. The time of the passes is taken
    /// out of that of the execution. Fails where two passes gave witnesses of different shapes.
    pub fn executed<E>(self, passes: Passes<E>, elapsed: Duration) -> (r: Result<
        Executed<E>,
        MeasureError<E>,
    >)
        requires
            passes.wf(),
            self.all_made(passes),
            clock::total_nanos(passes.times()) <= clock::MAX_NANOS,
        ensures
            r is Ok <==> same_shapes(passes.shapes()),
            r is Err ==> exists|at: int| #[trigger]
                first_difference(passes.shapes(), at) && r->Err_0 == (MeasureError::<
                    E,
                >::NotDeterministic {
                    number: self.sample().number,
                    first: passes.shapes()[0],
                    repeat: (at + 1) as usize,
                    other: passes.shapes()[at],
                }),
            r is Ok ==> {
                let next = r->Ok_0;
                &&& next.options() == self.options()
                &&& next.block() == self.block()
                &&& next.last() == passes.last()
                &&& next.sample().t_witness@ == passes.times()
                &&& next.sample().t_exec.nanos == (if elapsed.nanos >= clock::total_nanos(
                    passes.times(),
                ) {
                    elapsed.nanos - clock::total_nanos(passes.times())
                } else {
                    0
                })
                &&& next.sample() == (Sample {
                    t_witness: next.sample().t_witness,
                    t_exec: next.sample().t_exec,
                    ..self.sample()
                })
            },
    {
        let Execute { options, block, mut sample } = self;
        let Passes { times, shapes, last } = passes;
        let in_passes = total(&times);
        sample.t_witness = times;
        sample.t_exec = elapsed.saturating_sub(in_passes);
        if let Some(at) = find_difference(&shapes) {
            assert(first_difference(passes.shapes(), at as int));
            return Err(
                MeasureError::NotDeterministic {
                    number: sample.number,
                    first: shapes[0],
                    repeat: at + 1,
                    other: shapes[at],
                },
            );
        }
        Ok(Executed { options, block, sample, last })
    }
}

/// How many bytes a list of byte strings comes to.
pub open spec fn byte_total(list: Seq<Bytes>) -> nat
    decreases list.len(),
{
    if list.len() == 0 {
        0
    } else {
        byte_total(list.drop_last()) + list.last()@.len()
    }
}

/// A list of byte strings comes to a number of bytes that a `u128` holds.
proof fn lemma_byte_total_fits(list: Seq<Bytes>, n: int)
    requires
        0 <= n <= list.len(),
        list.len() <= usize::MAX,
    ensures
        byte_total(list.take(n)) <= n * 0xffff_ffff_ffff_ffff,
        n * 0xffff_ffff_ffff_ffff <= u128::MAX,
    decreases n,
{
    assert(n * 0xffff_ffff_ffff_ffff <= 0xffff_ffff_ffff_ffff * 0xffff_ffff_ffff_ffff)
        by (nonlinear_arith)
        requires
            n <= 0xffff_ffff_ffff_ffff,
    ;
    if n > 0 {
        lemma_byte_total_fits(list, n - 1);
        assert(list.take(n).drop_last() =~= list.take(n - 1));
        let last = list.take(n).last();
        assert(last@.len() == last.len());
        assert((n - 1) * 0xffff_ffff_ffff_ffff + 0xffff_ffff_ffff_ffff == n
            * 0xffff_ffff_ffff_ffff) by (nonlinear_arith);
    }
}

/// How many bytes a list of byte strings comes to.
pub fn count_bytes(list: &Vec<Bytes>) -> (r: u128)
    ensures
        r == byte_total(list@),
{
    let mut sum: u128 = 0;
    let mut i: usize = 0;
    while i < list.len()
        invariant
            i <= list.len(),
            sum == byte_total(list@.take(i as int)),
        decreases list.len() - i,
    {
        proof {
            assert(list@.take(i + 1).drop_last() =~= list@.take(i as int));
            lemma_byte_total_fits(list@, i + 1);
        }
        sum = sum + list[i].len() as u128;
        i += 1;
    }
    assert(list@.take(list@.len() as int) =~= list@);
    sum
}

/// A measurement whose block has been executed.
#[derive(Debug)]
pub struct Executed<E> {
    options: Options,
    block: BlockFacts,
    sample: Sample,
    last: Option<Result<ExecutionWitness, E>>,
}

impl<E> Executed<E> {
    /// Whether there is a time for every pass that the run asks for, or none where no pass ran.
    #[verifier::type_invariant]
    spec fn repeated(self) -> bool {
        &&& self.last is Some ==> self.sample.t_witness@.len() == self.options.repeat
        &&& self.last is None ==> self.sample.t_witness@.len() == 0
    }

    /// What the run was asked to do.
    pub closed spec fn options(self) -> Options {
        self.options
    }

    /// The block.
    pub closed spec fn block(self) -> BlockFacts {
        self.block
    }

    /// The sample so far.
    pub closed spec fn sample(self) -> Sample {
        self.sample
    }

    /// What the last witness pass gave.
    pub closed spec fn last(self) -> Option<Result<ExecutionWitness, E>> {
        self.last
    }

    /// Goes on once the outcome of the execution has been found valid: takes the witness of the last
    /// pass and counts what it holds.
    pub fn validated(self) -> (r: Result<Witnessed, MeasureError<E>>)
        ensures
            r is Ok <==> self.last() is Some && self.last()->0 is Ok,
            self.last() is None ==> r->Err_0 == (MeasureError::<E>::NeverRan {
                number: self.sample().number,
            }),
            self.last() is Some && self.last()->0 is Err ==> r->Err_0 == MeasureError::Witness(
                self.last()->0->Err_0,
            ),
            r is Ok ==> {
                let next = r->Ok_0;
                let witness = self.last()->0->Ok_0;
                &&& next.options() == self.options()
                &&& next.block() == self.block()
                &&& next.witness() == witness
                &&& next.sample().t_witness@.len() == self.options().repeat
                &&& next.sample() == (Sample {
                    witness_nodes: witness.state@.len() as usize,
                    witness_bytes: byte_total(witness.state@) as u128,
                    codes: witness.codes@.len() as usize,
                    codes_bytes: byte_total(witness.codes@) as u128,
                    keys: witness.keys@.len() as usize,
                    headers: witness.headers@.len() as usize,
                    blockhash_depth: blockhash_depth(witness.headers@.len()),
                    ..self.sample()
                })
            },
    {
        proof {
            use_type_invariant(&self);
        }
        let Executed { options, block, mut sample, last } = self;
        let witness = match last {
            Some(Ok(witness)) => witness,
            Some(Err(error)) => return Err(MeasureError::Witness(error)),
            None => return Err(MeasureError::NeverRan { number: sample.number }),
        };
        sample.witness_nodes = witness.state.len();
        sample.witness_bytes = count_bytes(&witness.state);
        sample.codes = witness.codes.len();
        sample.codes_bytes = count_bytes(&witness.codes);
        sample.keys = witness.keys.len();
        sample.headers = witness.headers.len();
        sample.blockhash_depth = (witness.headers.len() as u64).saturating_sub(1);
        Ok(Witnessed { options, block, sample, witness })
    }
}

/// How far back `BLOCKHASH` reached, by the number of headers: the first is the parent's, and each
/// one more lies one block further back.
pub open spec fn blockhash_depth(headers: nat) -> u64 {
    if headers == 0 {
        0
    } else {
        (headers - 1) as u64
    }
}

/// A witness that could not be serialized.
#[derive(Debug)]
pub struct EncodeError {
    /// Why.
    pub reason: serde_json::Error,
}

/// A measurement that has its witness.
#[derive(Debug)]
pub struct Witnessed {
    options: Options,
    block: BlockFacts,
    sample: Sample,
    witness: ExecutionWitness,
}

impl Witnessed {
    /// Whether there is a time for every pass that the run asks for.
    #[verifier::type_invariant]
    spec fn repeated(self) -> bool {
        self.sample.t_witness@.len() == self.options.repeat
    }

    /// What the run was asked to do.
    pub closed spec fn options(self) -> Options {
        self.options
    }

    /// The block.
    pub closed spec fn block(self) -> BlockFacts {
        self.block
    }

    /// The sample so far.
    pub closed spec fn sample(self) -> Sample {
        self.sample
    }

    /// The witness.
    pub closed spec fn witness(self) -> ExecutionWitness {
        self.witness
    }

    /// Serializes the witness, once, where either the time of that is to be reported or the witness
    /// is to be saved.
    pub fn encode(self) -> (r: Result<Encoded, EncodeError>)
        ensures
            r is Ok,
            r->Ok_0.options() == self.options(),
            r->Ok_0.block() == self.block(),
            r->Ok_0.sample() == self.sample(),
            r->Ok_0.encoded() == (if self.options().encode_witness || self.options().witness_dir {
                Some(encoding::ascii(encoding::witness_json(self.witness())))
            } else {
                None
            }),
    {
        proof {
            use_type_invariant(&self);
        }
        let Witnessed { options, block, sample, witness } = self;
        let encoded = if options.encode_witness || options.witness_dir {
            match witness_to_json(witness) {
                Ok(encoded) => Some(encoded),
                Err(reason) => return Err(EncodeError { reason }),
            }
        } else {
            None
        };
        Ok(Encoded { options, block, sample, encoded })
    }
}

/// A measurement whose witness has been serialized, where that was wanted.
#[derive(Debug)]
pub struct Encoded {
    options: Options,
    block: BlockFacts,
    sample: Sample,
    encoded: Option<Vec<u8>>,
}

impl Encoded {
    /// Whether there is a time for every pass that the run asks for.
    #[verifier::type_invariant]
    spec fn repeated(self) -> bool {
        self.sample.t_witness@.len() == self.options.repeat
    }

    /// What the run was asked to do.
    pub closed spec fn options(self) -> Options {
        self.options
    }

    /// The block.
    pub closed spec fn block(self) -> BlockFacts {
        self.block
    }

    /// The sample so far.
    pub closed spec fn sample(self) -> Sample {
        self.sample
    }

    /// The serialized witness.
    pub closed spec fn encoded(self) -> Option<Seq<u8>> {
        match self.encoded {
            Some(encoded) => Some(encoded@),
            None => None,
        }
    }

    /// Takes how long it took to serialize the witness.
    ///
    /// The time is charged only where it was to be reported. Saving witnesses must not inflate the
    /// marginal cost with work that a builder does not do.
    pub fn timed(self, elapsed: Duration) -> (r: Saving)
        ensures
            r.options() == self.options(),
            r.block() == self.block(),
            r.encoded() == self.encoded(),
            self.options().encode_witness && self.encoded() is Some ==> r.sample() == (Sample {
                t_encode: elapsed,
                encoded_bytes: self.encoded()->0.len() as usize,
                ..self.sample()
            }),
            self.options().encode_witness && self.encoded() is Some ==> r.sample().encoded_bytes
                == self.encoded()->0.len(),
            !self.options().encode_witness || self.encoded() is None ==> r.sample()
                == self.sample(),
    {
        proof {
            use_type_invariant(&self);
        }
        let Encoded { options, block, mut sample, encoded } = self;
        if options.encode_witness {
            if let Some(encoded) = &encoded {
                sample.t_encode = elapsed;
                sample.encoded_bytes = encoded.len();
            }
        }
        Saving { options, block, sample, encoded }
    }
}

/// A witness that could not be compressed.
#[derive(Debug)]
pub struct CompressError {
    /// The number of the block.
    pub number: u64,
    /// Why.
    pub reason: std::io::Error,
}

/// A measurement whose witness may have to be saved.
#[derive(Debug)]
pub struct Saving {
    options: Options,
    block: BlockFacts,
    sample: Sample,
    encoded: Option<Vec<u8>>,
}

impl Saving {
    /// Whether there is a time for every pass that the run asks for.
    #[verifier::type_invariant]
    spec fn repeated(self) -> bool {
        self.sample.t_witness@.len() == self.options.repeat
    }

    /// What the run was asked to do.
    pub closed spec fn options(self) -> Options {
        self.options
    }

    /// The block.
    pub closed spec fn block(self) -> BlockFacts {
        self.block
    }

    /// The sample so far.
    pub closed spec fn sample(self) -> Sample {
        self.sample
    }

    /// The serialized witness.
    pub closed spec fn encoded(self) -> Option<Seq<u8>> {
        match self.encoded {
            Some(encoded) => Some(encoded@),
            None => None,
        }
    }

    /// Whether there is a witness to save.
    pub open spec fn saves(self) -> bool {
        self.options().witness_dir && self.encoded() is Some
    }

    /// Compresses the witness, where it is to be saved.
    ///
    /// Whether the compressor has the memory it needs is not known beforehand.
    pub fn compress(self) -> (r: Result<Compressed, CompressError>)
        ensures
            !self.saves() ==> r is Ok,
            r is Err ==> r->Err_0.number == self.sample().number,
            r is Ok ==> {
                &&& r->Ok_0.options() == self.options()
                &&& r->Ok_0.block() == self.block()
                &&& r->Ok_0.sample() == self.sample()
                &&& r->Ok_0.compressed() == (if self.saves() {
                    Some(
                        encoding::zstd_frame(
                            self.encoded()->0,
                            self.options().witness_zstd_level as int,
                        ),
                    )
                } else {
                    None
                })
            },
    {
        proof {
            use_type_invariant(&self);
        }
        let Saving { options, block, sample, encoded } = self;
        let compressed = match encoded {
            Some(encoded) if options.witness_dir => match zstd_encode(
                encoded.as_slice(),
                options.witness_zstd_level,
            ) {
                Ok(compressed) => Some(compressed),
                Err(reason) => return Err(CompressError { number: sample.number, reason }),
            },
            _ => None,
        };
        Ok(Compressed { options, block, sample, compressed })
    }
}

/// A measurement whose witness has been compressed, where it is to be saved.
#[derive(Debug)]
pub struct Compressed {
    options: Options,
    block: BlockFacts,
    sample: Sample,
    compressed: Option<Vec<u8>>,
}

impl Compressed {
    /// Whether there is a time for every pass that the run asks for.
    #[verifier::type_invariant]
    spec fn repeated(self) -> bool {
        self.sample.t_witness@.len() == self.options.repeat
    }

    /// What the run was asked to do.
    pub closed spec fn options(self) -> Options {
        self.options
    }

    /// The block.
    pub closed spec fn block(self) -> BlockFacts {
        self.block
    }

    /// The sample so far.
    pub closed spec fn sample(self) -> Sample {
        self.sample
    }

    /// The compressed witness, where it is to be saved.
    pub closed spec fn compressed(self) -> Option<Seq<u8>> {
        match self.compressed {
            Some(compressed) => Some(compressed@),
            None => None,
        }
    }

    /// The name of the file that the witness is saved in.
    pub fn file_name(&self) -> (r: String)
        ensures
            r@ == text::numeral(self.sample().number as nat, 10) + ".json.zst"@,
    {
        numbered(self.sample.number, ".json.zst")
    }

    /// What is to be written to that file: the compressed witness. `None` where nothing is to be
    /// saved.
    pub fn contents(&self) -> (r: Option<&Vec<u8>>)
        ensures
            r is Some <==> self.compressed() is Some,
            r is Some ==> r->0@ == self.compressed()->0,
    {
        match &self.compressed {
            Some(compressed) => Some(compressed),
            None => None,
        }
    }

    /// Takes how long it took to compress the witness and write it, once that is done. Where nothing
    /// was to be saved nothing is charged.
    pub fn saved(self, elapsed: Duration) -> (r: Rooting)
        ensures
            r.options() == self.options(),
            r.block() == self.block(),
            self.compressed() is Some ==> r.sample() == (Sample {
                t_save: elapsed,
                saved_bytes: self.compressed()->0.len() as usize,
                ..self.sample()
            }),
            self.compressed() is Some ==> r.sample().saved_bytes == self.compressed()->0.len(),
            self.compressed() is None ==> r.sample() == self.sample(),
    {
        proof {
            use_type_invariant(&self);
        }
        let Compressed { options, block, mut sample, compressed } = self;
        if let Some(compressed) = &compressed {
            sample.t_save = elapsed;
            sample.saved_bytes = compressed.len();
        }
        Rooting { options, block, sample }
    }
}

/// A measurement that waits for the state root.
#[derive(Debug)]
pub struct Rooting {
    options: Options,
    block: BlockFacts,
    sample: Sample,
}

/// What follows once the state root is known.
#[derive(Debug)]
pub enum Rooted {
    /// The block is not to be persisted: this is the sample.
    Measured(Sample),
    /// The block is to be persisted.
    Persist(Persist),
}

impl Rooting {
    /// Whether there is a time for every pass that the run asks for.
    #[verifier::type_invariant]
    spec fn repeated(self) -> bool {
        self.sample.t_witness@.len() == self.options.repeat
    }

    /// What the run was asked to do.
    pub closed spec fn options(self) -> Options {
        self.options
    }

    /// The block.
    pub closed spec fn block(self) -> BlockFacts {
        self.block
    }

    /// The sample so far.
    pub closed spec fn sample(self) -> Sample {
        self.sample
    }

    /// The sample with the state root entered.
    pub open spec fn rooted(self, root: B256, elapsed: Duration) -> Sample {
        Sample {
            t_state_root: elapsed,
            state_root_ok: root@ == self.block().state_root@,
            computed_state_root: root,
            expected_state_root: self.block().state_root,
            ..self.sample()
        }
    }

    /// Takes the state root, and how long it took to compute it.
    ///
    /// A block is persisted only where its root matches its header. A sample holds the time of every
    /// witness pass that the run asks for.
    pub fn with_root<E>(self, root: B256, elapsed: Duration) -> (r: Result<Rooted, MeasureError<E>>)
        ensures
            r is Err <==> self.options().commit && root@ != self.block().state_root@,
            r is Err ==> r->Err_0 == (MeasureError::<E>::RootMismatch {
                number: self.sample().number,
                computed: root,
                expected: self.block().state_root,
            }),
            r is Ok && !self.options().commit ==> {
                &&& r->Ok_0 == Rooted::Measured(self.rooted(root, elapsed))
                &&& self.rooted(root, elapsed).t_witness@.len() == self.options().repeat
            },
            r is Ok && self.options().commit ==> {
                &&& r->Ok_0 matches Rooted::Persist(next)
                &&& next.options() == self.options()
                &&& next.block() == self.block()
                &&& next.sample() == self.rooted(root, elapsed)
            },
    {
        proof {
            use_type_invariant(&self);
        }
        let Rooting { options, block, mut sample } = self;
        sample.t_state_root = elapsed;
        sample.state_root_ok = same_bytes(root.as_slice(), block.state_root.as_slice());
        sample.computed_state_root = root;
        sample.expected_state_root = block.state_root;
        if !options.commit {
            return Ok(Rooted::Measured(sample));
        }
        if !sample.state_root_ok {
            return Err(
                MeasureError::RootMismatch {
                    number: sample.number,
                    computed: root,
                    expected: block.state_root,
                },
            );
        }
        Ok(Rooted::Persist(Persist { options, block, sample }))
    }
}

/// Which tables are written beside the state itself.
#[derive(Clone, Copy, Debug, PartialEq, Eq, Structural)]
pub struct StateWriteConfig {
    /// Receipts.
    pub write_receipts: bool,
    /// The changes of accounts.
    pub write_account_changesets: bool,
    /// The changes of storage.
    pub write_storage_changesets: bool,
}

/// One step of persisting a block.
#[derive(Clone, Copy, Debug, PartialEq, Eq, Structural)]
pub enum Write {
    /// Insert the block itself.
    Block,
    /// Write the state that the execution left.
    State(StateWriteConfig),
    /// Write the hashed state.
    HashedState,
    /// Write the updates of the tries.
    TrieUpdates,
    /// Update the history indices for this block.
    HistoryIndices(u64),
    /// Advance the stage checkpoints to this block.
    StageCheckpoints(u64),
    /// Commit the static files.
    CommitStaticFiles,
    /// Commit the database.
    CommitDatabase,
}

/// A measurement whose block is to be persisted: its state root has been found to match.
#[derive(Debug)]
pub struct Persist {
    options: Options,
    block: BlockFacts,
    sample: Sample,
}

/// The steps of persisting a block, in order. The block itself comes first, since receipts are
/// looked up by what it enters.
pub open spec fn writes(options: Options, number: u64, insert: bool) -> Seq<Write> {
    let block = if insert {
        seq![Write::Block]
    } else {
        Seq::empty()
    };
    let config = StateWriteConfig {
        write_receipts: options.write_side_tables,
        write_account_changesets: options.write_side_tables,
        write_storage_changesets: options.write_side_tables,
    };
    let state = seq![Write::State(config), Write::HashedState, Write::TrieUpdates];
    let history = if options.history_indices {
        seq![Write::HistoryIndices(number)]
    } else {
        Seq::empty()
    };
    let commit = seq![
        Write::StageCheckpoints(number),
        Write::CommitStaticFiles,
        Write::CommitDatabase,
    ];
    block + state + history + commit
}

impl Persist {
    /// Whether there is a time for every pass that the run asks for.
    #[verifier::type_invariant]
    spec fn repeated(self) -> bool {
        self.sample.t_witness@.len() == self.options.repeat
    }

    /// What the run was asked to do.
    pub closed spec fn options(self) -> Options {
        self.options
    }

    /// The block.
    pub closed spec fn block(self) -> BlockFacts {
        self.block
    }

    /// The sample so far.
    pub closed spec fn sample(self) -> Sample {
        self.sample
    }

    /// Whether the hash under which storage holds a block of this number has to be looked up.
    ///
    /// A block that came from a directory may not be on disk yet, and it has to be: later blocks
    /// resolve ancestors against storage. One read out of storage is already there.
    pub fn looks_up_block(&self) -> (r: bool)
        ensures
            r == self.options().blocks_dir,
    {
        self.options.blocks_dir
    }

    /// The steps of persisting the block, given the hash under which storage holds a block of this
    /// number, if any.
    ///
    /// The block is inserted only where it came from a directory and is not in storage: inserting
    /// it again would duplicate entries. One that is there under a different hash is a fork, and
    /// nothing is written.
    pub fn plan<E>(&self, stored: Option<B256>) -> (r: Result<Vec<Write>, MeasureError<E>>)
        ensures
            r is Err <==> self.options().blocks_dir && stored is Some && stored->0@
                != self.block().hash@,
            r is Err ==> r->Err_0 == (MeasureError::<E>::Fork {
                number: self.sample().number,
                stored: stored->0,
                given: self.block().hash,
            }),
            r is Ok ==> r->Ok_0@ == writes(
                self.options(),
                self.sample().number,
                self.options().blocks_dir && stored is None,
            ),
    {
        let mut steps: Vec<Write> = Vec::new();
        if self.options.blocks_dir {
            match stored {
                Some(stored) => {
                    if !same_bytes(stored.as_slice(), self.block.hash.as_slice()) {
                        return Err(
                            MeasureError::Fork {
                                number: self.sample.number,
                                stored,
                                given: self.block.hash,
                            },
                        );
                    }
                },
                None => {
                    steps.push(Write::Block);
                },
            }
        }
        let side_tables = self.options.write_side_tables;
        steps.push(
            Write::State(
                StateWriteConfig {
                    write_receipts: side_tables,
                    write_account_changesets: side_tables,
                    write_storage_changesets: side_tables,
                },
            ),
        );
        steps.push(Write::HashedState);
        steps.push(Write::TrieUpdates);
        if self.options.history_indices {
            steps.push(Write::HistoryIndices(self.sample.number));
        }
        steps.push(Write::StageCheckpoints(self.sample.number));
        steps.push(Write::CommitStaticFiles);
        steps.push(Write::CommitDatabase);
        assert(steps@ =~= writes(
            self.options,
            self.sample.number,
            self.options.blocks_dir && stored is None,
        ));
        Ok(steps)
    }

    /// Takes how long it took to persist the block: this is the sample. It holds the time of every
    /// witness pass that the run asks for.
    pub fn persisted(self, elapsed: Duration) -> (r: Sample)
        ensures
            r == (Sample { t_persist: elapsed, ..self.sample() }),
            r.t_witness@.len() == self.options().repeat,
    {
        proof {
            use_type_invariant(&self);
        }
        let Persist { mut sample, .. } = self;
        sample.t_persist = elapsed;
        sample
    }
}

/// The database is committed once, after every other step: whatever fails before leaves it as it
/// was. The static files are committed right before it.
pub proof fn the_database_is_committed_last(options: Options, number: u64, insert: bool)
    ensures
        ({
            let steps = writes(options, number, insert);
            &&& steps.len() >= 2
            &&& steps.last() == Write::CommitDatabase
            &&& steps[steps.len() - 2] == Write::CommitStaticFiles
            &&& forall|i: int|
                0 <= i < steps.len() - 1 ==> #[trigger] steps[i] != Write::CommitDatabase
        }),
{
}

/// The block is inserted at most once, and before its state is written.
pub proof fn the_block_is_inserted_first(options: Options, number: u64, insert: bool)
    ensures
        ({
            let steps = writes(options, number, insert);
            &&& forall|i: int|
                0 <= i < steps.len() ==> ((#[trigger] steps[i] == Write::Block) <==> insert && i == 0)
        }),
{
}

/// The checkpoints are advanced once, to this block, and only after the state, the hashed state and
/// the tries have been written: the tip never moves to a block whose state is not there.
pub proof fn the_tip_moves_after_the_state(options: Options, number: u64, insert: bool)
    ensures
        ({
            let steps = writes(options, number, insert);
            forall|i: int, j: int|
                0 <= i < steps.len() && 0 <= j < steps.len() && (#[trigger] steps[j]) is StageCheckpoints
                    && ((#[trigger] steps[i]) is State || steps[i] is HashedState
                    || steps[i] is TrieUpdates) ==> i < j && steps[j] == Write::StageCheckpoints(
                    number,
                )
        }),
{
}

/// Receipts and changesets are written all or none.
pub proof fn side_tables_go_together(options: Options, number: u64, insert: bool)
    ensures
        forall|i: int|
            #![trigger writes(options, number, insert)[i]]
            0 <= i < writes(options, number, insert).len() ==> (writes(
                options,
                number,
                insert,
            )[i] matches Write::State(config) ==> config.write_receipts == options.write_side_tables
                && config.write_account_changesets == options.write_side_tables
                && config.write_storage_changesets == options.write_side_tables),
{
}

/// Where a witness holds the headers of all ancestors it should, the reported depth is how far before
/// the parent the lowest block lies whose hash was asked for: zero where none was.
pub proof fn depth_is_the_distance_to_the_parent(
    lowest: Option<u64>,
    number: u64,
    headers: nat,
)
    requires
        witness::first_ancestor(lowest, number) < number,
        headers == number - witness::first_ancestor(lowest, number),
    ensures
        blockhash_depth(headers) == number - 1 - witness::first_ancestor(lowest, number),
        lowest is None ==> blockhash_depth(headers) == 0,
{
}

/// The shape of a witness counts each kind of its items; a pass that failed has none.
pub proof fn a_shape_counts_each_kind<E>(generated: Result<ExecutionWitness, E>)
    ensures
        generated is Err ==> shape_of(generated) is None,
        generated is Ok ==> {
            let witness = generated->Ok_0;
            &&& shape_of(generated) is Some
            &&& shape_of(generated)->0.nodes == witness.state@.len()
            &&& shape_of(generated)->0.codes == witness.codes@.len()
            &&& shape_of(generated)->0.keys == witness.keys@.len()
            &&& shape_of(generated)->0.headers == witness.headers@.len()
        },
{
    if let Ok(witness) = generated {
        assert(witness.state@.len() == witness.state.len());
        assert(witness.codes@.len() == witness.codes.len());
        assert(witness.keys@.len() == witness.keys.len());
        assert(witness.headers@.len() == witness.headers.len());
    }
}

/// Passes agree exactly where no two gave different shapes, and where they do not, there is one first
/// pass that differs from the one at the start.
pub proof fn passes_agree_or_one_differs_first(shapes: Seq<Option<Shape>>)
    ensures
        same_shapes(shapes) <==> forall|i: int, j: int|
            0 <= i < shapes.len() && 0 <= j < shapes.len() ==> (#[trigger] shapes[i]) == (
            #[trigger] shapes[j]),
        same_shapes(shapes) ==> forall|at: int| !#[trigger] first_difference(shapes, at),
        forall|at: int| #[trigger]
            first_difference(shapes, at) ==> 0 < at < shapes.len() && shapes[at] != shapes[0],
        forall|a: int, b: int| #[trigger]
            first_difference(shapes, a) && #[trigger] first_difference(shapes, b) ==> a == b,
{
    if forall|i: int, j: int|
        0 <= i < shapes.len() && 0 <= j < shapes.len() ==> (#[trigger] shapes[i]) == (
        #[trigger] shapes[j]) {
        assert forall|i: int| 0 <= i < shapes.len() implies #[trigger] shapes[i] == shapes[0] by {}
    }
}

/// A list of byte strings comes to the sum of their lengths.
pub proof fn byte_strings_add_up(list: Seq<Bytes>, bytes: Bytes)
    ensures
        byte_total(Seq::<Bytes>::empty()) == 0,
        byte_total(list.push(bytes)) == byte_total(list) + bytes@.len(),
{
    assert(list.push(bytes).drop_last() =~= list);
}

/// One header is the parent's and reaches back no further; each one more reaches one block further.
pub proof fn each_header_reaches_one_block_further(headers: nat)
    requires
        headers <= u64::MAX,
    ensures
        headers <= 1 ==> blockhash_depth(headers) == 0,
        headers > 1 ==> blockhash_depth(headers) + 1 == headers,
{
}

/// The state root enters a sample with its time, beside the one in the header, and counts as right
/// exactly where the two are the same. Everything else of the sample stays.
pub proof fn a_root_enters_beside_the_expected_one(rooting: Rooting, root: B256, elapsed: Duration)
    ensures
        ({
            let before = rooting.sample();
            let after = rooting.rooted(root, elapsed);
            &&& after.t_state_root == elapsed
            &&& after.state_root_ok <==> root@ == rooting.block().state_root@
            &&& after.computed_state_root == root
            &&& after.expected_state_root == rooting.block().state_root
            &&& after.number == before.number
            &&& after.gas_used == before.gas_used
            &&& after.tx_count == before.tx_count
            &&& after.witness_nodes == before.witness_nodes
            &&& after.witness_bytes == before.witness_bytes
            &&& after.codes == before.codes
            &&& after.codes_bytes == before.codes_bytes
            &&& after.keys == before.keys
            &&& after.headers == before.headers
            &&& after.blockhash_depth == before.blockhash_depth
            &&& after.encoded_bytes == before.encoded_bytes
            &&& after.saved_bytes == before.saved_bytes
            &&& after.t_fetch == before.t_fetch
            &&& after.t_exec == before.t_exec
            &&& after.t_witness == before.t_witness
            &&& after.t_encode == before.t_encode
            &&& after.t_persist == before.t_persist
            &&& after.t_pre_execute == before.t_pre_execute
            &&& after.pre_root == before.pre_root
            &&& after.t_save == before.t_save
        }),
{
}

/// Persisting a block writes its state, its hashed state and its tries once each, in this order, and
/// its history indices where they were asked for; then the checkpoints move, and then everything is
/// committed. Nothing else is done.
pub proof fn every_table_is_written_once(options: Options, number: u64, insert: bool)
    ensures
        ({
            let steps = writes(options, number, insert);
            let first = if insert {
                1int
            } else {
                0
            };
            let last = if options.history_indices {
                first + 4
            } else {
                first + 3
            };
            &&& steps.len() == last + 3
            &&& insert ==> steps[0] == Write::Block
            &&& steps[first] matches Write::State(config) && config.write_receipts
                == options.write_side_tables && config.write_account_changesets
                == options.write_side_tables && config.write_storage_changesets
                == options.write_side_tables
            &&& steps[first + 1] == Write::HashedState
            &&& steps[first + 2] == Write::TrieUpdates
            &&& options.history_indices ==> steps[first + 3] == Write::HistoryIndices(number)
            &&& steps[last] == Write::StageCheckpoints(number)
            &&& steps[last + 1] == Write::CommitStaticFiles
            &&& steps[last + 2] == Write::CommitDatabase
        }),
{
}

/// A witness is saved exactly where a directory was named for it and it has been serialized.
pub proof fn a_witness_is_saved_where_it_was_asked_for(saving: Saving)
    ensures
        saving.saves() <==> saving.options().witness_dir && saving.encoded() is Some,
{
}

/// The passes of a measurement are as many as the run asks for, unless there are none at all.
pub proof fn passes_are_as_many_as_asked_for<E>(execute: Execute, passes: Passes<E>)
    ensures
        execute.all_made(passes) <==> passes.times().len() == execute.options().repeat
            || passes.times().len() == 0,
        passes.wf() ==> passes.times().len() == passes.shapes().len(),
        passes.wf() && passes.times().len() > 0 ==> passes.last() is Some && passes.shapes().last()
            == shape_of(passes.last()->0),
        passes.wf() && passes.times().len() == 0 ==> passes.last() is None,
{
}

/// The sample of a block that is not persisted holds what was reported of each phase, each under its own
/// name: the facts of the block, the times of fetching, of every witness pass, of the execution without
/// them, of serializing and saving where those were asked for, and of the state root; and what the
/// witness of the last pass holds.
pub proof fn a_sample_holds_what_each_phase_reported<E>(
    number: u64,
    options: Options,
    fetch: Fetch,
    block: BlockFacts,
    t_fetch: Duration,
    fetched: Fetched,
    t_warm: Duration,
    execute: Execute,
    passes: Passes<E>,
    t_execute: Duration,
    executed: Executed<E>,
    witnessed: Witnessed,
    encoded: Encoded,
    t_encode: Duration,
    saving: Saving,
    compressed: Compressed,
    t_save: Duration,
    rooting: Rooting,
    root: B256,
    t_root: Duration,
    sample: Sample,
)
    requires
        call_ensures(Fetch::new, (number, options), fetch),
        call_ensures(Fetch::fetched::<E>, (fetch, Some(block), t_fetch), Ok(fetched)),
        call_ensures(Fetched::warmed, (fetched, t_warm), execute),
        passes.wf(),
        call_ensures(Execute::executed::<E>, (execute, passes, t_execute), Ok(executed)),
        call_ensures(Executed::<E>::validated, (executed,), Ok(witnessed)),
        call_ensures(Witnessed::encode, (witnessed,), Ok(encoded)),
        call_ensures(Encoded::timed, (encoded, t_encode), saving),
        call_ensures(Saving::compress, (saving,), Ok(compressed)),
        call_ensures(Compressed::saved, (compressed, t_save), rooting),
        call_ensures(
            Rooting::with_root::<E>,
            (rooting, root, t_root),
            Ok(Rooted::Measured(sample)),
        ),
    ensures
        !options.commit,
        sample.number == number,
        sample.gas_used == block.gas_used,
        sample.tx_count == block.tx_count,
        sample.t_fetch == t_fetch,
        options.pre_execute > 0 ==> sample.t_pre_execute == t_warm && sample.pre_root
            == options.pre_root,
        options.pre_execute == 0 ==> sample.t_pre_execute.nanos == 0 && !sample.pre_root,
        sample.t_witness@ == passes.times(),
        sample.t_witness@.len() == options.repeat,
        t_execute.nanos >= clock::total_nanos(passes.times()) ==> sample.t_exec.nanos
            + clock::total_nanos(passes.times()) == t_execute.nanos,
        t_execute.nanos < clock::total_nanos(passes.times()) ==> sample.t_exec.nanos == 0,
        passes.last() is Some && passes.last()->0 is Ok,
        ({
            let witness = passes.last()->0->Ok_0;
            let json = encoding::ascii(encoding::witness_json(witness));
            &&& sample.witness_nodes == witness.state@.len()
            &&& sample.witness_bytes == byte_total(witness.state@)
            &&& sample.codes == witness.codes@.len()
            &&& sample.codes_bytes == byte_total(witness.codes@)
            &&& sample.keys == witness.keys@.len()
            &&& sample.headers == witness.headers@.len()
            &&& witness.headers@.len() > 0 ==> sample.blockhash_depth + 1 == witness.headers@.len()
            &&& options.encode_witness ==> sample.t_encode == t_encode && sample.encoded_bytes
                == json.len()
            &&& !options.encode_witness ==> sample.t_encode.nanos == 0 && sample.encoded_bytes == 0
            &&& options.witness_dir ==> sample.t_save == t_save && sample.saved_bytes
                == encoding::zstd_frame(json, options.witness_zstd_level as int).len()
            &&& !options.witness_dir ==> sample.t_save.nanos == 0 && sample.saved_bytes == 0
        }),
        sample.t_state_root == t_root,
        sample.state_root_ok <==> root@ == block.state_root@,
        sample.computed_state_root == root,
        sample.expected_state_root == block.state_root,
        sample.t_persist.nanos == 0,
{
    let witness = passes.last()->0->Ok_0;
    assert(witness.state@.len() == witness.state.len());
    assert(witness.codes@.len() == witness.codes.len());
    assert(witness.keys@.len() == witness.keys.len());
    assert(witness.headers@.len() == witness.headers.len());
    lemma_byte_total_fits(witness.state@, witness.state@.len() as int);
    lemma_byte_total_fits(witness.codes@, witness.codes@.len() as int);
    assert(witness.state@.take(witness.state@.len() as int) =~= witness.state@);
    assert(witness.codes@.take(witness.codes@.len() as int) =~= witness.codes@);
}

/// A block is persisted exactly where that was asked for and its root is the one in its header, and
/// storage holds no other block of its number; it is inserted where it came from a directory and is not
/// there yet.
pub proof fn a_block_is_persisted_where_its_root_is_right<E>(
    rooting: Rooting,
    root: B256,
    t_root: Duration,
    rooted: Result<Rooted, MeasureError<E>>,
    persist: Persist,
    stored: Option<B256>,
    plan: Result<Vec<Write>, MeasureError<E>>,
    t_persist: Duration,
    sample: Sample,
)
    requires
        call_ensures(Rooting::with_root::<E>, (rooting, root, t_root), rooted),
        rooted == Ok::<Rooted, MeasureError<E>>(Rooted::Persist(persist)),
        call_ensures(Persist::plan::<E>, (&persist, stored), plan),
        call_ensures(Persist::persisted, (persist, t_persist), sample),
    ensures
        rooting.options().commit,
        root@ == rooting.block().state_root@,
        sample.state_root_ok,
        sample.t_persist == t_persist,
        sample.t_state_root == t_root,
        sample.number == rooting.sample().number,
        plan is Err <==> rooting.options().blocks_dir && stored is Some && stored->0@
            != rooting.block().hash@,
        plan is Err ==> plan->Err_0 == (MeasureError::<E>::Fork {
            number: rooting.sample().number,
            stored: stored->0,
            given: rooting.block().hash,
        }),
        plan is Ok ==> (plan->Ok_0@.contains(Write::Block) <==> rooting.options().blocks_dir
            && stored is None),
        plan is Ok ==> plan->Ok_0@.last() == Write::CommitDatabase,
{
    if plan is Ok {
        let insert = rooting.options().blocks_dir && stored is None;
        let steps = writes(rooting.options(), rooting.sample().number, insert);
        the_block_is_inserted_first(rooting.options(), rooting.sample().number, insert);
        if insert {
            assert(steps[0] == Write::Block);
        }
    }
}

/// Where a root is wrong and the block was to be persisted, the measurement ends with both roots.
pub proof fn a_wrong_root_ends_a_persisting_run<E>(
    rooting: Rooting,
    root: B256,
    t_root: Duration,
    rooted: Result<Rooted, MeasureError<E>>,
)
    requires
        call_ensures(Rooting::with_root::<E>, (rooting, root, t_root), rooted),
    ensures
        rooted is Err <==> rooting.options().commit && root@ != rooting.block().state_root@,
        rooted is Err ==> rooted->Err_0 == (MeasureError::<E>::RootMismatch {
            number: rooting.sample().number,
            computed: root,
            expected: rooting.block().state_root,
        }),
        rooted is Ok ==> (rooted->Ok_0 is Persist <==> rooting.options().commit),
{
}

/// A measurement ends without a witness where two passes gave different shapes, where none ran, and
/// where the last one failed, each with its own reason.
pub proof fn a_measurement_without_a_witness_tells_why<E>(
    execute: Execute,
    passes: Passes<E>,
    elapsed: Duration,
    executed: Result<Executed<E>, MeasureError<E>>,
    witnessed: Result<Witnessed, MeasureError<E>>,
)
    requires
        passes.wf(),
        call_ensures(Execute::executed::<E>, (execute, passes, elapsed), executed),
        executed is Ok ==> call_ensures(Executed::<E>::validated, (executed->Ok_0,), witnessed),
    ensures
        executed is Ok <==> forall|i: int, j: int|
            0 <= i < passes.shapes().len() && 0 <= j < passes.shapes().len() ==> (
            #[trigger] passes.shapes()[i]) == (#[trigger] passes.shapes()[j]),
        executed is Err ==> executed->Err_0 is NotDeterministic,
        executed is Ok && passes.times().len() == 0 ==> witnessed->Err_0 == (MeasureError::<
            E,
        >::NeverRan { number: execute.sample().number }),
        executed is Ok && passes.times().len() > 0 && passes.last()->0 is Err ==> witnessed->Err_0
            == MeasureError::Witness(passes.last()->0->Err_0),
        executed is Ok ==> (witnessed is Ok <==> passes.times().len() > 0 && passes.last()->0 is Ok),
{
    passes_agree_or_one_differs_first(passes.shapes());
}

/// A block is read from the directory where there is one and from storage otherwise; it is warmed up as
/// often as was asked for; and storage is searched for it only where it came from the directory.
pub proof fn a_measurement_goes_by_its_options(
    fetch: Fetch,
    source: BlockSource,
    fetched: Fetched,
    warm_up: Option<WarmUp>,
    persist: Persist,
    looked_up: bool,
    mode: ExecutionWitnessMode,
)
    requires
        call_ensures(Fetch::source, (&fetch,), source),
        call_ensures(Fetched::warm_up, (&fetched,), warm_up),
        call_ensures(Persist::looks_up_block, (&persist,), looked_up),
        call_ensures(witness_mode, (), mode),
    ensures
        fetch.options().blocks_dir ==> source == BlockSource::Directory,
        !fetch.options().blocks_dir ==> source == BlockSource::Storage,
        warm_up is Some <==> fetched.options().pre_execute > 0,
        warm_up is Some ==> warm_up->0.runs == fetched.options().pre_execute
            && warm_up->0.with_root == fetched.options().pre_root,
        looked_up <==> persist.options().blocks_dir,
        mode == ExecutionWitnessMode::Legacy,
{
}

} // verus!
