//! The record of an executed block, and the execution witness that is made from it.

use vstd::prelude::*;
use crate::bytes;
use crate::bytes::{copy_bytes, sort, Bytes};
use crate::clock::Duration;
use crate::hash;
use crate::hashed_state;
use crate::hashed_state::{record_account, Account, CacheAccount, HashedPostState};
use crate::meter;
use crate::meter::{Probe, StepGuard, StepMeter, WitnessTiming};

verus! {

/// Which form of witness is generated.
#[derive(Clone, Copy, Debug, PartialEq, Eq, Structural)]
pub enum ExecutionWitnessMode {
    /// Every code that was seen, in the order in which it was found.
    Legacy,
    /// The codes that were read, without empty ones and in lexicographic order.
    Canonical,
}

/// The state after a block was executed: what a witness is made from.
#[derive(Debug)]
pub struct ExecutedState {
    /// The codes that were loaded.
    pub contracts: Vec<Bytes>,
    /// The codes that were created.
    pub bundle_contracts: Vec<Bytes>,
    /// The accounts that were touched.
    pub accounts: Vec<CacheAccount>,
    /// The lowest block number whose hash was asked for, if any was.
    pub lowest_block_hash: Option<u64>,
}

/// Whether `codes` is what a witness of the given form holds of a state.
pub open spec fn codes_recorded(
    codes: Seq<Seq<u8>>,
    state: ExecutedState,
    mode: ExecutionWitnessMode,
) -> bool {
    match mode {
        ExecutionWitnessMode::Legacy => codes == bytes::contents(state.contracts@)
            + bytes::contents(state.bundle_contracts@),
        ExecutionWitnessMode::Canonical => {
            &&& bytes::lex_sorted(codes)
            &&& codes.to_multiset() == bytes::contents(state.contracts@).filter(
                |code: Seq<u8>| code.len() > 0,
            ).to_multiset()
        },
    }
}

/// Copies a list of byte strings onto the end of another.
fn append_copies(out: &mut Vec<Bytes>, list: &Vec<Bytes>)
    ensures
        bytes::contents(final(out)@) == bytes::contents(old(out)@) + bytes::contents(list@),
{
    let mut i: usize = 0;
    assert(bytes::contents(out@) =~= bytes::contents(old(out)@) + bytes::contents(list@.take(0)));
    while i < list.len()
        invariant
            i <= list.len(),
            bytes::contents(out@) == bytes::contents(old(out)@) + bytes::contents(
                list@.take(i as int),
            ),
        decreases list.len() - i,
    {
        let ghost before = out@;
        out.push(copy_bytes(list[i].as_slice()));
        i += 1;
        assert(bytes::contents(out@) =~= bytes::contents(before).push(list@[i - 1]@));
        assert(bytes::contents(list@.take(i as int)) =~= bytes::contents(list@.take(i - 1)).push(
            list@[i - 1]@,
        ));
        assert(bytes::contents(out@) =~= bytes::contents(old(out)@) + bytes::contents(
            list@.take(i as int),
        ));
    }
    assert(list@.take(list@.len() as int) =~= list@);
}

/// Copies of the byte strings of a list that are not empty.
fn copy_nonempty(list: &Vec<Bytes>) -> (r: Vec<Bytes>)
    ensures
        bytes::contents(r@) == bytes::contents(list@).filter(|code: Seq<u8>| code.len() > 0),
{
    let ghost pred = |code: Seq<u8>| code.len() > 0;
    let mut out: Vec<Bytes> = Vec::new();
    let mut i: usize = 0;
    proof {
        reveal(Seq::filter);
        assert(bytes::contents(list@.take(0)) =~= Seq::<Seq<u8>>::empty());
        assert(bytes::contents(out@) =~= bytes::contents(list@.take(0)).filter(pred));
    }
    while i < list.len()
        invariant
            i <= list.len(),
            pred == (|code: Seq<u8>| code.len() > 0),
            bytes::contents(out@) == bytes::contents(list@.take(i as int)).filter(pred),
        decreases list.len() - i,
    {
        let ghost before = out@;
        let ghost shorter = bytes::contents(list@.take(i as int));
        let ghost longer = bytes::contents(list@.take(i + 1));
        proof {
            reveal(Seq::filter);
            assert(longer.drop_last() =~= shorter);
            assert(longer.last() == list@[i as int]@);
        }
        if list[i].len() > 0 {
            out.push(copy_bytes(list[i].as_slice()));
            assert(bytes::contents(out@) =~= bytes::contents(before).push(list@[i as int]@));
        }
        i += 1;
    }
    assert(list@.take(list@.len() as int) =~= list@);
    out
}

/// The codes that a witness of the given form holds of a state.
fn collect_codes(state: &ExecutedState, mode: ExecutionWitnessMode) -> (r: Vec<Bytes>)
    ensures
        codes_recorded(bytes::contents(r@), *state, mode),
{
    match mode {
        ExecutionWitnessMode::Legacy => {
            let mut codes: Vec<Bytes> = Vec::new();
            append_copies(&mut codes, &state.contracts);
            // A contract created within the block is not among the loaded ones.
            append_copies(&mut codes, &state.bundle_contracts);
            assert(bytes::contents(codes@) =~= bytes::contents(state.contracts@) + bytes::contents(
                state.bundle_contracts@,
            ));
            codes
        },
        ExecutionWitnessMode::Canonical => sort(copy_nonempty(&state.contracts)),
    }
}

/// What is read to begin a step and to end it measures the whole step.
proof fn lemma_whole_step<F: Fn() -> (u64, u64)>(
    a: Probe<F>,
    b: Probe<F>,
    c: Probe<F>,
    step: StepGuard,
    meter: StepMeter,
)
    requires
        a.before(b),
        a.since(b) == step.opening(),
        b.before(c),
        step.ended(b.since(c), meter),
    ensures
        a.before(c),
        a.since(c).len() == 4,
        meter::is_step(a.since(c), meter),
{
    meter::lemma_then(a, b, c);
    assert(a.since(c).skip(2) =~= b.since(c));
    assert(a.since(c).take(2) =~= a.since(b));
}

/// Tracks state changes during execution.
#[derive(Clone, Debug)]
pub struct ExecutionWitnessRecord {
    /// Records all state changes.
    pub hashed_state: HashedPostState,
    /// The codes of all contracts that were created or read during the execution of the block.
    pub codes: Vec<Bytes>,
    /// The unhashed addresses and storage slots whose hashes the state is kept under.
    pub keys: Vec<Bytes>,
    /// The lowest block number whose hash the execution asked for.
    ///
    /// This decides which ancestor headers the witness holds. `None` where it asked for none.
    pub lowest_block_number: Option<u64>,
    /// Per-step timings and page-fault counts, filled in as the record is built.
    pub timing: WitnessTiming,
}

impl Default for ExecutionWitnessRecord {
    fn default() -> (r: ExecutionWitnessRecord)
        ensures
            r.hashed_state@.accounts == Map::<Seq<u8>, Option<Account>>::empty(),
            r.hashed_state@.storages == Map::<Seq<u8>, hashed_state::StorageView>::empty(),
            r.codes@.len() == 0,
            r.keys@.len() == 0,
            r.lowest_block_number is None,
            r.timing == meter::no_timing(),
    {
        ExecutionWitnessRecord {
            hashed_state: HashedPostState::empty(),
            codes: Vec::new(),
            keys: Vec::new(),
            lowest_block_number: None,
            timing: WitnessTiming::default(),
        }
    }
}

impl ExecutionWitnessRecord {
    /// Records the state after execution for a witness of the given form.
    ///
    /// The codes are those of this state alone. Accounts and keys are added to what is there.
    ///
    /// Two steps are measured, one after the other: collecting the codes, and hashing addresses and
    /// slots.
    pub fn record_executed_state<F: Fn() -> (u64, u64)>(
        &mut self,
        state: &ExecutedState,
        mode: ExecutionWitnessMode,
        probe: &mut Probe<F>,
    )
        requires
            old(probe).wf(),
        ensures
            codes_recorded(bytes::contents(final(self).codes@), *state, mode),
            final(self).hashed_state@ == hashed_state::with_accounts(old(self).hashed_state@, state.accounts@),
            bytes::contents(final(self).keys@) == bytes::contents(old(self).keys@) + hashed_state::all_keys(
                state.accounts@,
            ),
            forall|i: int|
                #![trigger state.accounts@[i]]
                0 <= i < state.accounts@.len() && state.accounts@[i].account is Some && (forall|j: int|
                    i < j < state.accounts@.len() ==> hash::keccak256_of(
                        (#[trigger] state.accounts@[j]).address@,
                    ) != hash::keccak256_of(state.accounts@[i].address@)) ==> {
                    let info = state.accounts@[i].account->0.info;
                    let entered = final(self).hashed_state@.accounts[hash::keccak256_of(
                        state.accounts@[i].address@,
                    )];
                    &&& entered is Some
                    &&& entered->0.nonce == info.nonce
                    &&& entered->0.balance == info.balance
                    &&& entered->0.bytecode_hash is None <==> info.code_hash@ == hash::keccak256_of(
                        Seq::<u8>::empty(),
                    )
                },
            final(self).lowest_block_number == state.lowest_block_hash,
            old(probe).before(*final(probe)),
            old(probe).since(*final(probe)).len() == 8,
            meter::is_step(old(probe).since(*final(probe)).take(4), final(self).timing.codes),
            meter::is_step(old(probe).since(*final(probe)).skip(4), final(self).timing.hash),
            final(self).timing.trie == old(self).timing.trie,
            final(self).timing.headers == old(self).timing.headers,
    {
        let ghost p0 = *probe;
        let step = StepGuard::start(probe);
        let ghost p1 = *probe;
        self.codes = collect_codes(state, mode);
        self.timing.codes = step.stop(probe);
        let ghost p2 = *probe;
        proof {
            lemma_whole_step(p0, p1, p2, step, self.timing.codes);
        }

        let step = StepGuard::start(probe);
        let ghost p3 = *probe;
        let ghost accounts = state.accounts@;
        let mut i: usize = 0;
        assert(accounts.take(0) =~= Seq::<CacheAccount>::empty());
        assert(bytes::contents(self.keys@) =~= bytes::contents(old(self).keys@) + hashed_state::all_keys(
            accounts.take(0),
        ));
        while i < state.accounts.len()
            invariant
                i <= state.accounts.len(),
                accounts == state.accounts@,
                self.hashed_state@ == hashed_state::with_accounts(
                    old(self).hashed_state@,
                    accounts.take(i as int),
                ),
                bytes::contents(self.keys@) == bytes::contents(old(self).keys@) + hashed_state::all_keys(
                    accounts.take(i as int),
                ),
                codes_recorded(bytes::contents(self.codes@), *state, mode),
                meter::is_step(p0.since(p2), self.timing.codes),
                self.timing.trie == old(self).timing.trie,
                self.timing.headers == old(self).timing.headers,
            decreases state.accounts.len() - i,
        {
            record_account(&mut self.hashed_state, &mut self.keys, &state.accounts[i]);
            i += 1;
            proof {
                assert(accounts.take(i as int).drop_last() =~= accounts.take(i - 1));
                assert(bytes::contents(self.keys@) =~= bytes::contents(old(self).keys@)
                    + hashed_state::all_keys(accounts.take(i as int)));
            }
        }
        assert(accounts.take(accounts.len() as int) =~= accounts);
        self.lowest_block_number = state.lowest_block_hash;
        self.timing.hash = step.stop(probe);
        proof {
            lemma_whole_step(p2, p3, *probe, step, self.timing.hash);
            meter::lemma_then(p0, p2, *probe);
            assert(p0.since(*probe).take(4) =~= p0.since(p2));
            assert(p0.since(*probe).skip(4) =~= p2.since(*probe));
            assert forall|i: int|
                #![trigger accounts[i]]
                0 <= i < accounts.len() && accounts[i].account is Some && (forall|j: int|
                    i < j < accounts.len() ==> hash::keccak256_of((#[trigger] accounts[j]).address@)
                        != hash::keccak256_of(accounts[i].address@)) implies ({
                let info = accounts[i].account->0.info;
                let entered = self.hashed_state@.accounts[hash::keccak256_of(accounts[i].address@)];
                &&& entered is Some
                &&& entered->0.nonce == info.nonce
                &&& entered->0.balance == info.balance
                &&& entered->0.bytecode_hash is None <==> info.code_hash@ == hash::keccak256_of(
                    Seq::<u8>::empty(),
                )
            }) by {
                hashed_state::the_last_of_an_account_is_recorded(
                    old(self).hashed_state@,
                    accounts,
                    i,
                );
            }
        }
    }

    /// Creates the record from the state after execution.
    pub fn from_executed_state<F: Fn() -> (u64, u64)>(
        state: &ExecutedState,
        mode: ExecutionWitnessMode,
        probe: &mut Probe<F>,
    ) -> (r: ExecutionWitnessRecord)
        requires
            old(probe).wf(),
        ensures
            codes_recorded(bytes::contents(r.codes@), *state, mode),
            r.hashed_state@ == hashed_state::with_accounts(hashed_state::nothing_hashed(), state.accounts@),
            bytes::contents(r.keys@) == hashed_state::all_keys(state.accounts@),
            forall|i: int|
                #![trigger state.accounts@[i]]
                0 <= i < state.accounts@.len() && state.accounts@[i].account is Some && (forall|j: int|
                    i < j < state.accounts@.len() ==> hash::keccak256_of(
                        (#[trigger] state.accounts@[j]).address@,
                    ) != hash::keccak256_of(state.accounts@[i].address@)) ==> {
                    let info = state.accounts@[i].account->0.info;
                    let entered = r.hashed_state@.accounts[hash::keccak256_of(
                        state.accounts@[i].address@,
                    )];
                    &&& entered is Some
                    &&& entered->0.nonce == info.nonce
                    &&& entered->0.balance == info.balance
                    &&& entered->0.bytecode_hash is None <==> info.code_hash@ == hash::keccak256_of(
                        Seq::<u8>::empty(),
                    )
                },
            r.lowest_block_number == state.lowest_block_hash,
            old(probe).before(*final(probe)),
            old(probe).since(*final(probe)).len() == 8,
            meter::is_step(old(probe).since(*final(probe)).take(4), r.timing.codes),
            meter::is_step(old(probe).since(*final(probe)).skip(4), r.timing.hash),
            r.timing.trie == meter::no_step(),
            r.timing.headers == meter::no_step(),
    {
        let mut record = ExecutionWitnessRecord::default();
        assert(record.hashed_state@ == hashed_state::nothing_hashed());
        assert(bytes::contents(record.keys@) =~= Seq::<Seq<u8>>::empty());
        record.record_executed_state(state, mode, probe);
        assert(bytes::contents(record.keys@) =~= hashed_state::all_keys(state.accounts@));
        record
    }

    /// Begins to turn this record into a complete witness of block `block_number`.
    ///
    /// The record's hashed state is handed out: the caller has the state provider prove it in the
    /// given form, and hands the trie nodes to [`WitnessTrie::with_state`].
    pub fn into_execution_witness<F: Fn() -> (u64, u64)>(
        self,
        block_number: u64,
        mode: ExecutionWitnessMode,
        probe: &mut Probe<F>,
    ) -> (r: (ProofRequest, WitnessTrie))
        requires
            old(probe).wf(),
        ensures
            r.0.hashed_state == self.hashed_state,
            r.0.mode == mode,
            r.1.record() == (RecordView {
                codes: self.codes@,
                keys: self.keys@,
                lowest_block_number: self.lowest_block_number,
                timing: self.timing,
                block_number,
            }),
            old(probe).before(*final(probe)),
            old(probe).since(*final(probe)) == r.1.step().opening(),
    {
        let ExecutionWitnessRecord { hashed_state, codes, keys, lowest_block_number, timing } =
            self;
        let step = StepGuard::start(probe);
        (
            ProofRequest { hashed_state, mode },
            WitnessTrie { codes, keys, lowest_block_number, timing, block_number, step },
        )
    }
}

/// What a state provider is asked to prove.
#[derive(Debug)]
pub struct ProofRequest {
    /// The accounts and slots to prove.
    pub hashed_state: HashedPostState,
    /// The form of the witness.
    pub mode: ExecutionWitnessMode,
}

/// What is left of a record while its proof is fetched.
pub struct RecordView {
    /// The recorded codes.
    pub codes: Seq<Bytes>,
    /// The recorded keys.
    pub keys: Seq<Bytes>,
    /// The lowest block number whose hash the execution asked for.
    pub lowest_block_number: Option<u64>,
    /// The timings so far.
    pub timing: WitnessTiming,
    /// The number of the block being witnessed.
    pub block_number: u64,
}

/// A witness that waits for its trie nodes.
#[derive(Debug)]
pub struct WitnessTrie {
    codes: Vec<Bytes>,
    keys: Vec<Bytes>,
    lowest_block_number: Option<u64>,
    timing: WitnessTiming,
    block_number: u64,
    step: StepGuard,
}

/// The first block whose header a witness holds: the lowest one whose hash was asked for, or else
/// the parent.
pub open spec fn first_ancestor(lowest_block_number: Option<u64>, block_number: u64) -> u64 {
    match lowest_block_number {
        Some(lowest) => lowest,
        None => if block_number == 0 {
            0
        } else {
            (block_number - 1) as u64
        },
    }
}

/// The ancestors whose headers a witness holds: from `start` up to but not including `end`.
#[derive(Clone, Copy, Debug, PartialEq, Eq, Structural)]
pub struct AncestorRange {
    /// The first block.
    pub start: u64,
    /// The block after the last.
    pub end: u64,
}

impl WitnessTrie {
    /// What is left of the record.
    pub closed spec fn record(self) -> RecordView {
        RecordView {
            codes: self.codes@,
            keys: self.keys@,
            lowest_block_number: self.lowest_block_number,
            timing: self.timing,
            block_number: self.block_number,
        }
    }

    /// The trie walk, as it is being measured.
    pub closed spec fn step(self) -> StepGuard {
        self.step
    }

    /// Takes the trie nodes, or passes the failure to fetch them on.
    ///
    /// Gives the ancestors whose headers are needed next. The caller fetches and encodes them, and
    /// hands them to [`WitnessHeaders::with_headers`].
    pub fn with_state<E, F: Fn() -> (u64, u64)>(
        self,
        state: Result<Vec<Bytes>, E>,
        probe: &mut Probe<F>,
    ) -> (r: Result<(AncestorRange, WitnessHeaders), E>)
        requires
            old(probe).wf(),
        ensures
            state is Err <==> r is Err,
            state is Err ==> r->Err_0 == state->Err_0 && *final(probe) == *old(probe),
            state is Ok ==> ({
                let (range, next) = r->Ok_0;
                &&& range.start == first_ancestor(
                    self.record().lowest_block_number,
                    self.record().block_number,
                )
                &&& range.end == self.record().block_number
                &&& next.state() == state->Ok_0@
                &&& old(probe).before(*final(probe))
                &&& old(probe).since(*final(probe)).len() == 4
                &&& self.step().ended(
                    old(probe).since(*final(probe)).take(2),
                    next.record().timing.trie,
                )
                &&& old(probe).since(*final(probe)).skip(2) == next.step().opening()
                &&& next.record() == (RecordView {
                    timing: WitnessTiming {
                        trie: next.record().timing.trie,
                        ..self.record().timing
                    },
                    ..self.record()
                })
            }),
    {
        let WitnessTrie { codes, keys, lowest_block_number, timing, block_number, step } = self;
        let state = match state {
            Ok(state) => state,
            Err(error) => return Err(error),
        };
        let ghost p0 = *probe;
        let trie = step.stop(probe);
        let ghost p1 = *probe;
        let step = StepGuard::start(probe);
        proof {
            meter::lemma_then(p0, p1, *probe);
            assert(p0.since(*probe).take(2) =~= p0.since(p1));
            assert(p0.since(*probe).skip(2) =~= p1.since(*probe));
        }
        let start = match lowest_block_number {
            Some(lowest) => lowest,
            None => block_number.saturating_sub(1),
        };
        let timing = WitnessTiming {
            codes: timing.codes,
            hash: timing.hash,
            trie,
            headers: timing.headers,
        };
        Ok(
            (
                AncestorRange { start, end: block_number },
                WitnessHeaders { state, codes, keys, lowest_block_number, timing, block_number, step },
            ),
        )
    }
}

/// A witness that waits for its ancestor headers.
#[derive(Debug)]
pub struct WitnessHeaders {
    state: Vec<Bytes>,
    codes: Vec<Bytes>,
    keys: Vec<Bytes>,
    lowest_block_number: Option<u64>,
    timing: WitnessTiming,
    block_number: u64,
    step: StepGuard,
}

/// What a block's state transition can be checked with, without the state.
#[derive(Debug)]
pub struct ExecutionWitness {
    /// The trie nodes.
    pub state: Vec<Bytes>,
    /// The codes of contracts.
    pub codes: Vec<Bytes>,
    /// The unhashed addresses and slots.
    pub keys: Vec<Bytes>,
    /// The encoded headers of ancestors.
    pub headers: Vec<Bytes>,
}

/// The event that reports how a witness was generated.
///
/// `trie` is the only step that walks the database; the rest are memory or CPU, so a large count of
/// major faults on any other step means something unexpected is faulting.
#[derive(Clone, Copy, Debug, PartialEq, Eq, Structural)]
pub struct WitnessEvent {
    /// The number of the block.
    pub block_number: u64,
    /// How many trie nodes the witness holds.
    pub nodes: usize,
    /// How many codes.
    pub codes: usize,
    /// How many keys.
    pub keys: usize,
    /// How many headers.
    pub headers: usize,
    /// Microseconds spent on codes.
    pub us_codes: u64,
    /// Microseconds spent on hashing.
    pub us_hash: u64,
    /// Microseconds spent on the trie walk.
    pub us_trie: u64,
    /// Microseconds spent on headers.
    pub us_headers: u64,
    /// Major faults while collecting codes.
    pub major_codes: u64,
    /// Major faults while hashing.
    pub major_hash: u64,
    /// Major faults during the trie walk.
    pub major_trie: u64,
    /// Major faults while fetching headers.
    pub major_headers: u64,
    /// Minor faults during the trie walk.
    pub minor_trie: u64,
}

/// Whole microseconds of a span, the low 64 bits.
pub open spec fn whole_micros(span: Duration) -> int {
    (span.nanos as int / 1000) % 0x1_0000_0000_0000_0000
}

impl WitnessEvent {
    /// Whether the event reports the timing of a witness and its sizes.
    pub open spec fn reports(
        self,
        block_number: u64,
        witness: ExecutionWitness,
        timing: WitnessTiming,
    ) -> bool {
        &&& self.block_number == block_number
        &&& self.nodes == witness.state@.len()
        &&& self.codes == witness.codes@.len()
        &&& self.keys == witness.keys@.len()
        &&& self.headers == witness.headers@.len()
        &&& self.us_codes == whole_micros(timing.codes.elapsed)
        &&& self.us_hash == whole_micros(timing.hash.elapsed)
        &&& self.us_trie == whole_micros(timing.trie.elapsed)
        &&& self.us_headers == whole_micros(timing.headers.elapsed)
        &&& self.major_codes == timing.codes.major_faults
        &&& self.major_hash == timing.hash.major_faults
        &&& self.major_trie == timing.trie.major_faults
        &&& self.major_headers == timing.headers.major_faults
        &&& self.minor_trie == timing.trie.minor_faults
    }

    /// The event that reports the timing of a witness.
    pub fn of(block_number: u64, witness: &ExecutionWitness, timing: &WitnessTiming) -> (r:
        WitnessEvent)
        ensures
            r.reports(block_number, *witness, *timing),
    {
        WitnessEvent {
            block_number,
            nodes: witness.state.len(),
            codes: witness.codes.len(),
            keys: witness.keys.len(),
            headers: witness.headers.len(),
            us_codes: timing.codes.elapsed.micros(),
            us_hash: timing.hash.elapsed.micros(),
            us_trie: timing.trie.elapsed.micros(),
            us_headers: timing.headers.elapsed.micros(),
            major_codes: timing.codes.major_faults,
            major_hash: timing.hash.major_faults,
            major_trie: timing.trie.major_faults,
            major_headers: timing.headers.major_faults,
            minor_trie: timing.trie.minor_faults,
        }
    }
}

impl WitnessHeaders {
    /// What is left of the record.
    pub closed spec fn record(self) -> RecordView {
        RecordView {
            codes: self.codes@,
            keys: self.keys@,
            lowest_block_number: self.lowest_block_number,
            timing: self.timing,
            block_number: self.block_number,
        }
    }

    /// The trie nodes.
    pub closed spec fn state(self) -> Seq<Bytes> {
        self.state@
    }

    /// The search for headers, as it is being measured.
    pub closed spec fn step(self) -> StepGuard {
        self.step
    }

    /// Takes the encoded headers of the ancestors, or passes the failure to fetch them on.
    ///
    /// Gives the finished witness and the event that reports it.
    pub fn with_headers<E, F: Fn() -> (u64, u64)>(
        self,
        headers: Result<Vec<Bytes>, E>,
        probe: &mut Probe<F>,
    ) -> (r: Result<(ExecutionWitness, WitnessEvent), E>)
        requires
            old(probe).wf(),
        ensures
            headers is Err <==> r is Err,
            headers is Err ==> r->Err_0 == headers->Err_0 && *final(probe) == *old(probe),
            headers is Ok ==> ({
                let (witness, event) = r->Ok_0;
                &&& witness.state@ == self.state()
                &&& witness.codes@ == self.record().codes
                &&& witness.keys@ == self.record().keys
                &&& witness.headers@ == headers->Ok_0@
                &&& old(probe).before(*final(probe))
                &&& exists|meter: StepMeter| #[trigger]
                    self.step().ended(old(probe).since(*final(probe)), meter) && event.reports(
                        self.record().block_number,
                        witness,
                        WitnessTiming { headers: meter, ..self.record().timing },
                    )
            }),
    {
        let WitnessHeaders { state, codes, keys, timing, block_number, step, .. } = self;
        let headers = match headers {
            Ok(headers) => headers,
            Err(error) => return Err(error),
        };
        let meter = step.stop(probe);
        assert(self.step().ended(old(probe).since(*probe), meter));
        let timing = WitnessTiming {
            codes: timing.codes,
            hash: timing.hash,
            trie: timing.trie,
            headers: meter,
        };
        let witness = ExecutionWitness { state, codes, keys, headers };
        let event = WitnessEvent::of(block_number, &witness, &timing);
        Ok((witness, event))
    }
}

/// The codes of a canonical witness do not depend on the order in which the loaded codes are met.
pub proof fn canonical_codes_have_one_order(
    a: ExecutedState,
    b: ExecutedState,
    codes_a: Seq<Seq<u8>>,
    codes_b: Seq<Seq<u8>>,
)
    requires
        bytes::contents(a.contracts@).to_multiset() == bytes::contents(b.contracts@).to_multiset(),
        codes_recorded(codes_a, a, ExecutionWitnessMode::Canonical),
        codes_recorded(codes_b, b, ExecutionWitnessMode::Canonical),
    ensures
        codes_a == codes_b,
{
    let pred = |code: Seq<u8>| code.len() > 0;
    lemma_filter_multiset(bytes::contents(a.contracts@), pred);
    lemma_filter_multiset(bytes::contents(b.contracts@), pred);
    bytes::sorted_lists_agree(codes_a, codes_b);
}

/// The multiset of a filtered sequence is the filtered multiset.
proof fn lemma_filter_multiset(s: Seq<Seq<u8>>, pred: spec_fn(Seq<u8>) -> bool)
    ensures
        s.filter(pred).to_multiset() =~= s.to_multiset().filter(pred),
    decreases s.len(),
{
    reveal(Seq::filter);
    broadcast use vstd::seq_lib::group_to_multiset_ensures;

    s.to_multiset_ensures();
    if s.len() > 0 {
        let shorter = s.drop_last();
        lemma_filter_multiset(shorter, pred);
        shorter.to_multiset_ensures();
        shorter.filter(pred).to_multiset_ensures();
        assert(s =~= shorter.push(s.last()));
        assert(s.to_multiset() =~= shorter.to_multiset().insert(s.last()));
    } else {
        assert(s.to_multiset().filter(pred) =~= vstd::multiset::Multiset::<Seq<u8>>::empty());
        assert(s.filter(pred).to_multiset() =~= vstd::multiset::Multiset::<Seq<u8>>::empty());
    }
}

/// Where no block hash was asked for, the only ancestor header is the parent's.
pub proof fn only_the_parent_without_block_hashes(block_number: u64)
    requires
        block_number > 0,
    ensures
        first_ancestor(None, block_number) + 1 == block_number,
{
}

/// A witness of the older form holds every code that was loaded and then every one that was created, as
/// they were found.
pub proof fn older_witnesses_hold_every_code(codes: Seq<Seq<u8>>, state: ExecutedState)
    requires
        codes_recorded(codes, state, ExecutionWitnessMode::Legacy),
    ensures
        codes.len() == state.contracts@.len() + state.bundle_contracts@.len(),
        forall|i: int|
            0 <= i < state.contracts@.len() ==> #[trigger] codes[i] == state.contracts@[i]@,
        forall|i: int|
            0 <= i < state.bundle_contracts@.len() ==> #[trigger] codes[state.contracts@.len() + i]
                == state.bundle_contracts@[i]@,
{
}

/// A canonical witness holds every loaded code that is not empty, as often as it was loaded, and no
/// other, each in its place of the lexicographic order.
pub proof fn canonical_witnesses_hold_the_loaded_codes(
    codes: Seq<Seq<u8>>,
    state: ExecutedState,
    code: Seq<u8>,
)
    requires
        codes_recorded(codes, state, ExecutionWitnessMode::Canonical),
    ensures
        code.len() > 0 ==> codes.to_multiset().count(code) == bytes::contents(
            state.contracts@,
        ).to_multiset().count(code),
        code.len() == 0 ==> codes.to_multiset().count(code) == 0,
        forall|i: int, j: int|
            0 <= i < j < codes.len() ==> !bytes::lex_less(#[trigger] codes[j], #[trigger] codes[i]),
{
    let pred = |code: Seq<u8>| code.len() > 0;
    lemma_filter_multiset(bytes::contents(state.contracts@), pred);
}

/// The headers of a witness begin at the lowest block whose hash was asked for, and at the parent where
/// none was; there is nothing before the first block of all.
pub proof fn headers_begin_at_the_lowest_block(lowest: Option<u64>, block_number: u64)
    ensures
        lowest is Some ==> first_ancestor(lowest, block_number) == lowest->0,
        lowest is None && block_number > 0 ==> first_ancestor(lowest, block_number) + 1
            == block_number,
        lowest is None && block_number == 0 ==> first_ancestor(lowest, block_number) == 0,
{
}

/// The event of a witness reports how many items of each kind it holds, and of each step its own time in
/// whole microseconds and its own faults.
pub proof fn an_event_reports_each_step(
    event: WitnessEvent,
    block_number: u64,
    witness: ExecutionWitness,
    timing: WitnessTiming,
)
    requires
        event.reports(block_number, witness, timing),
        timing.codes.elapsed.nanos < 1000 * 0x1_0000_0000_0000_0000,
        timing.hash.elapsed.nanos < 1000 * 0x1_0000_0000_0000_0000,
        timing.trie.elapsed.nanos < 1000 * 0x1_0000_0000_0000_0000,
        timing.headers.elapsed.nanos < 1000 * 0x1_0000_0000_0000_0000,
    ensures
        event.block_number == block_number,
        event.nodes == witness.state@.len(),
        event.codes == witness.codes@.len(),
        event.keys == witness.keys@.len(),
        event.headers == witness.headers@.len(),
        1000 * event.us_codes <= timing.codes.elapsed.nanos < 1000 * (event.us_codes + 1),
        1000 * event.us_hash <= timing.hash.elapsed.nanos < 1000 * (event.us_hash + 1),
        1000 * event.us_trie <= timing.trie.elapsed.nanos < 1000 * (event.us_trie + 1),
        1000 * event.us_headers <= timing.headers.elapsed.nanos < 1000 * (event.us_headers + 1),
        event.major_codes == timing.codes.major_faults,
        event.major_hash == timing.hash.major_faults,
        event.major_trie == timing.trie.major_faults,
        event.major_headers == timing.headers.major_faults,
        event.minor_trie == timing.trie.minor_faults,
{
}

/// A witness holds what was recorded and what was fetched, each list as it was handed in, and asks for
/// the ancestors from the lowest block whose hash was asked for up to its own block.
pub proof fn a_witness_holds_what_was_recorded_and_fetched<E, F: Fn() -> (u64, u64)>(
    record: ExecutionWitnessRecord,
    block_number: u64,
    mode: ExecutionWitnessMode,
    first: &mut Probe<F>,
    request: ProofRequest,
    trie: WitnessTrie,
    state: Vec<Bytes>,
    second: &mut Probe<F>,
    range: AncestorRange,
    waiting: WitnessHeaders,
    headers: Vec<Bytes>,
    third: &mut Probe<F>,
    witness: ExecutionWitness,
    event: WitnessEvent,
)
    requires
        call_ensures(
            ExecutionWitnessRecord::into_execution_witness::<F>,
            (record, block_number, mode, first),
            (request, trie),
        ),
        call_ensures(
            WitnessTrie::with_state::<E, F>,
            (trie, Ok(state), second),
            Ok((range, waiting)),
        ),
        call_ensures(
            WitnessHeaders::with_headers::<E, F>,
            (waiting, Ok(headers), third),
            Ok((witness, event)),
        ),
    ensures
        request.hashed_state == record.hashed_state,
        request.mode == mode,
        record.lowest_block_number is Some ==> range.start == record.lowest_block_number->0,
        record.lowest_block_number is None && block_number > 0 ==> range.start + 1 == block_number,
        range.end == block_number,
        witness.state@ == state@,
        witness.codes@ == record.codes@,
        witness.keys@ == record.keys@,
        witness.headers@ == headers@,
        event.block_number == block_number,
        event.headers == headers@.len(),
        event.major_codes == record.timing.codes.major_faults,
        event.major_hash == record.timing.hash.major_faults,
{
}

} // verus!
