//! Measuring the steps of witness generation: wall time and page faults.

use vstd::prelude::*;
use std::time::Instant;
use crate::clock::{now, since, Duration};

verus! {

/// Wall time and page-fault deltas for one step of witness generation.
///
/// Major page faults are the signal that matters: the database is memory-mapped, so a read that
/// misses the page cache surfaces as a fault rather than as a system call.
#[derive(Clone, Copy, Debug, PartialEq, Eq, Structural)]
pub struct StepMeter {
    /// Wall time for the step.
    pub elapsed: Duration,
    /// Page faults that required disk I/O.
    pub major_faults: u64,
    /// Page faults served without disk I/O.
    pub minor_faults: u64,
}

/// How far a counter went up, zero where it went down.
pub open spec fn count_up(before: u64, after: u64) -> u64 {
    if after >= before {
        (after - before) as u64
    } else {
        0
    }
}

/// The measurement of a step that took nothing.
pub open spec fn no_step() -> StepMeter {
    StepMeter { elapsed: Duration { nanos: 0 }, major_faults: 0, minor_faults: 0 }
}

impl StepMeter {
    /// The measurement between two readings of the `(minor, major)` fault counters.
    pub fn between(elapsed: Duration, before: (u64, u64), after: (u64, u64)) -> (r: StepMeter)
        ensures
            r.elapsed == elapsed,
            r.minor_faults == count_up(before.0, after.0),
            r.major_faults == count_up(before.1, after.1),
    {
        StepMeter {
            elapsed,
            major_faults: after.1.saturating_sub(before.1),
            minor_faults: after.0.saturating_sub(before.0),
        }
    }

    /// A step that took nothing.
    pub fn zero() -> (r: StepMeter)
        ensures
            r == no_step(),
    {
        StepMeter { elapsed: Duration::zero(), major_faults: 0, minor_faults: 0 }
    }
}

impl Default for StepMeter {
    fn default() -> (r: StepMeter)
        ensures
            r == no_step(),
    {
        StepMeter::zero()
    }
}

/// The per-step measurements collected across one witness generation.
#[derive(Clone, Copy, Debug, PartialEq, Eq, Structural)]
pub struct WitnessTiming {
    /// Collecting bytecode preimages. Pure memory.
    pub codes: StepMeter,
    /// Hashing touched addresses and slots into the witness target. Pure CPU.
    pub hash: StepMeter,
    /// The trie walk. This is the step that reads the database.
    pub trie: StepMeter,
    /// Ancestor headers for `BLOCKHASH`, plus encoding.
    pub headers: StepMeter,
}

/// The measurements of a witness generation of which no step has run.
pub open spec fn no_timing() -> WitnessTiming {
    WitnessTiming { codes: no_step(), hash: no_step(), trie: no_step(), headers: no_step() }
}

impl Default for WitnessTiming {
    fn default() -> (r: WitnessTiming)
        ensures
            r == no_timing(),
    {
        WitnessTiming {
            codes: StepMeter::zero(),
            hash: StepMeter::zero(),
            trie: StepMeter::zero(),
            headers: StepMeter::zero(),
        }
    }
}

/// One reading that a probe took.
pub enum Reading {
    /// The clock was read.
    Clock(Instant),
    /// The clock was read again: the time since an earlier moment.
    Elapsed(Instant, Duration),
    /// The `(minor, major)` fault counters were read.
    Faults((u64, u64)),
}

/// What steps are measured with: the machine's clock, and a reader of the `(minor, major)` fault
/// counters.
///
/// It remembers, for proofs alone, what it has read and in which order.
pub struct Probe<F> {
    counters: F,
    readings: Ghost<Seq<Reading>>,
}

impl<F: Fn() -> (u64, u64)> Probe<F> {
    /// The reader of the fault counters.
    pub closed spec fn counters(self) -> F {
        self.counters
    }

    /// What has been read so far, in order.
    pub closed spec fn readings(self) -> Seq<Reading> {
        self.readings@
    }

    /// Whether the counters can be read.
    pub open spec fn wf(self) -> bool {
        self.counters().requires(())
    }

    /// What a later state of this probe has read since.
    pub open spec fn since(self, later: Probe<F>) -> Seq<Reading> {
        later.readings().skip(self.readings().len() as int)
    }

    /// Whether another state of this probe comes later, and has read since what the clock and the
    /// counters gave.
    pub open spec fn before(self, later: Probe<F>) -> bool {
        &&& later.counters() == self.counters()
        &&& later.readings() == self.readings() + self.since(later)
        &&& forall|i: int|
            0 <= i < self.since(later).len() ==> match #[trigger] self.since(later)[i] {
                Reading::Clock(_) => true,
                Reading::Elapsed(_, elapsed) => elapsed.wf(),
                Reading::Faults(faults) => self.counters().ensures((), faults),
            }
    }

    /// A probe that has read nothing.
    pub fn new(counters: F) -> (r: Probe<F>)
        ensures
            r.counters() == counters,
            r.readings() == Seq::<Reading>::empty(),
    {
        Probe { counters, readings: Ghost(Seq::empty()) }
    }

    /// Reads the clock.
    fn clock(&mut self) -> (r: Instant)
        ensures
            old(self).before(*final(self)),
            old(self).since(*final(self)) == seq![Reading::Clock(r)],
    {
        let moment = now();
        proof {
            self.readings@ = self.readings@.push(Reading::Clock(moment));
            assert(old(self).since(*self) =~= seq![Reading::Clock(moment)]);
            assert(self.readings@ =~= old(self).readings@ + seq![Reading::Clock(moment)]);
        }
        moment
    }

    /// Reads the time since a moment off the clock.
    fn elapsed(&mut self, start: Instant) -> (r: Duration)
        ensures
            old(self).before(*final(self)),
            old(self).since(*final(self)) == seq![Reading::Elapsed(start, r)],
    {
        let elapsed = since(&start);
        proof {
            self.readings@ = self.readings@.push(Reading::Elapsed(start, elapsed));
            assert(old(self).since(*self) =~= seq![Reading::Elapsed(start, elapsed)]);
            assert(self.readings@ =~= old(self).readings@ + seq![Reading::Elapsed(start, elapsed)]);
        }
        elapsed
    }

    /// Reads the fault counters.
    fn faults(&mut self) -> (r: (u64, u64))
        requires
            old(self).wf(),
        ensures
            old(self).before(*final(self)),
            old(self).since(*final(self)) == seq![Reading::Faults(r)],
    {
        let faults = (self.counters)();
        proof {
            self.readings@ = self.readings@.push(Reading::Faults(faults));
            assert(old(self).since(*self) =~= seq![Reading::Faults(faults)]);
            assert(self.readings@ =~= old(self).readings@ + seq![Reading::Faults(faults)]);
        }
        faults
    }
}

/// What is read over two stretches of time is what is read over the first, then over the second.
pub proof fn lemma_then<F: Fn() -> (u64, u64)>(a: Probe<F>, b: Probe<F>, c: Probe<F>)
    requires
        a.before(b),
        b.before(c),
    ensures
        a.before(c),
        a.since(c) == a.since(b) + b.since(c),
{
    assert(a.since(c) =~= a.since(b) + b.since(c));
    assert(c.readings() =~= a.readings() + a.since(c));
    assert forall|i: int| 0 <= i < a.since(c).len() implies match #[trigger] a.since(c)[i] {
        Reading::Clock(_) => true,
        Reading::Elapsed(_, elapsed) => elapsed.wf(),
        Reading::Faults(faults) => a.counters().ensures((), faults),
    } by {
        let n = a.since(b).len();
        if i < n {
            assert(a.since(c)[i] == a.since(b)[i]);
        } else {
            assert(a.since(c)[i] == b.since(c)[i - n]);
        }
    }
}

/// A step of witness generation that is being measured.
#[derive(Debug)]
pub struct StepGuard {
    start: Instant,
    faults: (u64, u64),
}

impl StepGuard {
    /// The moment at which the step began.
    pub closed spec fn moment(self) -> Instant {
        self.start
    }

    /// The fault counters when the step began.
    pub closed spec fn faults(self) -> (u64, u64) {
        self.faults
    }

    /// What is read to begin the step: the clock, and then the fault counters.
    pub open spec fn opening(self) -> Seq<Reading> {
        seq![Reading::Clock(self.moment()), Reading::Faults(self.faults())]
    }

    /// Whether these readings end the step, the clock first and then the fault counters, and the
    /// meter holds what they come to: the time since the step began, and by how much the counters
    /// went up since then.
    pub open spec fn ended(self, readings: Seq<Reading>, meter: StepMeter) -> bool {
        &&& readings.len() == 2
        &&& readings[0] == Reading::Elapsed(self.moment(), meter.elapsed)
        &&& readings[1] matches Reading::Faults(after) && meter.minor_faults == count_up(
            self.faults().0,
            after.0,
        ) && meter.major_faults == count_up(self.faults().1, after.1)
    }

    /// Begins to measure a step: reads the clock, and then the fault counters.
    pub fn start<F: Fn() -> (u64, u64)>(probe: &mut Probe<F>) -> (r: StepGuard)
        requires
            old(probe).wf(),
        ensures
            old(probe).before(*final(probe)),
            old(probe).since(*final(probe)) == r.opening(),
    {
        let ghost p0 = *probe;
        let start = probe.clock();
        let ghost p1 = *probe;
        let faults = probe.faults();
        proof {
            lemma_then(p0, p1, *probe);
        }
        StepGuard { start, faults }
    }

    /// Ends the step: reads the clock, and then the fault counters again.
    pub fn stop<F: Fn() -> (u64, u64)>(self, probe: &mut Probe<F>) -> (r: StepMeter)
        requires
            old(probe).wf(),
        ensures
            old(probe).before(*final(probe)),
            self.ended(old(probe).since(*final(probe)), r),
    {
        let ghost p0 = *probe;
        let elapsed = probe.elapsed(self.start);
        let ghost p1 = *probe;
        let after = probe.faults();
        proof {
            lemma_then(p0, p1, *probe);
        }
        StepMeter::between(elapsed, self.faults, after)
    }
}

/// Whether these readings measure a whole step, and the meter holds what they come to: the clock and
/// the fault counters, and then again the time since that moment and the counters.
pub open spec fn is_step(readings: Seq<Reading>, meter: StepMeter) -> bool {
    &&& readings.len() == 4
    &&& exists|step: StepGuard| #[trigger]
        step.ended(readings.skip(2), meter) && readings.take(2) == step.opening()
}

/// What a counter went up by takes it from the first reading to the second; a counter that went down
/// went up by nothing.
pub proof fn a_count_leads_to_the_later_reading(before: u64, after: u64)
    ensures
        after >= before ==> before + count_up(before, after) == after,
        after < before ==> count_up(before, after) == 0,
{
}

/// A step that did not run took no time and had no faults, and so has every step before any has run.
pub proof fn nothing_is_measured_at_first()
    ensures
        no_step().elapsed.nanos == 0,
        no_step().major_faults == 0,
        no_step().minor_faults == 0,
        no_timing().codes == no_step(),
        no_timing().hash == no_step(),
        no_timing().trie == no_step(),
        no_timing().headers == no_step(),
{
}

/// A step is measured by four readings: the clock, the counters, the time since that moment, and the
/// counters again. The meter holds that time, and by how much each counter went up in between.
pub proof fn a_step_is_measured_from_end_to_end(readings: Seq<Reading>, meter: StepMeter)
    requires
        is_step(readings, meter),
    ensures
        readings.len() == 4,
        readings[0] is Clock,
        readings[1] is Faults,
        readings[2] is Elapsed,
        readings[3] is Faults,
        readings[2]->Elapsed_0 == readings[0]->Clock_0,
        readings[2]->Elapsed_1 == meter.elapsed,
        ({
            let before = readings[1]->Faults_0;
            let after = readings[3]->Faults_0;
            &&& after.0 >= before.0 ==> before.0 + meter.minor_faults == after.0
            &&& after.0 < before.0 ==> meter.minor_faults == 0
            &&& after.1 >= before.1 ==> before.1 + meter.major_faults == after.1
            &&& after.1 < before.1 ==> meter.major_faults == 0
        }),
{
    let step = choose|step: StepGuard| #[trigger]
        step.ended(readings.skip(2), meter) && readings.take(2) == step.opening();
    let first = readings.take(2);
    let rest = readings.skip(2);
    assert(first.len() == 2 && rest.len() == 2);
    assert(readings[0] == first[0] && readings[1] == first[1]);
    assert(readings[2] == rest[0] && readings[3] == rest[1]);
}

/// A step begins with a reading of the clock and one of the counters, in this order.
pub proof fn a_step_begins_with_the_clock(step: StepGuard)
    ensures
        step.opening().len() == 2,
        step.opening()[0] == Reading::Clock(step.moment()),
        step.opening()[1] == Reading::Faults(step.faults()),
{
}

/// A step ends with the time since it began and a reading of the counters, in this order; the meter
/// holds that time, and by how much each counter went up since the step began.
pub proof fn a_step_ends_with_the_time_since_it_began(
    step: StepGuard,
    readings: Seq<Reading>,
    meter: StepMeter,
)
    requires
        step.ended(readings, meter),
    ensures
        readings.len() == 2,
        readings[0] == Reading::Elapsed(step.moment(), meter.elapsed),
        readings[1] is Faults,
        ({
            let after = readings[1]->Faults_0;
            &&& after.0 >= step.faults().0 ==> step.faults().0 + meter.minor_faults == after.0
            &&& after.0 < step.faults().0 ==> meter.minor_faults == 0
            &&& after.1 >= step.faults().1 ==> step.faults().1 + meter.major_faults == after.1
            &&& after.1 < step.faults().1 ==> meter.major_faults == 0
        }),
{
}

} // verus!
