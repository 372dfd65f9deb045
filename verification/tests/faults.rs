//! Page faults and the meter of a step.

use std::cell::Cell;
use witness_bench::clock::Duration;
use witness_bench::faults::thread_faults;
use witness_bench::meter::{Probe, StepGuard, StepMeter, WitnessTiming};

#[test]
fn faults_stand_in_the_eighth_and_tenth_field() {
    let stat = "123 (bench) R 1 2 3 4 5 6 777 8 999 10 11";
    assert_eq!(thread_faults(stat), (777, 999));
}

#[test]
fn the_name_of_the_thread_does_not_matter() {
    let plain = thread_faults("1 (a) S 1 2 3 4 5 6 70 8 90 0");
    let odd = thread_faults("1 (a b) c) (d) S 1 2 3 4 5 6 70 8 90 0");
    assert_eq!(plain, (70, 90));
    assert_eq!(odd, plain);
}

#[test]
fn what_cannot_be_read_counts_as_zero() {
    assert_eq!(thread_faults(""), (0, 0));
    assert_eq!(thread_faults("1 (a S 1 2 3 4 5 6 7 8 9"), (0, 0));
    assert_eq!(thread_faults("1 (a) S 1 2"), (0, 0));
    assert_eq!(thread_faults("1 (a) S 1 2 3 4 5 6 x 8 12"), (0, 12));
}

#[test]
fn a_meter_counts_up_and_never_below_zero() {
    let elapsed = Duration { nanos: 40 };
    let meter = StepMeter::between(elapsed, (10, 3), (25, 4));
    assert_eq!((meter.elapsed, meter.minor_faults, meter.major_faults), (elapsed, 15, 1));
    let meter = StepMeter::between(elapsed, (10, 3), (9, 2));
    assert_eq!((meter.minor_faults, meter.major_faults), (0, 0));
    assert_eq!(StepMeter::zero().elapsed.nanos, 0);
    assert_eq!(StepMeter::default(), StepMeter::zero());
    assert_eq!(WitnessTiming::default().trie, StepMeter::zero());
}

#[test]
fn a_guard_measures_the_time_that_passes() {
    let read = Cell::new(0u64);
    let mut probe = Probe::new(|| {
        read.set(read.get() + 1);
        (93 + 7 * read.get(), 8 + 2 * read.get())
    });
    let guard = StepGuard::start(&mut probe);
    let mut sum = 0u64;
    for i in 0..200_000u64 {
        sum = sum.wrapping_mul(31).wrapping_add(i);
    }
    assert_ne!(sum, 1);
    let meter = guard.stop(&mut probe);
    assert_eq!(read.get(), 2);
    assert!(meter.elapsed.nanos > 0);
    assert_eq!((meter.minor_faults, meter.major_faults), (7, 2));
}

#[test]
fn the_clock_is_read_before_the_counters() {
    let pause = std::time::Duration::from_millis(300);
    // Which reading of the counters takes its time.
    let meter = |slow: u32| {
        let read = Cell::new(0u32);
        let mut probe = Probe::new(|| {
            let started = std::time::Instant::now();
            while read.get() == slow && started.elapsed() < pause {}
            read.set(read.get() + 1);
            (0, 0)
        });
        StepGuard::start(&mut probe).stop(&mut probe)
    };
    // The first reading of the counters falls into the step, the last one does not.
    assert!(meter(0).elapsed.nanos >= pause.as_nanos());
    assert!(meter(1).elapsed.nanos < pause.as_nanos());
}
