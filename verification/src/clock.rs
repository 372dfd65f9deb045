//! Wall-clock time, in nanoseconds.

use vstd::prelude::*;
use std::time::Instant;

verus! {

/// The longest span: `2^64 - 1` seconds and 999,999,999 nanoseconds.
pub const MAX_NANOS: u128 = 18_446_744_073_709_551_615_999_999_999;

/// A span of time.
#[derive(Clone, Copy, Debug, PartialEq, Eq, Structural)]
pub struct Duration {
    /// Its length in nanoseconds.
    pub nanos: u128,
}

impl Duration {
    /// Whether the span is no longer than the longest.
    pub open spec fn wf(self) -> bool {
        self.nanos <= MAX_NANOS
    }

    /// No time at all.
    pub fn zero() -> (r: Duration)
        ensures
            r == (Duration { nanos: 0 }),
    {
        Duration { nanos: 0 }
    }

    /// The sum of two spans.
    pub fn plus(self, other: Duration) -> (r: Duration)
        requires
            self.nanos + other.nanos <= MAX_NANOS,
        ensures
            r.nanos == self.nanos + other.nanos,
    {
        Duration { nanos: self.nanos + other.nanos }
    }

    /// What is left of a span after another, nothing where the other is longer.
    pub fn saturating_sub(self, other: Duration) -> (r: Duration)
        ensures
            r.nanos == (if self.nanos >= other.nanos {
                self.nanos - other.nanos
            } else {
                0
            }),
    {
        Duration {
            nanos: if self.nanos >= other.nanos {
                self.nanos - other.nanos
            } else {
                0
            },
        }
    }

    /// The length in whole microseconds, its low 64 bits.
    pub fn micros(self) -> (r: u64)
        ensures
            r == (self.nanos / 1000) % 0x1_0000_0000_0000_0000,
    {
        let micros: u128 = self.nanos / 1000;
        assert((micros as u64) as u128 == micros % 0x1_0000_0000_0000_0000u128) by (bit_vector);
        #[verifier::truncate]
        (micros as u64)
    }
}

/// The sum of the lengths of spans, in nanoseconds.
pub open spec fn total_nanos(spans: Seq<Duration>) -> nat
    decreases spans.len(),
{
    if spans.len() == 0 {
        0
    } else {
        total_nanos(spans.drop_last()) + spans.last().nanos as nat
    }
}

/// The sum over more spans is at least the sum over fewer.
proof fn lemma_total_grows(spans: Seq<Duration>, n: int)
    requires
        0 <= n <= spans.len(),
    ensures
        total_nanos(spans.take(n)) <= total_nanos(spans),
    decreases spans.len() - n,
{
    if n < spans.len() {
        lemma_total_grows(spans, n + 1);
        assert(spans.take(n + 1).drop_last() =~= spans.take(n));
    } else {
        assert(spans.take(n) =~= spans);
    }
}

/// The sum of spans.
pub fn total(spans: &Vec<Duration>) -> (r: Duration)
    requires
        total_nanos(spans@) <= MAX_NANOS,
    ensures
        r.nanos == total_nanos(spans@),
{
    let mut sum = Duration::zero();
    let mut i: usize = 0;
    while i < spans.len()
        invariant
            i <= spans.len(),
            sum.nanos == total_nanos(spans@.take(i as int)),
            total_nanos(spans@) <= MAX_NANOS,
        decreases spans.len() - i,
    {
        proof {
            lemma_total_grows(spans@, i + 1);
            assert(spans@.take(i + 1).drop_last() =~= spans@.take(i as int));
        }
        sum = sum.plus(spans[i]);
        i += 1;
    }
    assert(spans@.take(spans@.len() as int) =~= spans@);
    sum
}

/// Whether `least` is the shortest of the spans.
pub open spec fn is_shortest(spans: Seq<Duration>, least: Duration) -> bool {
    &&& spans.contains(least)
    &&& forall|i: int| 0 <= i < spans.len() ==> least.nanos <= (#[trigger] spans[i]).nanos
}

/// The first span: the cold run of a repeated measurement. No time where there is none.
pub fn first_or_zero(spans: &Vec<Duration>) -> (r: Duration)
    ensures
        r == (if spans@.len() > 0 {
            spans@[0]
        } else {
            Duration { nanos: 0 }
        }),
{
    if spans.len() > 0 {
        spans[0]
    } else {
        Duration::zero()
    }
}

/// The shortest span after the first: the floor that the warm runs of a repeated measurement reach.
/// `None` where there is no run after the first.
pub fn shortest_after_first(spans: &Vec<Duration>) -> (r: Option<Duration>)
    ensures
        r is None <==> spans@.len() <= 1,
        r is Some ==> is_shortest(spans@.skip(1), r->0),
{
    if spans.len() <= 1 {
        return None;
    }
    let mut least = spans[1];
    let mut i: usize = 2;
    assert(spans@.skip(1)[0] == least);
    while i < spans.len()
        invariant
            2 <= i <= spans.len(),
            spans@.skip(1).contains(least),
            forall|j: int| 1 <= j < i ==> least.nanos <= (#[trigger] spans@[j]).nanos,
        decreases spans.len() - i,
    {
        if spans[i].nanos < least.nanos {
            least = spans[i];
            assert(spans@.skip(1)[i - 1] == least);
        }
        i += 1;
    }
    assert forall|j: int| 0 <= j < spans@.skip(1).len() implies least.nanos <= (
    #[trigger] spans@.skip(1)[j]).nanos by {
        assert(spans@.skip(1)[j] == spans@[j + 1]);
    }
    Some(least)
}

/// A moment on the machine's clock.
#[verifier::external_type_specification]
#[verifier::external_body]
pub struct ExInstant(std::time::Instant);

/// [`std::time::Instant::now`]: the present moment. Which one it is cannot be said beforehand.
#[verifier::external_body]
pub(crate) fn now() -> Instant {
    Instant::now()
}

/// [`std::time::Instant::elapsed`]: the time since a moment, at most the longest span. How much it
/// is cannot be said beforehand.
#[verifier::external_body]
pub(crate) fn since(start: &Instant) -> (r: Duration)
    ensures
        r.wf(),
{
    Duration { nanos: start.elapsed().as_nanos() }
}

/// The length of spans is the sum of their lengths.
pub proof fn spans_add_up(spans: Seq<Duration>, span: Duration)
    ensures
        total_nanos(Seq::<Duration>::empty()) == 0,
        total_nanos(spans.push(span)) == total_nanos(spans) + span.nanos,
{
    assert(spans.push(span).drop_last() =~= spans);
}

/// The shortest span is one of the spans, and none is shorter.
pub proof fn the_shortest_span_is_among_them(spans: Seq<Duration>, least: Duration)
    requires
        is_shortest(spans, least),
    ensures
        exists|i: int| 0 <= i < spans.len() && #[trigger] spans[i] == least,
        forall|i: int| 0 <= i < spans.len() ==> least.nanos <= (#[trigger] spans[i]).nanos,
{
    let i = choose|i: int| 0 <= i < spans.len() && spans[i] == least;
    assert(spans[i] == least);
}

/// A span is valid up to `2^64` seconds, that moment not included.
pub proof fn a_span_is_below_two_to_the_64_seconds(span: Duration)
    ensures
        span.wf() <==> span.nanos < 0x1_0000_0000_0000_0000 * 1_000_000_000,
{
}

} // verus!
