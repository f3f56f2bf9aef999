//! Cycle-counter timing: the counter's frequency, and durations in cycles.
//!
//! The counter does not tell its own frequency. It is read twice around a sleep
//! whose length the wall clock measures, once per process; everything else is
//! computed from that [`Calibration`].

use vstd::prelude::*;

verus! {

/// Microseconds per second.
pub const MICROS_PER_SEC: u64 = 1_000_000;

/// How long the sleep lasts that the counter is read around, in milliseconds.
pub const CALIBRATION_SLEEP_MS: u64 = 50;

/// The frequency of the cycle counter, fixed for the life of the process.
#[derive(Clone, Copy, Debug, PartialEq, Eq, Structural)]
pub struct Calibration {
    pub hz: u64,
}

/// `n`, or the largest `u64` where `n` is beyond it.
pub open spec fn saturated(n: int) -> int {
    if n <= u64::MAX {
        n
    } else {
        u64::MAX as int
    }
}

/// The product of two numbers, or the largest `u64` where it is beyond that.
fn saturating_product(a: u64, b: u64) -> (r: u64)
    ensures
        r == saturated(a * b),
{
    match a.checked_mul(b) {
        Some(n) => n,
        None => u64::MAX,
    }
}

/// The frequency of a counter that went on by `ticks` in `elapsed_us`
/// microseconds. A time too short to measure counts as one microsecond.
pub open spec fn frequency(ticks: int, elapsed_us: int) -> int {
    saturated(ticks * MICROS_PER_SEC) / (if elapsed_us >= 1 { elapsed_us } else { 1 })
}

/// Calibrates the counter from what it read before and after a sleep, and from
/// the sleep's measured length.
pub fn calibrate(before: u64, after: u64, elapsed_us: u64) -> (calibration: Calibration)
    requires
        before <= after,
    ensures
        calibration.hz == frequency(after - before, elapsed_us as int),
{
    let scaled: u64 = saturating_product(after - before, MICROS_PER_SEC);
    let divisor: u64 = if elapsed_us >= 1 { elapsed_us } else { 1 };
    Calibration { hz: scaled / divisor }
}

/// The calibrated frequency in Hz.
pub fn tsc_hz(calibration: &Calibration) -> (hz: u64)
    ensures
        hz == calibration.hz,
{
    calibration.hz
}

/// What the process knows of the counter's frequency: nothing until it is first
/// asked for, and from then on the one calibration.
#[derive(Clone, Copy, Debug, PartialEq, Eq, Structural)]
pub enum Clock {
    Uncalibrated,
    Calibrated(Calibration),
}

/// What a call for the frequency comes to.
#[derive(Clone, Copy, Debug, PartialEq, Eq, Structural)]
pub enum Request {
    /// The frequency is known.
    Ready(Calibration),
    /// The counter is to be read around a sleep of this length.
    Measure { sleep_ms: u64 },
}

impl Clock {
    /// What a call for the frequency comes to: a measurement if it is the first
    /// one, and otherwise what is known, without a sleep and without a reading.
    pub fn request(&self) -> (request: Request)
        ensures
            request == (match *self {
                Clock::Uncalibrated => Request::Measure { sleep_ms: CALIBRATION_SLEEP_MS },
                Clock::Calibrated(calibration) => Request::Ready(calibration),
            }),
    {
        match *self {
            Clock::Uncalibrated => Request::Measure { sleep_ms: CALIBRATION_SLEEP_MS },
            Clock::Calibrated(calibration) => Request::Ready(calibration),
        }
    }

    /// Takes a measurement. The first one settles the frequency; another one
    /// changes nothing.
    pub fn settle(&mut self, before: u64, after: u64, elapsed_us: u64) -> (calibration: Calibration)
        requires
            before <= after,
        ensures
            (*final(self), calibration) == served(
                *old(self),
                (Sample { before, after, elapsed_us }),
            ),
    {
        match *self {
            Clock::Calibrated(calibration) => calibration,
            Clock::Uncalibrated => {
                let calibration = calibrate(before, after, elapsed_us);
                *self = Clock::Calibrated(calibration);
                calibration
            },
        }
    }
}

/// A measurement: the counter before and after a sleep, and the sleep's length.
pub struct Sample {
    pub before: u64,
    pub after: u64,
    pub elapsed_us: u64,
}

impl Sample {
    /// The calibration that follows from a measurement.
    pub open spec fn calibration(self) -> Calibration {
        Calibration { hz: frequency(self.after - self.before, self.elapsed_us as int) as u64 }
    }
}

/// A call for the frequency: what is known afterwards, and what the call gives.
/// `sample` is what a measurement made by this call would read.
pub open spec fn served(clock: Clock, sample: Sample) -> (Clock, Calibration) {
    match clock {
        Clock::Calibrated(calibration) => (clock, calibration),
        Clock::Uncalibrated => (Clock::Calibrated(sample.calibration()), sample.calibration()),
    }
}

/// What is known after a sequence of calls in a process.
pub open spec fn after_calls(samples: Seq<Sample>) -> Clock
    decreases samples.len(),
{
    if samples.len() == 0 {
        Clock::Uncalibrated
    } else {
        served(after_calls(samples.drop_last()), samples.last()).0
    }
}

/// The number of cycles in a wall-clock duration, or the largest `u64` where it
/// is beyond that.
pub open spec fn cycles_in(hz: u64, seconds: u64) -> int {
    saturated(hz * seconds)
}

/// The number of cycles in a wall-clock duration.
pub fn secs_to_cycles(calibration: &Calibration, seconds: u64) -> (cycles: u64)
    ensures
        calibration.hz * seconds <= 0xFFFF_FFFF_FFFF_FFFF ==> cycles == calibration.hz * seconds,
        calibration.hz * seconds > 0xFFFF_FFFF_FFFF_FFFF ==> cycles == 0xFFFF_FFFF_FFFF_FFFF,
        cycles == cycles_in(calibration.hz, seconds),
{
    saturating_product(tsc_hz(calibration), seconds)
}

/// The upper and the lower half of a word, each of which converts to a float
/// without loss.
pub fn split_u64(v: u64) -> (halves: (u32, u32))
    ensures
        halves.0 * 0x1_0000_0000 + halves.1 == v,
{
    let hi: u64 = v >> 32;
    let lo: u64 = v & 0xFFFF_FFFF;
    assert(v >> 32 <= 0xFFFF_FFFF && v & 0xFFFF_FFFF <= 0xFFFF_FFFF && (v >> 32) * 0x1_0000_0000
        + (v & 0xFFFF_FFFF) == v) by (bit_vector);
    (hi as u32, lo as u32)
}

/// A `usize` as a `u64`: no platform's `usize` is wider.
pub fn widen_usize(v: usize) -> (r: u64)
    ensures
        r == v,
{
    v as u64
}

proof fn lemma_first_call_settles(samples: Seq<Sample>)
    requires
        samples.len() > 0,
    ensures
        after_calls(samples) == Clock::Calibrated(samples[0].calibration()),
    decreases samples.len(),
{
    reveal_with_fuel(after_calls, 2);
    if samples.len() > 1 {
        lemma_first_call_settles(samples.drop_last());
    }
}

/// One calibration serves the whole process. Of all calls for the frequency,
/// in the order in which they are served, only the first makes a measurement,
/// and every call gives the calibration that follows from that one, whatever a
/// later measurement would have read.
pub proof fn law_one_calibration_serves_all_calls(samples: Seq<Sample>, i: int)
    requires
        0 <= i < samples.len(),
    ensures
        after_calls(samples.take(i)) is Uncalibrated <==> i == 0,
        served(after_calls(samples.take(i)), samples[i]).1 == samples[0].calibration(),
        after_calls(samples.take(i + 1)) == Clock::Calibrated(samples[0].calibration()),
{
    lemma_first_call_settles(samples.take(i + 1));
    if i > 0 {
        lemma_first_call_settles(samples.take(i));
    }
}

/// The halves determine the word, and the word its halves.
pub proof fn law_halves_are_unique(hi: u32, lo: u32, hi2: u32, lo2: u32)
    requires
        hi * 0x1_0000_0000 + lo == hi2 * 0x1_0000_0000 + lo2,
    ensures
        hi == hi2,
        lo == lo2,
{
}

/// Calibration is exact for a counter that runs at a whole number of Hz, as
/// long as the ticks do not saturate.
pub proof fn law_calibration_recovers_frequency(ticks: u64, elapsed_us: u64, hz: u64)
    requires
        elapsed_us > 0,
        ticks * MICROS_PER_SEC == hz * elapsed_us,
        ticks * MICROS_PER_SEC <= u64::MAX,
    ensures
        frequency(ticks as int, elapsed_us as int) == hz,
{
    assert((hz * elapsed_us) / (elapsed_us as int) == hz) by (nonlinear_arith)
        requires
            elapsed_us > 0,
    ;
}

/// A calibrated frequency never overstates the counter's, and understates it by
/// less than one Hz, as long as the ticks do not saturate.
pub proof fn law_calibration_rounds_down(ticks: u64, elapsed_us: u64)
    requires
        elapsed_us > 0,
        ticks * MICROS_PER_SEC <= u64::MAX,
    ensures
        frequency(ticks as int, elapsed_us as int) * elapsed_us <= ticks * MICROS_PER_SEC < (
        frequency(ticks as int, elapsed_us as int) + 1) * elapsed_us,
{
    let n = ticks * MICROS_PER_SEC;
    let d = elapsed_us as int;
    assert((n / d) * d <= n < (n / d + 1) * d) by (nonlinear_arith)
        requires
            d > 0,
            n >= 0,
    ;
}

/// Ticks that saturate are taken for the largest `u64`, and a time too short to
/// measure for one microsecond.
pub proof fn law_calibration_at_the_limits(ticks: u64, elapsed_us: u64)
    ensures
        elapsed_us == 0 ==> frequency(ticks as int, 0) == frequency(ticks as int, 1),
        ticks * 1_000_000 <= 0xFFFF_FFFF_FFFF_FFFF ==> frequency(ticks as int, 1) == ticks
            * 1_000_000,
        ticks * 1_000_000 > 0xFFFF_FFFF_FFFF_FFFF && elapsed_us > 0 ==> frequency(
            ticks as int,
            elapsed_us as int,
        ) * elapsed_us <= 0xFFFF_FFFF_FFFF_FFFF < (frequency(ticks as int, elapsed_us as int) + 1)
            * elapsed_us,
{
    if elapsed_us > 0 {
        let n = 0xFFFF_FFFF_FFFF_FFFFint;
        let d = elapsed_us as int;
        assert((n / d) * d <= n < (n / d + 1) * d) by (nonlinear_arith)
            requires
                d > 0,
                n >= 0,
        ;
    }
}

/// The calibration that a process settles on is the one that follows from the
/// ticks and the microseconds of its measurement, rounded down.
pub proof fn law_settled_frequency(sample: Sample)
    requires
        sample.before <= sample.after,
        sample.elapsed_us > 0,
        (sample.after - sample.before) * 1_000_000 <= 0xFFFF_FFFF_FFFF_FFFF,
    ensures
        served(Clock::Uncalibrated, sample).0 == Clock::Calibrated(
            served(Clock::Uncalibrated, sample).1,
        ),
        ({
            let hz = served(Clock::Uncalibrated, sample).1.hz;
            hz * sample.elapsed_us <= (sample.after - sample.before) * 1_000_000 < (hz + 1)
                * sample.elapsed_us
        }),
{
    let ticks = (sample.after - sample.before) as u64;
    law_calibration_rounds_down(ticks, sample.elapsed_us);
    let hz = frequency(ticks as int, sample.elapsed_us as int);
    let n = ticks * 1_000_000;
    let d = sample.elapsed_us as int;
    assert(0 <= n / d <= n) by (nonlinear_arith)
        requires
            d > 0,
            n >= 0,
    ;
    assert(hz == n / d);
}

/// A duration has as many cycles as the product says, wherever that fits, and
/// otherwise the largest `u64`.
pub proof fn law_cycles_are_the_product(hz: u64, seconds: u64)
    ensures
        hz * seconds <= 0xFFFF_FFFF_FFFF_FFFF ==> cycles_in(hz, seconds) == hz * seconds,
        hz * seconds > 0xFFFF_FFFF_FFFF_FFFF ==> cycles_in(hz, seconds) == 0xFFFF_FFFF_FFFF_FFFF,
{
}

/// Two durations have together the cycles of both, unless these saturate.
pub proof fn law_cycles_add_up(hz: u64, a: u64, b: u64)
    requires
        a + b <= u64::MAX,
        hz * (a + b) <= u64::MAX,
    ensures
        cycles_in(hz, (a + b) as u64) == cycles_in(hz, a) + cycles_in(hz, b),
{
    assert(hz * (a + b) == hz * a + hz * b && hz * a >= 0 && hz * b >= 0) by (nonlinear_arith)
        requires
            hz >= 0,
            a >= 0,
            b >= 0,
    ;
}

/// A longer duration never has fewer cycles.
pub proof fn law_cycles_are_monotone(hz: u64, seconds: u64, longer: u64)
    requires
        seconds <= longer,
    ensures
        cycles_in(hz, seconds) <= cycles_in(hz, longer),
{
    assert(hz * seconds <= hz * longer) by (nonlinear_arith)
        requires
            seconds <= longer,
    ;
}

/// One second has as many cycles as the frequency says, no time has none, and a
/// stopped counter never advances.
pub proof fn law_cycles_at_the_ends(hz: u64, seconds: u64)
    ensures
        cycles_in(hz, 1) == hz,
        cycles_in(hz, 0) == 0,
        cycles_in(0, seconds) == 0,
{
}

} // verus!
