//! A tick counter and its calibration to nanoseconds.
//!
//! A calibration is a pair of measurements taken over one interval: how many
//! ticks the counter advanced and how many nanoseconds passed. Conversions
//! scale by that ratio in integer arithmetic, rounding down and saturating.

use vstd::prelude::*;

verus! {

/// `std::time::SystemTime`: a reading of the system clock, carried through
/// unopened.
#[verifier::external_type_specification]
#[verifier::external_body]
pub struct ExSystemTime(std::time::SystemTime);

/// `std::time::SystemTimeError`: what `duration_since` returns for a reading
/// that lies before the reference time.
#[verifier::external_type_specification]
#[verifier::external_body]
pub struct ExSystemTimeError(std::time::SystemTimeError);

/// Calls `std::time::SystemTime::now`. The result is the system clock's
/// reading, of which the contract claims nothing.
#[verifier::external_body]
fn system_now() -> std::time::SystemTime {
    std::time::SystemTime::now()
}

/// Calls `std::time::SystemTime::duration_since` with the Unix epoch: the
/// time elapsed since the epoch, or an error when the reading lies before it.
/// The contract claims nothing of either.
#[verifier::external_body]
fn since_epoch(t: &std::time::SystemTime) -> Result<
    std::time::Duration,
    std::time::SystemTimeError,
> {
    t.duration_since(std::time::UNIX_EPOCH)
}

/// Calls `std::time::Duration::as_nanos`: the duration in whole nanoseconds.
/// The contract claims nothing of the number.
#[verifier::external_body]
fn duration_nanos(d: &std::time::Duration) -> u128 {
    d.as_nanos()
}

/// Reads the tick counter: nanoseconds of system time since the Unix epoch,
/// reduced modulo 2^64, or 0 when the system clock reads before the epoch.
pub fn rdtsc() -> u64 {
    let now = system_now();
    match since_epoch(&now) {
        Ok(d) => counter_reading(Some(duration_nanos(&d))),
        Err(_) => counter_reading(None),
    }
}

/// The counter reading for a system time given as nanoseconds since the
/// Unix epoch, or as `None` when it lies before the epoch: the nanoseconds
/// modulo 2^64, and 0 for `None`.
pub open spec fn reading_of(since_epoch_nanos: Option<u128>) -> u64 {
    match since_epoch_nanos {
        Some(nanos) => (nanos % 0x1_0000_0000_0000_0000) as u64,
        None => 0,
    }
}

/// Turns what the system clock answered into a counter reading.
pub fn counter_reading(since_epoch_nanos: Option<u128>) -> (ticks: u64)
    ensures
        ticks == reading_of(since_epoch_nanos),
{
    match since_epoch_nanos {
        Some(nanos) => {
            let low: u128 = nanos & 0xffff_ffff_ffff_ffff;
            proof {
                assert(nanos & 0xffff_ffff_ffff_ffff == nanos % 0x1_0000_0000_0000_0000)
                    by (bit_vector);
                assert(nanos & 0xffff_ffff_ffff_ffff <= 0xffff_ffff_ffff_ffff) by (bit_vector);
            }
            low as u64
        },
        None => 0,
    }
}

/// The calibration of a tick counter; uncalibrated until `init_tsc` succeeds.
#[derive(Debug, Clone, Copy, PartialEq, Eq, Structural)]
pub struct TscClock {
    ticks: u64,
    nanos: u64,
}

/// `a * b / c`, rounded down and capped at the largest 64-bit value.
pub open spec fn scaled(a: u64, b: u64, c: u64) -> u64 {
    if (a * b) / (c as int) > u64::MAX {
        u64::MAX
    } else {
        ((a * b) / (c as int)) as u64
    }
}

fn scale(a: u64, b: u64, c: u64) -> (r: u64)
    requires
        c > 0,
    ensures
        r == scaled(a, b, c),
{
    proof {
        assert(a * b <= 0xffff_ffff_ffff_ffff * 0xffff_ffff_ffff_ffff) by (nonlinear_arith)
            requires
                a <= 0xffff_ffff_ffff_ffff,
                b <= 0xffff_ffff_ffff_ffff,
        ;
    }
    let product: u128 = (a as u128) * (b as u128);
    let q: u128 = product / (c as u128);
    if q > 0xffff_ffff_ffff_ffff {
        u64::MAX
    } else {
        q as u64
    }
}

impl TscClock {
    /// Ticks counted over the calibration interval; 0 when uncalibrated.
    pub closed spec fn spec_ticks(self) -> u64 {
        self.ticks
    }

    /// Nanoseconds of the calibration interval; 0 when uncalibrated.
    pub closed spec fn spec_nanos(self) -> u64 {
        self.nanos
    }

    /// Both measurements are positive.
    pub open spec fn calibrated(self) -> bool {
        self.spec_ticks() > 0 && self.spec_nanos() > 0
    }

    /// The nanoseconds that `tsc` ticks last.
    pub open spec fn to_ns(self, tsc: u64) -> u64 {
        scaled(tsc, self.spec_nanos(), self.spec_ticks())
    }

    /// The ticks counted in `ns` nanoseconds.
    pub open spec fn to_tsc(self, ns: u64) -> u64 {
        scaled(ns, self.spec_ticks(), self.spec_nanos())
    }

    /// An uncalibrated clock.
    pub fn new() -> (clock: TscClock)
        ensures
            !clock.calibrated(),
            clock.spec_ticks() == 0,
            clock.spec_nanos() == 0,
    {
        TscClock { ticks: 0, nanos: 0 }
    }

    /// Ticks counted over the calibration interval.
    pub fn ticks(&self) -> (t: u64)
        ensures
            t == self.spec_ticks(),
    {
        self.ticks
    }

    /// Nanoseconds of the calibration interval.
    pub fn nanos(&self) -> (n: u64)
        ensures
            n == self.spec_nanos(),
    {
        self.nanos
    }
}

/// The calibration that two counter readings `elapsed_ns` nanoseconds apart
/// give, or `None` when the counter did not advance or no time passed.
pub fn calibrate_tsc(start_tsc: u64, end_tsc: u64, elapsed_ns: u64) -> (r: Option<TscClock>)
    ensures
        end_tsc > start_tsc && elapsed_ns > 0 ==> r is Some && r.unwrap().spec_ticks() == end_tsc
            - start_tsc && r.unwrap().spec_nanos() == elapsed_ns,
        !(end_tsc > start_tsc && elapsed_ns > 0) ==> r is None,
{
    if end_tsc > start_tsc && elapsed_ns > 0 {
        Some(TscClock { ticks: end_tsc - start_tsc, nanos: elapsed_ns })
    } else {
        None
    }
}

/// Calibrates `clock` from two counter readings `elapsed_ns` nanoseconds
/// apart. A clock that is already calibrated keeps its calibration, and so
/// does one offered measurements that give none.
pub fn init_tsc(clock: &mut TscClock, start_tsc: u64, end_tsc: u64, elapsed_ns: u64)
    ensures
        old(clock).calibrated() ==> *final(clock) == *old(clock),
        !old(clock).calibrated() && end_tsc > start_tsc && elapsed_ns > 0 ==> final(
            clock).spec_ticks() == end_tsc - start_tsc && final(clock).spec_nanos() == elapsed_ns,
        !old(clock).calibrated() && !(end_tsc > start_tsc && elapsed_ns > 0) ==> *final(clock)
            == *old(clock),
{
    if !is_tsc_initialized(clock) {
        match calibrate_tsc(start_tsc, end_tsc, elapsed_ns) {
            Some(c) => {
                *clock = c;
            },
            None => {},
        }
    }
}

/// True once the clock is calibrated.
pub fn is_tsc_initialized(clock: &TscClock) -> (b: bool)
    ensures
        b == clock.calibrated(),
{
    clock.ticks > 0 && clock.nanos > 0
}

/// Converts ticks to nanoseconds, rounding down and saturating.
pub fn tsc_to_ns(clock: &TscClock, tsc: u64) -> (ns: u64)
    requires
        clock.calibrated(),
    ensures
        ns == clock.to_ns(tsc),
{
    scale(tsc, clock.nanos, clock.ticks)
}

/// Converts nanoseconds to ticks, rounding down and saturating.
pub fn ns_to_tsc(clock: &TscClock, ns: u64) -> (tsc: u64)
    requires
        clock.calibrated(),
    ensures
        tsc == clock.to_tsc(ns),
{
    scale(ns, clock.ticks, clock.nanos)
}

/// The ticks from reading `start` to reading `now` of a counter that wraps
/// at 2^64.
pub open spec fn ticks_between(start: u64, now: u64) -> u64 {
    if now >= start {
        (now - start) as u64
    } else {
        (now - start + 0x1_0000_0000_0000_0000) as u64
    }
}

/// The ticks from reading `start` to reading `now`.
pub fn elapsed_ticks(start: u64, now: u64) -> (d: u64)
    ensures
        d == ticks_between(start, now),
{
    now.wrapping_sub(start)
}

} // verus!
