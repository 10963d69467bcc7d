//! Deterministic time.
//!
//! The virtual clock is a wall-clock instant taken when the clock is made
//! (its base) and the amount of virtual time that has elapsed since. Only
//! `advance` moves it, and only forwards.

use std::time::Duration;
use std::time::Instant;
use vstd::prelude::*;

verus! {

/// Nanoseconds in one second.
pub const NANOS_PER_SEC: u128 = 1_000_000_000;

/// The longest span, in nanoseconds, that a `Duration` holds: `u64::MAX`
/// whole seconds and 999,999,999 nanoseconds more.
pub const MAX_DURATION_NANOS: u128 = 18_446_744_073_709_551_615_999_999_999;

/// `std::time::Instant`: a point on the wall clock, carried through as it
/// is.
#[verifier::external_type_specification]
#[verifier::external_body]
pub struct ExInstant(Instant);

/// The whole seconds of a `Duration`, as `Duration::as_secs` returns them.
pub uninterp spec fn duration_whole_secs(d: Duration) -> nat;

/// The part of a `Duration` below one second, in nanoseconds, as
/// `Duration::subsec_nanos` returns it.
pub uninterp spec fn duration_subsec_nanos(d: Duration) -> nat;

/// The instant that `Instant::checked_add` gives for `base` and a span of
/// `nanos` nanoseconds; `None` where that instant cannot be represented.
pub uninterp spec fn instant_plus(base: Instant, nanos: int) -> Option<Instant>;

/// The length of a `Duration` in nanoseconds.
pub open spec fn duration_nanos(d: Duration) -> nat {
    duration_whole_secs(d) * (NANOS_PER_SEC as nat) + duration_subsec_nanos(d)
}

/// Calls `Duration::as_secs`. Trusted: the result is the number of whole
/// seconds that the duration holds.
#[verifier::external_body]
fn whole_secs(d: &Duration) -> (secs: u64)
    ensures
        secs == duration_whole_secs(*d),
{
    d.as_secs()
}

/// Calls `Duration::subsec_nanos`. Trusted: the result is the fractional part
/// of the duration in nanoseconds, which is below one billion.
#[verifier::external_body]
fn subsec_nanos(d: &Duration) -> (nanos: u32)
    ensures
        nanos == duration_subsec_nanos(*d),
        nanos < 1_000_000_000,
{
    d.subsec_nanos()
}

/// Calls `Duration::new`. Trusted: with a nanosecond part below one billion
/// nothing is carried, and the duration holds exactly the two parts given.
#[verifier::external_body]
fn duration_of_parts(secs: u64, nanos: u32) -> (d: Duration)
    requires
        nanos < 1_000_000_000,
    ensures
        duration_whole_secs(d) == secs,
        duration_subsec_nanos(d) == nanos,
{
    Duration::new(secs, nanos)
}

/// Calls `Instant::now`. Nothing is claimed of the wall clock.
#[verifier::external_body]
fn wall_clock_now() -> (now: Instant) {
    Instant::now()
}

/// Calls `Instant::checked_add`. Trusted: the result depends on the instant
/// and the length of the span alone.
#[verifier::external_body]
fn instant_after(base: &Instant, span: Duration) -> (at: Option<Instant>)
    ensures
        at == instant_plus(*base, duration_nanos(span) as int),
{
    base.checked_add(span)
}

/// The length of `d` in nanoseconds.
pub fn nanos_of(d: &Duration) -> (nanos: u128)
    ensures
        nanos == duration_nanos(*d),
        nanos <= MAX_DURATION_NANOS,
{
    let secs: u64 = whole_secs(d);
    let sub: u32 = subsec_nanos(d);
    assert(secs * 1_000_000_000 + sub <= MAX_DURATION_NANOS) by (nonlinear_arith)
        requires
            secs <= u64::MAX,
            sub < 1_000_000_000,
    ;
    (secs as u128) * NANOS_PER_SEC + (sub as u128)
}

/// The `Duration` that is `nanos` nanoseconds long.
pub fn duration_from_nanos(nanos: u128) -> (d: Duration)
    requires
        nanos <= MAX_DURATION_NANOS,
    ensures
        duration_nanos(d) == nanos,
{
    let secs: u128 = nanos / NANOS_PER_SEC;
    let sub: u128 = nanos % NANOS_PER_SEC;
    assert(secs <= u64::MAX && nanos == secs * 1_000_000_000 + sub) by (nonlinear_arith)
        requires
            nanos <= MAX_DURATION_NANOS,
            secs == nanos / 1_000_000_000,
            sub == nanos % 1_000_000_000,
    ;
    duration_of_parts(secs as u64, sub as u32)
}

/// A mock source of time, allowing for deterministic control of the progress
/// of time.
pub struct DeterministicTime {
    /// Time basis from which mock time is derived.
    base: Instant,
    /// The amount of mock time which has elapsed.
    advance: Duration,
}

impl DeterministicTime {
    /// The wall-clock instant that the clock counts from.
    pub closed spec fn base_instant(&self) -> Instant {
        self.base
    }

    /// The virtual time that has elapsed since the base, in nanoseconds.
    pub closed spec fn elapsed_nanos(&self) -> nat {
        duration_nanos(self.advance)
    }

    /// Creates a clock that counts from the instant `base`, with no virtual
    /// time elapsed.
    pub fn starting_at(base: Instant) -> (time: DeterministicTime)
        ensures
            time.base_instant() == base,
            time.elapsed_nanos() == 0,
    {
        DeterministicTime { base, advance: duration_from_nanos(0) }
    }

    /// Creates a clock that starts now, with no virtual time elapsed.
    pub fn new() -> (time: DeterministicTime)
        ensures
            time.elapsed_nanos() == 0,
    {
        DeterministicTime::starting_at(wall_clock_now())
    }

    /// Whether the clock can be advanced by `duration` without leaving the
    /// range of a `Duration`.
    pub fn can_advance(&self, duration: Duration) -> (fits: bool)
        ensures
            fits == (self.elapsed_nanos() + duration_nanos(duration) <= MAX_DURATION_NANOS),
    {
        nanos_of(&self.advance) + nanos_of(&duration) <= MAX_DURATION_NANOS
    }

    /// Moves the clock forward by `duration`.
    pub fn advance(&mut self, duration: Duration)
        requires
            old(self).elapsed_nanos() + duration_nanos(duration) <= MAX_DURATION_NANOS,
        ensures
            final(self).elapsed_nanos() == old(self).elapsed_nanos() + duration_nanos(duration),
            final(self).base_instant() == old(self).base_instant(),
    {
        let total: u128 = nanos_of(&self.advance) + nanos_of(&duration);
        self.advance = duration_from_nanos(total);
    }

    /// The virtual time elapsed since the base.
    pub fn elapsed(&self) -> (span: Duration)
        ensures
            duration_nanos(span) == self.elapsed_nanos(),
    {
        self.advance
    }

    /// The wall-clock instant that the clock counts from.
    pub fn base(&self) -> (base: Instant)
        ensures
            base == self.base_instant(),
    {
        self.base
    }

    /// The current virtual instant: the base plus the elapsed virtual time.
    /// `None` where the platform cannot represent that instant.
    pub fn now(&self) -> (at: Option<Instant>)
        ensures
            at == instant_plus(self.base_instant(), self.elapsed_nanos() as int),
    {
        instant_after(&self.base, self.advance)
    }

    /// Rebases the clock to the instant `now`, with no virtual time elapsed.
    pub fn rebase(&mut self, now: Instant)
        ensures
            final(self).base_instant() == now,
            final(self).elapsed_nanos() == 0,
    {
        self.base = now;
        self.advance = duration_from_nanos(0);
    }

    /// Rebases the clock to the current wall-clock instant, with no virtual
    /// time elapsed.
    pub fn reset(&mut self)
        ensures
            final(self).elapsed_nanos() == 0,
    {
        self.rebase(wall_clock_now());
    }
}

impl Default for DeterministicTime {
    fn default() -> (time: DeterministicTime)
        ensures
            time.elapsed_nanos() == 0,
    {
        DeterministicTime::new()
    }
}

impl Clone for DeterministicTime {
    fn clone(&self) -> (copy: DeterministicTime)
        ensures
            copy == *self,
    {
        DeterministicTime { base: self.base, advance: self.advance }
    }
}

} // verus!
