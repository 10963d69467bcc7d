//! Deterministic platform module.
//!
//! The simulated platform decides, for each `open`, whether to inject a
//! fault, which fault, and how long a successful open takes in virtual time.
//! The file itself is opened by the host: the platform is told what the host
//! answered and hands that answer out once the simulated latency has passed.

use crate::buggify::DEFAULT_DENOMINATOR;
use crate::buggify::DEFAULT_NUMERATOR;
use crate::buggify::Buggifier;
use crate::deterministic::fs::file::SimulatedFile;
use crate::deterministic::random::DeterministicRandom;
use crate::deterministic::random::Draw;
use crate::deterministic::random::UNIT_SCALE;
use crate::deterministic::runtime::executor::TaskWaker;
use crate::deterministic::runtime::reactor::DeterministicReactor;
use crate::deterministic::runtime::reactor::ReactorEntry;
use crate::deterministic::runtime::task::Poll;
use crate::deterministic::runtime::task::Suspendable;
use crate::deterministic::runtime::timer::DeterministicTimer;
use crate::deterministic::time::duration_from_nanos;
use crate::deterministic::time::duration_nanos;
use crate::deterministic::time::instant_plus;
use crate::deterministic::time::DeterministicTime;
use crate::file::File;
use crate::platform::Platform;
use std::time::Duration;
use std::time::Instant;
use vstd::prelude::*;

verus! {

/// The shortest simulated latency of an open, in milliseconds.
pub const MIN_OPEN_LATENCY_MS: u64 = 300;

/// The bound below which every simulated latency of an open lies, in
/// milliseconds.
pub const MAX_OPEN_LATENCY_MS: u64 = 2000;

/// Nanoseconds in one millisecond.
pub const NANOS_PER_MILLI: u128 = 1_000_000;

/// `std::io::Error`: an error of the host, carried through as it is.
#[verifier::external_type_specification]
#[verifier::external_body]
pub struct ExIoError(std::io::Error);

/// Why an open failed.
#[derive(Debug)]
pub enum OpenError {
    /// Injected: the file ended before it could be read.
    UnexpectedEof,
    /// Injected: access to the file was refused.
    PermissionDenied,
    /// Injected: the system cannot find the file specified (OS error 2).
    NotFound,
    /// The error with which the host itself refused to open the file.
    Host(std::io::Error),
}

/// What the platform has decided when an open begins.
#[derive(Debug)]
pub enum Opening {
    /// A fault was injected: the open fails at once, with no latency.
    Faulted(OpenError),
    /// No fault: the host is to open the file, and the platform is to be
    /// told the answer.
    AskHost,
}

/// The fault that an injected failure takes for a draw of `unit / UNIT_SCALE`
/// from the unit interval: below one tenth an unexpected end of file, below
/// two tenths a refusal of access, a missing file otherwise.
pub open spec fn fault_kind(unit: u32) -> OpenError {
    if unit * 10 < UNIT_SCALE {
        OpenError::UnexpectedEof
    } else if unit * 10 < 2 * UNIT_SCALE {
        OpenError::PermissionDenied
    } else {
        OpenError::NotFound
    }
}

/// The fault that an injected failure takes for a draw of `unit / UNIT_SCALE`
/// from the unit interval.
pub fn fault_for(unit: u32) -> (fault: OpenError)
    ensures
        fault == fault_kind(unit),
{
    let scaled: u64 = (unit as u64) * 10;
    if scaled < UNIT_SCALE as u64 {
        OpenError::UnexpectedEof
    } else if scaled < 2 * (UNIT_SCALE as u64) {
        OpenError::PermissionDenied
    } else {
        // The system cannot find the file specified. (os error 2)
        OpenError::NotFound
    }
}

/// What an open hands out for the answer `host` of the host.
pub open spec fn outcome_of(host: Result<SimulatedFile, std::io::Error>) -> Result<
    File,
    OpenError,
> {
    match host {
        Ok(file) => Ok(File::SimulatedFile(file)),
        Err(error) => Err(OpenError::Host(error)),
    }
}

/// An open that waits for its simulated latency to pass.
pub struct PendingOpen {
    timer: DeterministicTimer,
    latency_ms: u64,
    outcome: Result<File, OpenError>,
}

impl PendingOpen {
    /// The timer that simulates the latency.
    pub closed spec fn timer(&self) -> DeterministicTimer {
        self.timer
    }

    /// The simulated latency in milliseconds.
    pub closed spec fn latency(&self) -> u64 {
        self.latency_ms
    }

    /// What the open hands out once the latency has passed.
    pub closed spec fn outcome(&self) -> Result<File, OpenError> {
        self.outcome
    }

    /// An open that hands out the answer `host` of the host after
    /// `latency_ms` milliseconds of virtual time, counted from the time that
    /// `time` shows.
    pub fn new(
        host: Result<SimulatedFile, std::io::Error>,
        time: DeterministicTime,
        latency_ms: u64,
    ) -> (pending: PendingOpen)
        ensures
            pending.outcome() == outcome_of(host),
            pending.latency() == latency_ms,
            duration_nanos(pending.timer().duration()) == latency_ms * NANOS_PER_MILLI,
            pending.timer().expires_at() == time.elapsed_nanos() + latency_ms * NANOS_PER_MILLI,
            !pending.timer().registered(),
    {
        let wait_duration: Duration = duration_from_nanos((latency_ms as u128) * NANOS_PER_MILLI);
        let timer = DeterministicTimer::wait(time, wait_duration);
        let outcome = match host {
            Ok(file) => Ok(File::SimulatedFile(file)),
            Err(error) => Err(OpenError::Host(error)),
        };
        PendingOpen { timer, latency_ms, outcome }
    }

    /// Polls the open: it is `Ready` once the virtual clock has reached the
    /// end of the latency. The first poll registers the latency with the
    /// reactor.
    pub fn poll_next(&mut self, waker: &TaskWaker, reactor: &mut DeterministicReactor) -> (poll:
        Poll)
        ensures
            final(self).outcome() == old(self).outcome(),
            final(self).latency() == old(self).latency(),
            final(self).timer().duration() == old(self).timer().duration(),
            final(self).timer().expires_at() == old(self).timer().expires_at(),
            final(self).timer().registered(),
            final(reactor).clock() == old(reactor).clock(),
            final(reactor).pending() == if old(self).timer().registered() {
                old(reactor).pending()
            } else {
                old(reactor).pending().push(
                    ReactorEntry { duration: old(self).timer().duration(), waker: *waker },
                )
            },
            poll == if old(self).timer().expires_at() <= old(reactor).elapsed_nanos() {
                Poll::Ready
            } else {
                Poll::Pending
            },
    {
        self.timer.poll_next(waker, reactor)
    }

    /// The simulated latency in milliseconds.
    pub fn latency_ms(&self) -> (latency_ms: u64)
        ensures
            latency_ms == self.latency(),
    {
        self.latency_ms
    }

    /// Hands out the result of the open.
    pub fn finish(self) -> (outcome: Result<File, OpenError>)
        ensures
            outcome == self.outcome(),
    {
        self.outcome
    }
}

impl Suspendable for PendingOpen {
    /// A poll of the open is a poll of the timer that simulates its latency;
    /// the open keeps its latency and what it hands out.
    open spec fn polls(
        &self,
        then: &PendingOpen,
        waker: TaskWaker,
        before: DeterministicReactor,
        after: DeterministicReactor,
        poll: Poll,
    ) -> bool {
        &&& then.outcome() == self.outcome()
        &&& then.latency() == self.latency()
        &&& self.timer().polls(&then.timer(), waker, before, after, poll)
    }

    /// Polls the open, as `poll_next` does.
    fn poll(&mut self, waker: &TaskWaker, reactor: &mut DeterministicReactor) -> (poll: Poll) {
        self.poll_next(waker, reactor)
    }
}

/// Simulated version of the platform. Every API exposed is subject to a
/// deterministic output, including:
/// * time,
/// * random,
/// * buggified I/O calls.
pub struct SimulationPlatform {
    random: DeterministicRandom,
    buggifier: Buggifier,
}

impl SimulationPlatform {
    /// The name of the call-site at which `open` asks the buggifier.
    pub open spec fn open_call_site() -> Seq<char> {
        "deterministic/platform:open"@
    }

    /// The random source of the platform.
    pub closed spec fn random(&self) -> DeterministicRandom {
        self.random
    }

    /// The buggifier of the platform.
    pub closed spec fn buggifier(&self) -> Buggifier {
        self.buggifier
    }

    /// Creates the platform for `seed`: its random source and the random
    /// source of its buggifier, which is enabled, are both seeded with it.
    pub fn new(seed: u64) -> (platform: SimulationPlatform)
        ensures
            platform.buggifier().enabled(),
            platform.buggifier().fired() == Set::<Seq<char>>::empty(),
            platform.buggifier().drawn() == Seq::<Draw>::empty(),
            platform.buggifier().seed() == Some(seed),
            platform.random().drawn() == Seq::<Draw>::empty(),
            platform.random().seed() == seed,
    {
        let random = DeterministicRandom::new_with_seed(seed);
        SimulationPlatform {
            random,
            buggifier: Buggifier::new(DeterministicRandom::new_with_seed(seed)),
        }
    }

    /// Whether an open that begins can answer `opening` and leave the
    /// platform as `after`.
    ///
    /// The buggifier is asked at the call-site of `open`, with the default
    /// probability. The open is faulted exactly when the buggifier fires;
    /// the random source of the platform is then asked once, for a number
    /// from the unit interval, and the fault is the one that stands for the
    /// number it answers. An open that is not faulted asks it nothing.
    pub open spec fn begins_open(&self, after: &SimulationPlatform, opening: Opening) -> bool {
        &&& self.buggifier().answers(
            &after.buggifier(),
            Self::open_call_site(),
            DEFAULT_NUMERATOR,
            DEFAULT_DENOMINATOR,
            opening is Faulted,
        )
        &&& after.random().seed() == self.random().seed()
        &&& match opening {
            Opening::Faulted(fault) => {
                &&& after.random().drawn().len() == self.random().drawn().len() + 1
                &&& after.random().drawn().drop_last() == self.random().drawn()
                &&& after.random().drawn().last() matches Draw::Unit(unit) && unit < UNIT_SCALE
                    && fault == fault_kind(unit)
            },
            Opening::AskHost => after.random().drawn() == self.random().drawn(),
        }
    }

    /// Whether an open that continues with the answer `host` of the host, at
    /// the time that `time` shows, can come back as `pending` and leave the
    /// platform as `after`.
    ///
    /// The random source of the platform is asked once, for a number of at
    /// least 300 and below 2000: the number it answers is the latency in
    /// milliseconds. The open hands out the answer of the host when that much
    /// virtual time has passed.
    pub open spec fn continues_open(
        &self,
        after: &SimulationPlatform,
        host: Result<SimulatedFile, std::io::Error>,
        time: DeterministicTime,
        pending: PendingOpen,
    ) -> bool {
        &&& after.buggifier() == self.buggifier()
        &&& after.random().seed() == self.random().seed()
        &&& after.random().drawn() == self.random().drawn().push(Draw::Between(pending.latency()))
        &&& pending.outcome() == outcome_of(host)
        &&& !pending.timer().registered()
        &&& MIN_OPEN_LATENCY_MS <= pending.latency() < MAX_OPEN_LATENCY_MS
        &&& duration_nanos(pending.timer().duration()) == pending.latency() * NANOS_PER_MILLI
        &&& pending.timer().expires_at() == time.elapsed_nanos() + pending.latency()
            * NANOS_PER_MILLI
    }

    /// Begins an open. The buggifier is asked at the call-site of `open`. If
    /// it fires, a number is drawn from the unit interval and the open fails
    /// at once with the fault that stands for it; otherwise the host is to be
    /// asked.
    pub fn open(&mut self) -> (opening: Opening)
        ensures
            old(self).begins_open(final(self), opening),
    {
        let line: String = "deterministic/platform:open".to_owned();
        if self.buggifier.buggify(line) {
            let probability: u32 = self.random.random_01();
            let error = fault_for(probability);
            assert(self.random.drawn().drop_last() =~= old(self).random.drawn());
            return Opening::Faulted(error);
        }
        Opening::AskHost
    }

    /// Continues an open with the answer `host` of the host: a latency is
    /// drawn, of at least 300 ms and below 2000 ms, and the answer is handed
    /// out when that much virtual time has passed since the time that `time`
    /// shows.
    pub fn opened(&mut self, host: Result<SimulatedFile, std::io::Error>, time: DeterministicTime) -> (pending:
        PendingOpen)
        ensures
            old(self).continues_open(final(self), host, time, pending),
    {
        let latency_ms: u64 = self.random.random_between(MIN_OPEN_LATENCY_MS, MAX_OPEN_LATENCY_MS);
        PendingOpen::new(host, time, latency_ms)
    }

    /// The current virtual instant, read from the clock of `reactor`.
    pub fn now(&self, reactor: &DeterministicReactor) -> (at: Option<Instant>)
        ensures
            at == instant_plus(
                reactor.clock().base_instant(),
                reactor.clock().elapsed_nanos() as int,
            ),
    {
        reactor.get_deterministic_time().now()
    }
}

impl Platform for SimulationPlatform {
    fn open(&mut self) -> (opening: Opening)
        ensures
            old(self).begins_open(final(self), opening),
    {
        SimulationPlatform::open(self)
    }

    fn opened(&mut self, host: Result<SimulatedFile, std::io::Error>, time: DeterministicTime) -> (pending:
        PendingOpen)
        ensures
            old(self).continues_open(final(self), host, time, pending),
    {
        SimulationPlatform::opened(self, host, time)
    }

    fn now(&self, reactor: &DeterministicReactor) -> (at: Option<Instant>) {
        SimulationPlatform::now(self, reactor)
    }
}

} // verus!
