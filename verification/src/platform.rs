//! Platform module.
//!
//! A platform is what code under test reaches the outside world through:
//! it opens files and tells the time. Swapping one platform for another does
//! not change the code that uses it.

use crate::deterministic::fs::file::SimulatedFile;
use crate::deterministic::platform::outcome_of;
use crate::deterministic::platform::Opening;
use crate::deterministic::platform::PendingOpen;
use crate::deterministic::platform::SimulationPlatform;
use crate::deterministic::runtime::reactor::DeterministicReactor;
use crate::deterministic::time::instant_plus;
use crate::deterministic::time::DeterministicTime;
use std::time::Instant;
use vstd::prelude::*;
use vstd::std_specs::convert::FromSpecImpl;

verus! {

/// Main trait for platform.
pub trait Platform {
    /// Begins to open a file: either the open has failed already, or the
    /// host is to open the file.
    fn open(&mut self) -> (opening: Opening);

    /// Continues an open with the answer of the host. The open that comes
    /// back hands that answer out, and no earlier than at the time that
    /// `time` shows.
    fn opened(&mut self, host: Result<SimulatedFile, std::io::Error>, time: DeterministicTime) -> (pending:
        PendingOpen)
        ensures
            pending.outcome() == outcome_of(host),
            pending.timer().expires_at() >= time.elapsed_nanos(),
            !pending.timer().registered(),
    ;

    /// Return the current time, read from the clock of `reactor`.
    fn now(&self, reactor: &DeterministicReactor) -> (at: Option<Instant>)
        ensures
            at == instant_plus(
                reactor.clock().base_instant(),
                reactor.clock().elapsed_nanos() as int,
            ),
    ;
}

/// Enum of the available platform providers.
pub enum PlatformProvider {
    /// Simulated platform
    SimulationPlatform(SimulationPlatform),
}

impl PlatformProvider {
    /// The simulated platform that the provider stands for.
    pub open spec fn simulation(&self) -> SimulationPlatform {
        match *self {
            PlatformProvider::SimulationPlatform(platform) => platform,
        }
    }
}

impl Platform for PlatformProvider {
    fn open(&mut self) -> (opening: Opening)
        ensures
            old(self).simulation().begins_open(&final(self).simulation(), opening),
    {
        match self {
            PlatformProvider::SimulationPlatform(platform) => platform.open(),
        }
    }

    fn opened(&mut self, host: Result<SimulatedFile, std::io::Error>, time: DeterministicTime) -> (pending:
        PendingOpen)
        ensures
            old(self).simulation().continues_open(&final(self).simulation(), host, time, pending),
    {
        match self {
            PlatformProvider::SimulationPlatform(platform) => platform.opened(host, time),
        }
    }

    fn now(&self, reactor: &DeterministicReactor) -> (at: Option<Instant>) {
        match self {
            PlatformProvider::SimulationPlatform(platform) => platform.now(reactor),
        }
    }
}

impl From<SimulationPlatform> for PlatformProvider {
    fn from(platform: SimulationPlatform) -> (provider: PlatformProvider) {
        PlatformProvider::SimulationPlatform(platform)
    }
}

impl FromSpecImpl<SimulationPlatform> for PlatformProvider {
    open spec fn obeys_from_spec() -> bool {
        true
    }

    open spec fn from_spec(platform: SimulationPlatform) -> PlatformProvider {
        PlatformProvider::SimulationPlatform(platform)
    }
}

} // verus!
