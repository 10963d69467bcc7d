//! Simulated file module.

use vstd::prelude::*;

verus! {

/// Simulation implementation of a file: the handle under which the host
/// keeps the file that was opened.
#[derive(Debug, Clone, Copy, PartialEq, Eq, Structural)]
pub struct SimulatedFile {
    file: u64,
}

impl SimulatedFile {
    /// The handle of the file on the host.
    pub closed spec fn handle(&self) -> u64 {
        self.file
    }

    /// Creates a `SimulatedFile`.
    pub fn new(file: u64) -> (simulated: SimulatedFile)
        ensures
            simulated.handle() == file,
    {
        SimulatedFile { file }
    }

    /// The handle of the file on the host.
    pub fn host_handle(&self) -> (file: u64)
        ensures
            file == self.handle(),
    {
        self.file
    }
}

} // verus!
