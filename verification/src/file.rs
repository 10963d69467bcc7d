//! File module.

use crate::deterministic::fs::file::SimulatedFile;
use vstd::prelude::*;
use vstd::std_specs::convert::FromSpecImpl;

verus! {

/// File trait: what every kind of file that a platform opens has in common.
pub trait FileTrait {

}

/// Enum for the File trait.
#[derive(Debug, Clone, Copy, PartialEq, Eq, Structural)]
pub enum File {
    /// A simulated file
    SimulatedFile(SimulatedFile),
}

impl FileTrait for SimulatedFile {

}

impl FileTrait for File {

}

impl From<SimulatedFile> for File {
    fn from(file: SimulatedFile) -> (wrapped: File) {
        File::SimulatedFile(file)
    }
}

impl FromSpecImpl<SimulatedFile> for File {
    open spec fn obeys_from_spec() -> bool {
        true
    }

    open spec fn from_spec(file: SimulatedFile) -> File {
        File::SimulatedFile(file)
    }
}

} // verus!
