use vstd::prelude::*;

verus! {

/// The error type of the control-group crate, `cgroups_rs::error::Error`.
/// The library carries such a value from the isolation backend to the
/// caller and never looks inside it.
#[verifier::external_type_specification]
#[verifier::external_body]
pub struct ExGroupError(cgroups_rs::error::Error);

/// The error type of the operating system's calls, `std::io::Error`. The
/// library carries such a value from the backend or the supervisor to the
/// caller and never looks inside it.
#[verifier::external_type_specification]
#[verifier::external_body]
pub struct ExSystemError(std::io::Error);

/// Why the isolation backend could not bring up the group of a cell.
#[derive(Debug)]
pub enum AllocateFailure {
    /// The operating system refused; nothing was set up.
    Io(std::io::Error),
    /// The group was being set up when the isolation subsystem failed, so
    /// part of it may be left behind.
    Aborted(cgroups_rs::error::Error),
}

/// Why the supervisor could not start an executable inside a cell.
#[derive(Debug)]
pub enum StartFailure {
    /// The process could not be started.
    Spawn(std::io::Error),
    /// The process could not be placed in the cell's group.
    Attach(cgroups_rs::error::Error),
}

} // verus!
