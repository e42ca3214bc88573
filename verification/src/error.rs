use crate::names::CellName;
use crate::names::ExecutableName;
use vstd::prelude::*;

verus! {

/// Everything that the registry and its cells can report.
#[derive(Debug)]
#[allow(inconsistent_fields)]
pub enum CellsError {
    /// The name is taken, or the cell is allocated already.
    CellExists { cell_name: CellName },
    /// No cell is registered under the name.
    CellNotFound { cell_name: CellName },
    /// No group stands behind the cell: it was never allocated, or it was
    /// freed. The registry drops the entry of a cell that reports this.
    CellNotAllocated { cell_name: CellName },
    /// The operating system refused to bring up the cell's group.
    FailedToAllocateCell { cell_name: CellName, source: std::io::Error },
    /// The isolation subsystem failed while the cell's group was being set
    /// up; part of the group may be left behind.
    AbortedAllocateCell { cell_name: CellName, source: cgroups_rs::error::Error },
    /// The isolation subsystem could not release the cell's group.
    FailedToFreeCell { cell_name: CellName, source: cgroups_rs::error::Error },
    /// The cell holds an executable of that name.
    ExecutableExists { cell_name: CellName, executable_name: ExecutableName },
    /// The cell holds no executable of that name.
    ExecutableNotFound { cell_name: CellName, executable_name: ExecutableName },
    /// The process of the executable could not be started from `command`.
    FailedToStartExecutable {
        cell_name: CellName,
        executable_name: ExecutableName,
        command: String,
        source: std::io::Error,
    },
    /// The process of the executable could not be stopped.
    FailedToStopExecutable {
        cell_name: CellName,
        executable_name: ExecutableName,
        source: std::io::Error,
    },
    /// The process of the executable could not be placed in the cell's
    /// group.
    FailedToAddExecutableToCell {
        cell_name: CellName,
        executable_name: ExecutableName,
        source: cgroups_rs::error::Error,
    },
    /// The registry's lock could not be taken.
    FailedToObtainLock(),
}

/// The families of errors, by what a caller can do about them.
#[derive(Clone, Copy, Debug, PartialEq, Eq, Structural)]
pub enum ErrorClass {
    /// A name is taken, unknown or not backed by a group. Found without
    /// asking anyone; wraps no cause.
    Bookkeeping,
    /// The isolation backend failed; wraps its cause.
    Backend,
    /// The supervisor failed to start or stop a process; wraps its cause.
    Supervision,
    /// The registry could not be locked.
    Lock,
}

impl CellsError {
    /// The family of the error.
    pub open spec fn spec_class(&self) -> ErrorClass {
        match self {
            CellsError::CellExists { .. } => ErrorClass::Bookkeeping,
            CellsError::CellNotFound { .. } => ErrorClass::Bookkeeping,
            CellsError::CellNotAllocated { .. } => ErrorClass::Bookkeeping,
            CellsError::ExecutableExists { .. } => ErrorClass::Bookkeeping,
            CellsError::ExecutableNotFound { .. } => ErrorClass::Bookkeeping,
            CellsError::FailedToAllocateCell { .. } => ErrorClass::Backend,
            CellsError::AbortedAllocateCell { .. } => ErrorClass::Backend,
            CellsError::FailedToFreeCell { .. } => ErrorClass::Backend,
            CellsError::FailedToAddExecutableToCell { .. } => ErrorClass::Backend,
            CellsError::FailedToStartExecutable { .. } => ErrorClass::Supervision,
            CellsError::FailedToStopExecutable { .. } => ErrorClass::Supervision,
            CellsError::FailedToObtainLock() => ErrorClass::Lock,
        }
    }

    /// The family of the error.
    #[verifier::when_used_as_spec(spec_class)]
    pub fn class(&self) -> (class: ErrorClass)
        ensures
            class == self.spec_class(),
    {
        match self {
            CellsError::CellExists { .. } => ErrorClass::Bookkeeping,
            CellsError::CellNotFound { .. } => ErrorClass::Bookkeeping,
            CellsError::CellNotAllocated { .. } => ErrorClass::Bookkeeping,
            CellsError::ExecutableExists { .. } => ErrorClass::Bookkeeping,
            CellsError::ExecutableNotFound { .. } => ErrorClass::Bookkeeping,
            CellsError::FailedToAllocateCell { .. } => ErrorClass::Backend,
            CellsError::AbortedAllocateCell { .. } => ErrorClass::Backend,
            CellsError::FailedToFreeCell { .. } => ErrorClass::Backend,
            CellsError::FailedToAddExecutableToCell { .. } => ErrorClass::Backend,
            CellsError::FailedToStartExecutable { .. } => ErrorClass::Supervision,
            CellsError::FailedToStopExecutable { .. } => ErrorClass::Supervision,
            CellsError::FailedToObtainLock() => ErrorClass::Lock,
        }
    }

    /// Whether the error says that a cell has no group behind it. The
    /// registry takes this as the sign that the cell's entry is dead.
    pub open spec fn spec_signals_unallocated(&self) -> bool {
        self is CellNotAllocated
    }

    /// Whether the error says that a cell has no group behind it.
    #[verifier::when_used_as_spec(spec_signals_unallocated)]
    pub fn signals_unallocated(&self) -> (signal: bool)
        ensures
            signal == self.spec_signals_unallocated(),
    {
        match self {
            CellsError::CellNotAllocated { .. } => true,
            _ => false,
        }
    }
}

} // verus!
