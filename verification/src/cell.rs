use crate::backend::AllocateFailure;
use crate::backend::StartFailure;
use crate::error::CellsError;
use crate::names::CellName;
use crate::names::ExecutableName;
use crate::table::Table;
use vstd::prelude::*;

verus! {

/// Where a cell stands in its life.
#[derive(Clone, Copy, Debug, PartialEq, Eq, Structural)]
pub enum CellState {
    /// Made from a blueprint; no group stands behind the cell yet.
    Unallocated,
    /// The group exists and executables may run in it.
    Allocated,
    /// The group was released. A freed cell stays freed.
    Freed,
}

/// What a cell knows of one of its executables.
#[derive(Debug)]
pub struct Executable {
    /// The command line that starts it.
    pub command: String,
    /// The process that runs it, once it was started.
    pub pid: Option<u32>,
}

/// A named, isolated place in which executables run.
///
/// The group behind a cell is known to the isolation backend by the cell's
/// name; the cell itself holds the limits it was made with, its state and
/// the table of its executables.
#[derive(Debug)]
pub struct Cell<L> {
    name: CellName,
    limits: L,
    state: CellState,
    executables: Table<Executable>,
}

/// A cell as the contracts see it.
pub struct CellView<L> {
    pub name: CellName,
    pub limits: L,
    pub state: CellState,
    pub executables: Map<Seq<char>, Executable>,
}

impl<L> CellView<L> {
    /// A cell as it is made: unallocated, without executables.
    pub open spec fn fresh(name: CellName, limits: L) -> Self {
        CellView { name, limits, state: CellState::Unallocated, executables: Map::empty() }
    }

    /// The error that tells that no group stands behind the cell.
    pub open spec fn unallocated(self) -> CellsError {
        CellsError::CellNotAllocated { cell_name: self.name }
    }

    /// The allocate transition: the cell afterwards and what is reported,
    /// given what the backend answered when asked to create the group. The
    /// backend is asked only while the cell is unallocated.
    pub open spec fn allocate(self, outcome: Result<(), AllocateFailure>) -> (
        Self,
        Result<(), CellsError>,
    ) {
        match self.state {
            CellState::Unallocated => match outcome {
                Ok(_) => (CellView { state: CellState::Allocated, ..self }, Ok(())),
                Err(AllocateFailure::Io(source)) => (
                    self,
                    Err(CellsError::FailedToAllocateCell { cell_name: self.name, source }),
                ),
                Err(AllocateFailure::Aborted(source)) => (
                    self,
                    Err(CellsError::AbortedAllocateCell { cell_name: self.name, source }),
                ),
            },
            CellState::Allocated => (self, Err(CellsError::CellExists { cell_name: self.name })),
            CellState::Freed => (self, Err(self.unallocated())),
        }
    }

    /// The free transition: the cell afterwards and what is reported, given
    /// what the backend answered when asked to release the group. The
    /// backend is asked only while the cell is allocated.
    pub open spec fn free(self, outcome: Result<(), cgroups_rs::error::Error>) -> (
        Self,
        Result<(), CellsError>,
    ) {
        match self.state {
            CellState::Allocated => match outcome {
                Ok(_) => (
                    CellView { state: CellState::Freed, executables: Map::empty(), ..self },
                    Ok(()),
                ),
                Err(source) => (
                    self,
                    Err(CellsError::FailedToFreeCell { cell_name: self.name, source }),
                ),
            },
            _ => (self, Err(self.unallocated())),
        }
    }

    /// What is reported of a cell that is asked to work: nothing while it is
    /// allocated, else that no group stands behind it.
    pub open spec fn ensure_allocated(self) -> Result<(), CellsError> {
        if self.state is Allocated {
            Ok(())
        } else {
            Err(self.unallocated())
        }
    }

    /// Adding an executable: the cell afterwards and what is reported.
    pub open spec fn add_executable(self, name: ExecutableName, command: String) -> (
        Self,
        Result<(), CellsError>,
    ) {
        if !(self.state is Allocated) {
            (self, Err(self.unallocated()))
        } else if self.executables.contains_key(name@) {
            (
                self,
                Err(CellsError::ExecutableExists { cell_name: self.name, executable_name: name }),
            )
        } else {
            (
                CellView {
                    executables: self.executables.insert(
                        name@,
                        Executable { command, pid: None },
                    ),
                    ..self
                },
                Ok(()),
            )
        }
    }

    /// Whether the supervisor is asked when the executable `name` is to be
    /// started: the cell is allocated and holds it, not yet started.
    pub open spec fn can_start(self, name: Seq<char>) -> bool {
        &&& self.state is Allocated
        &&& self.executables.contains_key(name)
        &&& self.executables[name].pid is None
    }

    /// Starting an executable: the cell afterwards and what is reported,
    /// given what the supervisor answered when asked to start it. The
    /// supervisor is asked only where `can_start` holds.
    pub open spec fn start_executable(
        self,
        name: ExecutableName,
        outcome: Result<u32, StartFailure>,
    ) -> (Self, Result<(), CellsError>) {
        if !(self.state is Allocated) {
            (self, Err(self.unallocated()))
        } else if !self.executables.contains_key(name@) {
            (
                self,
                Err(CellsError::ExecutableNotFound { cell_name: self.name, executable_name: name }),
            )
        } else if self.executables[name@].pid is Some {
            (
                self,
                Err(CellsError::ExecutableExists { cell_name: self.name, executable_name: name }),
            )
        } else {
            let command = self.executables[name@].command;
            match outcome {
                Ok(pid) => (
                    CellView {
                        executables: self.executables.insert(
                            name@,
                            Executable { command, pid: Some(pid) },
                        ),
                        ..self
                    },
                    Ok(()),
                ),
                Err(StartFailure::Spawn(source)) => (
                    self,
                    Err(
                        CellsError::FailedToStartExecutable {
                            cell_name: self.name,
                            executable_name: name,
                            command,
                            source,
                        },
                    ),
                ),
                Err(StartFailure::Attach(source)) => (
                    self,
                    Err(
                        CellsError::FailedToAddExecutableToCell {
                            cell_name: self.name,
                            executable_name: name,
                            source,
                        },
                    ),
                ),
            }
        }
    }

    /// Whether the supervisor is asked when the executable `name` is to be
    /// stopped: the cell is allocated and holds it, started.
    pub open spec fn can_stop(self, name: Seq<char>) -> bool {
        &&& self.state is Allocated
        &&& self.executables.contains_key(name)
        &&& self.executables[name].pid is Some
    }

    /// Stopping an executable: the cell afterwards and what is reported,
    /// given what the supervisor answered when asked to stop its process.
    /// The supervisor is asked only where `can_stop` holds; an executable
    /// that was never started is dropped from the cell without asking.
    pub open spec fn stop_executable(
        self,
        name: ExecutableName,
        outcome: Result<(), std::io::Error>,
    ) -> (Self, Result<(), CellsError>) {
        if !(self.state is Allocated) {
            (self, Err(self.unallocated()))
        } else if !self.executables.contains_key(name@) {
            (
                self,
                Err(CellsError::ExecutableNotFound { cell_name: self.name, executable_name: name }),
            )
        } else if self.executables[name@].pid is Some && outcome is Err {
            (
                self,
                Err(
                    CellsError::FailedToStopExecutable {
                        cell_name: self.name,
                        executable_name: name,
                        source: outcome->Err_0,
                    },
                ),
            )
        } else {
            (CellView { executables: self.executables.remove(name@), ..self }, Ok(()))
        }
    }
}

impl<L> View for Cell<L> {
    type V = CellView<L>;

    closed spec fn view(&self) -> CellView<L> {
        CellView {
            name: self.name,
            limits: self.limits,
            state: self.state,
            executables: self.executables@,
        }
    }
}

impl<L> Cell<L> {
    /// A cell of the given name and limits, not yet allocated.
    pub fn new(name: CellName, limits: L) -> (cell: Self)
        ensures
            cell@ == CellView::fresh(name, limits),
    {
        Cell { name, limits, state: CellState::Unallocated, executables: Table::new() }
    }

    /// The cell's own name, by which the backend knows its group.
    pub fn name(&self) -> (name: &CellName)
        ensures
            *name == self@.name,
    {
        &self.name
    }

    /// The limits that the cell was made with.
    pub fn limits(&self) -> (limits: &L)
        ensures
            *limits == self@.limits,
    {
        &self.limits
    }

    /// Where the cell stands in its life.
    pub fn state(&self) -> (state: CellState)
        ensures
            state == self@.state,
    {
        self.state
    }

    /// Brings the cell from unallocated to allocated by having `create`
    /// bring up its group.
    ///
    /// `create` is called with the cell's name and limits, and only if the
    /// cell is unallocated. Where it fails the cell stays unallocated and
    /// the failure is reported with its cause. An allocated cell reports
    /// that it exists already, a freed one that it has no group.
    pub fn allocate<F>(&mut self, create: F) -> (res: Result<(), CellsError>) where
        F: FnOnce(&CellName, &L) -> Result<(), AllocateFailure>,

        requires
            old(self)@.state is Unallocated ==> call_requires(
                create,
                (&old(self)@.name, &old(self)@.limits),
            ),
        ensures
            exists|outcome: Result<(), AllocateFailure>|
                {
                    &&& old(self)@.state is Unallocated ==> call_ensures(
                        create,
                        (&old(self)@.name, &old(self)@.limits),
                        outcome,
                    )
                    &&& (final(self)@, res) == old(self)@.allocate(outcome)
                },
    {
        match self.state {
            CellState::Unallocated => {
                let outcome = create(&self.name, &self.limits);
                let ghost seen = outcome;
                let res = match outcome {
                    Ok(_) => {
                        self.state = CellState::Allocated;
                        Ok(())
                    },
                    Err(AllocateFailure::Io(source)) => Err(
                        CellsError::FailedToAllocateCell { cell_name: self.name.clone(), source },
                    ),
                    Err(AllocateFailure::Aborted(source)) => Err(
                        CellsError::AbortedAllocateCell { cell_name: self.name.clone(), source },
                    ),
                };
                assert((self@, res) == old(self)@.allocate(seen));
                res
            },
            CellState::Allocated => {
                let res = Err(CellsError::CellExists { cell_name: self.name.clone() });
                assert((self@, res) == old(self)@.allocate(Ok(())));
                res
            },
            CellState::Freed => {
                let res = Err(CellsError::CellNotAllocated { cell_name: self.name.clone() });
                assert((self@, res) == old(self)@.allocate(Ok(())));
                res
            },
        }
    }

    /// Nothing while the cell is allocated, else the error that tells that
    /// no group stands behind it.
    pub fn ensure_allocated(&self) -> (res: Result<(), CellsError>)
        ensures
            res == self@.ensure_allocated(),
    {
        match self.state {
            CellState::Allocated => Ok(()),
            _ => Err(CellsError::CellNotAllocated { cell_name: self.name.clone() }),
        }
    }

    /// What the cell knows of the executable `name`, if it holds one.
    pub fn executable(&self, name: &ExecutableName) -> (found: Option<&Executable>)
        ensures
            match found {
                Some(executable) => self@.executables.contains_key(name@) && *executable
                    == self@.executables[name@],
                None => !self@.executables.contains_key(name@),
            },
    {
        self.executables.get(name.as_string())
    }

    /// Brings the cell from allocated to freed by having `release` give up
    /// its group and whatever runs in it.
    ///
    /// `release` is called with the cell's name, and only if the cell is
    /// allocated. Where it fails the cell stays as it was and the failure is
    /// reported with its cause. A cell that is not allocated reports that it
    /// has no group.
    pub fn free<F>(&mut self, release: F) -> (res: Result<(), CellsError>) where
        F: FnOnce(&CellName) -> Result<(), cgroups_rs::error::Error>,

        requires
            old(self)@.state is Allocated ==> call_requires(release, (&old(self)@.name,)),
        ensures
            exists|outcome: Result<(), cgroups_rs::error::Error>|
                {
                    &&& old(self)@.state is Allocated ==> call_ensures(
                        release,
                        (&old(self)@.name,),
                        outcome,
                    )
                    &&& (final(self)@, res) == old(self)@.free(outcome)
                },
    {
        match self.state {
            CellState::Allocated => {
                let outcome = release(&self.name);
                let ghost seen = outcome;
                let res = match outcome {
                    Ok(_) => {
                        self.state = CellState::Freed;
                        self.executables = Table::new();
                        Ok(())
                    },
                    Err(source) => Err(
                        CellsError::FailedToFreeCell { cell_name: self.name.clone(), source },
                    ),
                };
                assert((self@, res) == old(self)@.free(seen));
                res
            },
            _ => {
                let res = Err(CellsError::CellNotAllocated { cell_name: self.name.clone() });
                assert((self@, res) == old(self)@.free(Ok(())));
                res
            },
        }
    }

    /// Takes an executable into the cell, not yet started.
    ///
    /// A cell that is not allocated reports that it has no group, and a cell
    /// that holds an executable of that name reports that it exists; neither
    /// changes.
    pub fn add_executable(&mut self, name: ExecutableName, command: String) -> (res: Result<
        (),
        CellsError,
    >)
        ensures
            (final(self)@, res) == old(self)@.add_executable(name, command),
    {
        if let Err(unallocated) = self.ensure_allocated() {
            return Err(unallocated);
        }
        if self.executables.contains_key(name.as_string()) {
            return Err(
                CellsError::ExecutableExists {
                    cell_name: self.name.clone(),
                    executable_name: name,
                },
            );
        }
        let key = name.as_string().clone();
        let _ = self.executables.insert(key, Executable { command, pid: None });
        Ok(())
    }

    /// Starts the executable `name` by having `launch` start its process
    /// inside the cell's group.
    ///
    /// A cell that is not allocated reports that it has no group, a cell
    /// without an executable of that name that it is not found, and a cell
    /// in which it was started already that it exists. Otherwise `launch` is
    /// called with the cell's name, the executable's name and its command
    /// line, and the process it returns is recorded. Where it fails the cell
    /// stays as it was and the failure is reported with its cause: that the
    /// process could not be started, with the command line, or that it could
    /// not be added to the cell.
    pub fn start_executable<F>(&mut self, name: &ExecutableName, launch: F) -> (res: Result<
        (),
        CellsError,
    >) where F: FnOnce(&CellName, &ExecutableName, &String) -> Result<u32, StartFailure>
        requires
            old(self)@.can_start(name@) ==> call_requires(
                launch,
                (&old(self)@.name, name, &old(self)@.executables[name@].command),
            ),
        ensures
            exists|outcome: Result<u32, StartFailure>|
                {
                    &&& old(self)@.can_start(name@) ==> call_ensures(
                        launch,
                        (&old(self)@.name, name, &old(self)@.executables[name@].command),
                        outcome,
                    )
                    &&& (final(self)@, res) == old(self)@.start_executable(*name, outcome)
                },
    {
        let ghost idle: Result<u32, StartFailure> = Ok(0);
        if let Err(unallocated) = self.ensure_allocated() {
            assert((self@, Err::<(), CellsError>(unallocated)) == old(self)@.start_executable(
                *name,
                idle,
            ));
            return Err(unallocated);
        }
        let Some(known) = self.executables.get(name.as_string()) else {
            let res = Err(
                CellsError::ExecutableNotFound {
                    cell_name: self.name.clone(),
                    executable_name: name.clone(),
                },
            );
            assert((self@, res) == old(self)@.start_executable(*name, idle));
            return res;
        };
        if known.pid.is_some() {
            let res = Err(
                CellsError::ExecutableExists {
                    cell_name: self.name.clone(),
                    executable_name: name.clone(),
                },
            );
            assert((self@, res) == old(self)@.start_executable(*name, idle));
            return res;
        }
        let outcome = launch(&self.name, name, &known.command);
        let ghost seen = outcome;
        let res = match outcome {
            Ok(pid) => {
                let record = |slot: &mut Executable| -> (done: bool)
                    ensures
                        final(slot).pid == Some(pid),
                        final(slot).command == old(slot).command,
                    {
                        slot.pid = Some(pid);
                        true
                    };
                let _ = self.executables.apply(name.as_string(), record);
                Ok(())
            },
            Err(StartFailure::Spawn(source)) => Err(
                CellsError::FailedToStartExecutable {
                    cell_name: self.name.clone(),
                    executable_name: name.clone(),
                    command: known.command.clone(),
                    source,
                },
            ),
            Err(StartFailure::Attach(source)) => Err(
                CellsError::FailedToAddExecutableToCell {
                    cell_name: self.name.clone(),
                    executable_name: name.clone(),
                    source,
                },
            ),
        };
        assert((self@, res) == old(self)@.start_executable(*name, seen));
        res
    }

    /// Stops the executable `name` by having `halt` stop its process, and
    /// drops it from the cell.
    ///
    /// A cell that is not allocated reports that it has no group, and a cell
    /// without an executable of that name that it is not found. An
    /// executable that was never started is dropped without a call.
    /// Otherwise `halt` is called with the cell's name, the executable's name
    /// and its process. Where it fails the cell stays as it was and the
    /// failure is reported with its cause.
    pub fn stop_executable<F>(&mut self, name: &ExecutableName, halt: F) -> (res: Result<
        (),
        CellsError,
    >) where F: FnOnce(&CellName, &ExecutableName, u32) -> Result<(), std::io::Error>
        requires
            old(self)@.can_stop(name@) ==> call_requires(
                halt,
                (&old(self)@.name, name, old(self)@.executables[name@].pid->0),
            ),
        ensures
            exists|outcome: Result<(), std::io::Error>|
                {
                    &&& old(self)@.can_stop(name@) ==> call_ensures(
                        halt,
                        (&old(self)@.name, name, old(self)@.executables[name@].pid->0),
                        outcome,
                    )
                    &&& (final(self)@, res) == old(self)@.stop_executable(*name, outcome)
                },
    {
        let ghost idle: Result<(), std::io::Error> = Ok(());
        if let Err(unallocated) = self.ensure_allocated() {
            assert((self@, Err::<(), CellsError>(unallocated)) == old(self)@.stop_executable(
                *name,
                idle,
            ));
            return Err(unallocated);
        }
        let Some(known) = self.executables.get(name.as_string()) else {
            let res = Err(
                CellsError::ExecutableNotFound {
                    cell_name: self.name.clone(),
                    executable_name: name.clone(),
                },
            );
            assert((self@, res) == old(self)@.stop_executable(*name, idle));
            return res;
        };
        let outcome = match known.pid {
            Some(pid) => halt(&self.name, name, pid),
            None => Ok(()),
        };
        let ghost seen = outcome;
        let res = match outcome {
            Ok(_) => {
                let _ = self.executables.remove(name.as_string());
                Ok(())
            },
            Err(source) => Err(
                CellsError::FailedToStopExecutable {
                    cell_name: self.name.clone(),
                    executable_name: name.clone(),
                    source,
                },
            ),
        };
        assert((self@, res) == old(self)@.stop_executable(*name, seen));
        res
    }
}

} // verus!
