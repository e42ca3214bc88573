use crate::backend::AllocateFailure;
use crate::backend::StartFailure;
use crate::cell::Cell;
use crate::cell::CellState;
use crate::cell::CellView;
use crate::cells::allocated;
use crate::cells::applied;
use crate::cells::freed;
use crate::cells::settled;
use crate::cells::tells_unallocated;
use crate::error::CellsError;
use crate::names::CellName;
use crate::names::ExecutableName;
use vstd::prelude::*;

verus! {

/// A name is allocated once. After any allocation of a name the name is
/// registered, and a further allocation of it, with nothing freed in
/// between, reports the cell as existing and changes nothing. The first
/// allocation succeeds exactly when the name was free and the backend
/// brought up the group; it then adds one entry to the registry.
pub proof fn lemma_second_allocation_is_refused<L>(
    cells: Map<Seq<char>, CellView<L>>,
    name: CellName,
    first: L,
    first_outcome: Result<(), AllocateFailure>,
    second: L,
    second_outcome: Result<(), AllocateFailure>,
)
    ensures
        ({
            let (entered, first_res) = allocated(cells, name, first, first_outcome);
            let (after, second_res) = allocated(entered, name, second, second_outcome);
            &&& first_res is Ok <==> !cells.contains_key(name@) && first_outcome is Ok
            &&& entered.contains_key(name@)
            &&& second_res == Err::<(), CellsError>(CellsError::CellExists { cell_name: name })
            &&& after == entered
            &&& cells.dom().finite() && !cells.contains_key(name@) ==> after.dom().finite()
                && after.len() == cells.len() + 1
        }),
{
}

/// A name that is not registered is not found: `get` calls nothing, changes
/// nothing and reports the cell as not found.
pub proof fn lemma_get_of_unknown_name<L, R, F: Fn(&Cell<L>) -> Result<R, CellsError>>(
    f: F,
    cells: Map<Seq<char>, CellView<L>>,
    name: CellName,
    after: Map<Seq<char>, CellView<L>>,
    res: Result<R, CellsError>,
)
    requires
        !cells.contains_key(name@),
        applied(f, cells, name, after, res),
    ensures
        res == Err::<R, CellsError>(CellsError::CellNotFound { cell_name: name }),
        after == cells,
{
}

/// A name that is not registered is not found: `free` changes nothing and
/// reports the cell as not found, whatever the backend would have answered.
pub proof fn lemma_free_of_unknown_name<L>(
    cells: Map<Seq<char>, CellView<L>>,
    name: CellName,
    outcome: Result<(), cgroups_rs::error::Error>,
)
    requires
        !cells.contains_key(name@),
    ensures
        freed(cells, name, outcome) == (
            cells,
            Err::<(), CellsError>(CellsError::CellNotFound { cell_name: name }),
        ),
{
}

/// Freeing succeeds exactly on a registered, allocated cell whose group the
/// backend released. After a successful free the name is no longer
/// registered, every other entry is as it was, and a `get` of the name
/// reports the cell as not found.
pub proof fn lemma_freed_cell_is_gone<L, R, F: Fn(&Cell<L>) -> Result<R, CellsError>>(
    cells: Map<Seq<char>, CellView<L>>,
    name: CellName,
    outcome: Result<(), cgroups_rs::error::Error>,
    f: F,
    after: Map<Seq<char>, CellView<L>>,
    res: Result<R, CellsError>,
)
    requires
        freed(cells, name, outcome).1 is Ok,
        applied(f, freed(cells, name, outcome).0, name, after, res),
    ensures
        cells.contains_key(name@) && cells[name@].state is Allocated && outcome is Ok,
        freed(cells, name, outcome).0 == cells.remove(name@),
        res == Err::<R, CellsError>(CellsError::CellNotFound { cell_name: name }),
        after == freed(cells, name, outcome).0,
{
}

/// A failed free leaves the entry unless the cell itself tells that it has
/// no group: where the backend fails on an allocated cell the registry is
/// unchanged, and where the cell is not allocated its entry is dropped.
pub proof fn lemma_failed_free<L>(
    cells: Map<Seq<char>, CellView<L>>,
    name: CellName,
    outcome: Result<(), cgroups_rs::error::Error>,
)
    requires
        cells.contains_key(name@),
        freed(cells, name, outcome).1 is Err,
    ensures
        cells[name@].state is Allocated ==> freed(cells, name, outcome).0 == cells && outcome is Err
            && freed(cells, name, outcome).1 == Err::<(), CellsError>(
            CellsError::FailedToFreeCell {
                cell_name: cells[name@].name,
                source: outcome->Err_0,
            },
        ),
        !(cells[name@].state is Allocated) ==> freed(cells, name, outcome) == (
            cells.remove(name@),
            Err::<(), CellsError>(cells[name@].unallocated()),
        ),
{
    if cells[name@].state is Allocated {
        assert(cells.insert(name@, cells[name@]) =~= cells);
    }
}

/// A cell that is found to have no group is dropped. Where an operation
/// that `get` or `get_mut` applied to the cell under a name reports that the
/// cell has no group, the registry settles without the name, although the
/// call reports the error; a `get` of the name that follows reports the cell
/// as not found.
pub proof fn lemma_dead_cell_is_dropped<L, R, S, F: Fn(&Cell<L>) -> Result<S, CellsError>>(
    cells: Map<Seq<char>, CellView<L>>,
    name: CellName,
    cell: CellView<L>,
    res: Result<R, CellsError>,
    f: F,
    after: Map<Seq<char>, CellView<L>>,
    next: Result<S, CellsError>,
)
    requires
        tells_unallocated(res),
        applied(f, settled(cells, name@, cell, res), name, after, next),
    ensures
        settled(cells, name@, cell, res) == cells.remove(name@),
        !settled(cells, name@, cell, res).contains_key(name@),
        next == Err::<S, CellsError>(CellsError::CellNotFound { cell_name: name }),
        after == cells.remove(name@),
{
}

/// Any other result keeps the entry: where the operation's result does not
/// tell that the cell has no group, the registry settles with the cell as
/// the operation left it and with every other entry as it was.
pub proof fn lemma_live_cell_is_kept<L, R>(
    cells: Map<Seq<char>, CellView<L>>,
    name: CellName,
    cell: CellView<L>,
    res: Result<R, CellsError>,
)
    requires
        !tells_unallocated(res),
    ensures
        settled(cells, name@, cell, res) == cells.insert(name@, cell),
        cell == cells[name@] && cells.contains_key(name@) ==> settled(cells, name@, cell, res)
            == cells,
{
    if cell == cells[name@] && cells.contains_key(name@) {
        assert(cells.insert(name@, cell) =~= cells);
    }
}

/// Two allocations of one free name, in either order: the one that comes
/// first wins and the other is told that the cell exists. Where the backend
/// brings up the group for whichever comes first, exactly one of the two
/// succeeds, and the registry holds one cell under the name, with the
/// winner's limits.
pub proof fn lemma_one_of_two_allocations_wins<L>(
    cells: Map<Seq<char>, CellView<L>>,
    name: CellName,
    one: L,
    other: L,
)
    requires
        !cells.contains_key(name@),
    ensures
        ({
            let (entered, first_res) = allocated(cells, name, one, Ok(()));
            let (after, second_res) = allocated(entered, name, other, Ok(()));
            &&& first_res is Ok
            &&& second_res == Err::<(), CellsError>(CellsError::CellExists { cell_name: name })
            &&& after == cells.insert(name@, CellView::fresh(name, one).allocate(Ok(())).0)
            &&& after[name@].limits == one
            &&& after[name@].state is Allocated
        }),
        ({
            let (entered, first_res) = allocated(cells, name, other, Ok(()));
            let (after, second_res) = allocated(entered, name, one, Ok(()));
            &&& first_res is Ok
            &&& second_res == Err::<(), CellsError>(CellsError::CellExists { cell_name: name })
            &&& after == cells.insert(name@, CellView::fresh(name, other).allocate(Ok(())).0)
            &&& after[name@].limits == other
            &&& after[name@].state is Allocated
        }),
{
}

/// An operation on one name leaves every other name alone: allocating,
/// freeing and settling after an operation change at most the entry of the
/// name they are given.
pub proof fn lemma_other_names_are_untouched<L, R>(
    cells: Map<Seq<char>, CellView<L>>,
    name: CellName,
    other: Seq<char>,
    limits: L,
    created: Result<(), AllocateFailure>,
    released: Result<(), cgroups_rs::error::Error>,
    cell: CellView<L>,
    res: Result<R, CellsError>,
)
    requires
        other != name@,
    ensures
        ({
            let after = allocated(cells, name, limits, created).0;
            after.contains_key(other) == cells.contains_key(other) && after[other] == cells[other]
        }),
        ({
            let after = freed(cells, name, released).0;
            after.contains_key(other) == cells.contains_key(other) && after[other] == cells[other]
        }),
        ({
            let after = settled(cells, name@, cell, res);
            after.contains_key(other) == cells.contains_key(other) && after[other] == cells[other]
        }),
{
}

/// An entry goes only when its cell was freed or is known to be dead: where
/// `free` takes a registered name out of the registry, it either succeeded
/// or reports that the cell has no group; settling after an operation takes
/// the name out exactly when the operation reports that; and allocating
/// takes no name out.
pub proof fn lemma_entries_go_only_when_freed_or_dead<L, R>(
    cells: Map<Seq<char>, CellView<L>>,
    name: CellName,
    limits: L,
    created: Result<(), AllocateFailure>,
    released: Result<(), cgroups_rs::error::Error>,
    cell: CellView<L>,
    res: Result<R, CellsError>,
)
    requires
        cells.contains_key(name@),
    ensures
        allocated(cells, name, limits, created).0.contains_key(name@),
        ({
            let (after, res) = freed(cells, name, released);
            !after.contains_key(name@) <==> res is Ok || tells_unallocated(res)
        }),
        !settled(cells, name@, cell, res).contains_key(name@) <==> tells_unallocated(res),
{
}

/// Only an allocated cell works. A cell that is unallocated or freed
/// answers every request to free it, or to add, start or stop an executable,
/// with the error that tells that it has no group, and stays as it was.
pub proof fn lemma_work_needs_allocation<L>(
    cell: CellView<L>,
    name: ExecutableName,
    command: String,
    released: Result<(), cgroups_rs::error::Error>,
    started: Result<u32, StartFailure>,
    stopped: Result<(), std::io::Error>,
)
    requires
        !(cell.state is Allocated),
    ensures
        cell.ensure_allocated() == Err::<(), CellsError>(cell.unallocated()),
        cell.free(released) == (cell, Err::<(), CellsError>(cell.unallocated())),
        cell.add_executable(name, command) == (cell, Err::<(), CellsError>(cell.unallocated())),
        cell.start_executable(name, started) == (
            cell,
            Err::<(), CellsError>(cell.unallocated()),
        ),
        cell.stop_executable(name, stopped) == (cell, Err::<(), CellsError>(cell.unallocated())),
{
}

/// A cell moves forward only: from unallocated to allocated, by a
/// successful allocation alone, and from allocated to freed, by a successful
/// free alone. A freed cell stays freed, and a transition that fails leaves
/// the cell as it was.
pub proof fn lemma_cell_moves_forward<L>(
    cell: CellView<L>,
    created: Result<(), AllocateFailure>,
    released: Result<(), cgroups_rs::error::Error>,
)
    ensures
        ({
            let (next, res) = cell.allocate(created);
            &&& res is Ok <==> cell.state is Unallocated && created is Ok
            &&& res is Ok ==> next.state is Allocated
            &&& res is Err ==> next == cell
        }),
        ({
            let (next, res) = cell.free(released);
            &&& res is Ok <==> cell.state is Allocated && released is Ok
            &&& res is Ok ==> next.state is Freed && next.executables == Map::<
                Seq<char>,
                crate::cell::Executable,
            >::empty()
            &&& res is Err ==> next == cell
        }),
        cell.state is Freed ==> cell.allocate(created).0 == cell && cell.free(released).0 == cell,
{
}

/// The executables of a cell have one entry per name: adding under a name
/// that the cell holds is refused and changes nothing, and starting or
/// stopping under a name that the cell does not hold reports the executable
/// as not found and changes nothing.
pub proof fn lemma_executables_are_told_apart<L>(
    cell: CellView<L>,
    name: ExecutableName,
    command: String,
    started: Result<u32, StartFailure>,
    stopped: Result<(), std::io::Error>,
)
    requires
        cell.state is Allocated,
    ensures
        cell.executables.contains_key(name@) ==> cell.add_executable(name, command) == (
            cell,
            Err::<(), CellsError>(
                CellsError::ExecutableExists { cell_name: cell.name, executable_name: name },
            ),
        ),
        !cell.executables.contains_key(name@) ==> {
            &&& cell.add_executable(name, command).1 is Ok
            &&& cell.add_executable(name, command).0.executables.contains_key(name@)
            &&& cell.start_executable(name, started) == (
                cell,
                Err::<(), CellsError>(
                    CellsError::ExecutableNotFound { cell_name: cell.name, executable_name: name },
                ),
            )
            &&& cell.stop_executable(name, stopped) == (
                cell,
                Err::<(), CellsError>(
                    CellsError::ExecutableNotFound { cell_name: cell.name, executable_name: name },
                ),
            )
        },
{
}

} // verus!
