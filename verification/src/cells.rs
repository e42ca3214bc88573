use crate::backend::AllocateFailure;
use crate::cell::Cell;
use crate::cell::CellView;
use crate::error::CellsError;
use crate::names::CellName;
use crate::table::Table;
use vstd::prelude::*;

verus! {

/// The registry of cells: at most one cell under each name.
///
/// Its view is the map from each registered name's characters to the cell
/// kept under it. A caller that shares a registry among tasks keeps it behind
/// one lock and holds the lock over each call.
#[derive(Debug)]
pub struct Cells<L> {
    cache: Table<Cell<L>>,
}

/// Whether the result of an operation on a cell tells the registry that no
/// group stands behind the cell, so that its entry is dead.
pub open spec fn tells_unallocated<R>(res: Result<R, CellsError>) -> bool {
    res matches Err(e) && e.signals_unallocated()
}

/// The registry after an operation on the cell under `name` has returned
/// `res` and left the cell as `cell`: the entry is dropped where the result
/// tells that the cell has no group, and holds `cell` otherwise.
pub open spec fn settled<L, R>(
    cells: Map<Seq<char>, CellView<L>>,
    name: Seq<char>,
    cell: CellView<L>,
    res: Result<R, CellsError>,
) -> Map<Seq<char>, CellView<L>> {
    if tells_unallocated(res) {
        cells.remove(name)
    } else {
        cells.insert(name, cell)
    }
}

/// Allocation: the registry afterwards and what is reported, where the
/// backend answered `outcome`. A taken name changes nothing; a free name
/// gets a fresh cell of the given limits, which stays entered whether or not
/// its allocation succeeds.
pub open spec fn allocated<L>(
    cells: Map<Seq<char>, CellView<L>>,
    name: CellName,
    limits: L,
    outcome: Result<(), AllocateFailure>,
) -> (Map<Seq<char>, CellView<L>>, Result<(), CellsError>) {
    if cells.contains_key(name@) {
        (cells, Err(CellsError::CellExists { cell_name: name }))
    } else {
        let (cell, res) = CellView::fresh(name, limits).allocate(outcome);
        (cells.insert(name@, cell), res)
    }
}

/// Freeing: the registry afterwards and what is reported, where the backend
/// answered `outcome`. The entry goes when the cell was freed and when the
/// cell tells that it has no group; it stays when the backend failed.
pub open spec fn freed<L>(
    cells: Map<Seq<char>, CellView<L>>,
    name: CellName,
    outcome: Result<(), cgroups_rs::error::Error>,
) -> (Map<Seq<char>, CellView<L>>, Result<(), CellsError>) {
    if !cells.contains_key(name@) {
        (cells, Err(CellsError::CellNotFound { cell_name: name }))
    } else {
        let (cell, res) = cells[name@].free(outcome);
        if res is Ok {
            (cells.remove(name@), res)
        } else {
            (settled(cells, name@, cell, res), res)
        }
    }
}

/// What `get` leaves and returns: `cells` and `res`, where the registry was
/// `before`. Without a cell under `name` nothing changes and the cell is
/// reported as not found. Otherwise `res` is what `f` returned of that cell,
/// and the registry settles on it.
pub open spec fn applied<L, R, F: Fn(&Cell<L>) -> Result<R, CellsError>>(
    f: F,
    before: Map<Seq<char>, CellView<L>>,
    name: CellName,
    cells: Map<Seq<char>, CellView<L>>,
    res: Result<R, CellsError>,
) -> bool {
    if before.contains_key(name@) {
        exists|cell: &Cell<L>|
            {
                &&& cell@ == before[name@]
                &&& call_ensures(f, (cell,), res)
                &&& cells == settled(before, name@, cell@, res)
            }
    } else {
        cells == before && res == Err::<R, CellsError>(
            CellsError::CellNotFound { cell_name: name },
        )
    }
}

/// What `allocate_then` leaves and returns: `cells` and `res`, where the
/// allocation left the registry and the report `entered`. A failed
/// allocation is handed on as it is; after a successful one `f` is applied
/// to the cell under `name` as `get` applies it.
pub open spec fn then_applied<L, R, F: Fn(&Cell<L>) -> Result<R, CellsError>>(
    f: F,
    entered: (Map<Seq<char>, CellView<L>>, Result<(), CellsError>),
    name: CellName,
    cells: Map<Seq<char>, CellView<L>>,
    res: Result<R, CellsError>,
) -> bool {
    match entered.1 {
        Err(e) => cells == entered.0 && res == Err::<R, CellsError>(e),
        Ok(_) => applied(f, entered.0, name, cells, res),
    }
}

fn is_dead<R>(res: &Result<R, CellsError>) -> (dead: bool)
    ensures
        dead == tells_unallocated(*res),
{
    match res {
        Err(e) => e.signals_unallocated(),
        Ok(_) => false,
    }
}

impl<L> View for Cells<L> {
    type V = Map<Seq<char>, CellView<L>>;

    closed spec fn view(&self) -> Map<Seq<char>, CellView<L>> {
        self.cache@.map_values(|cell: Cell<L>| cell@)
    }
}

impl<L> Cells<L> {
    /// A registry without cells.
    pub fn new() -> (cells: Self)
        ensures
            cells@ == Map::<Seq<char>, CellView<L>>::empty(),
    {
        let cells = Cells { cache: Table::new() };
        assert(cells@ =~= Map::<Seq<char>, CellView<L>>::empty());
        cells
    }

    /// The number of cells.
    pub fn len(&self) -> (count: usize)
        ensures
            self@.dom().finite(),
            count == self@.len(),
    {
        let count = self.cache.len();
        assert(self@.dom() =~= self.cache@.dom());
        count
    }

    /// Whether a cell is kept under `cell_name`.
    pub fn contains(&self, cell_name: &CellName) -> (found: bool)
        ensures
            found == self@.contains_key(cell_name@),
    {
        self.cache.contains_key(cell_name.as_string())
    }

    /// Applies `f` to the cell under `cell_name` and returns what it returned.
    ///
    /// Without such a cell nothing is called and the cell is reported as not
    /// found. Where `f` reports that the cell has no group, the entry is
    /// dropped before the error is handed on; any other result leaves the
    /// registry as it was.
    pub fn get<F, R>(&mut self, cell_name: &CellName, f: F) -> (res: Result<R, CellsError>) where
        F: Fn(&Cell<L>) -> Result<R, CellsError>,

        requires
            old(self)@.contains_key(cell_name@) ==> forall|cell: &Cell<L>|
                cell@ == old(self)@[cell_name@] ==> call_requires(f, (cell,)),
        ensures
            applied(f, old(self)@, *cell_name, final(self)@, res),
    {
        let ghost kept = self.cache@[cell_name@];
        let res = match self.cache.get(cell_name.as_string()) {
            None => {
                return Err(CellsError::CellNotFound { cell_name: cell_name.clone() });
            },
            Some(cell) => f(cell),
        };
        if is_dead(&res) {
            let _ = self.cache.remove(cell_name.as_string());
            assert(self@ =~= old(self)@.remove(cell_name@));
        } else {
            assert(self@ =~= old(self)@.insert(cell_name@, kept@));
        }
        assert(call_ensures(f, (&kept,), res));
        assert(kept@ == old(self)@[cell_name@]);
        assert(self@ == settled(old(self)@, cell_name@, kept@, res));
        res
    }

    /// Applies `f` to the cell under `cell_name`, which it may change, and
    /// returns what it returned.
    ///
    /// Without such a cell nothing is called and the cell is reported as not
    /// found. Where `f` reports that the cell has no group, the entry is
    /// dropped before the error is handed on; after any other result the
    /// entry holds the cell as `f` left it.
    pub fn get_mut<F, R>(&mut self, cell_name: &CellName, f: F) -> (res: Result<
        R,
        CellsError,
    >) where F: FnOnce(&mut Cell<L>) -> Result<R, CellsError>

        requires
            old(self)@.contains_key(cell_name@) ==> forall|cell: &mut Cell<L>|
                cell@ == old(self)@[cell_name@] ==> call_requires(f, (cell,)),
        ensures
            !old(self)@.contains_key(cell_name@) ==> final(self)@ == old(self)@ && res == Err::<
                R,
                CellsError,
            >(CellsError::CellNotFound { cell_name: *cell_name }),
            old(self)@.contains_key(cell_name@) ==> exists|cell: &mut Cell<L>|
                {
                    &&& cell@ == old(self)@[cell_name@]
                    &&& call_ensures(f, (cell,), res)
                    &&& final(self)@ == settled(old(self)@, cell_name@, final(cell)@, res)
                },
    {
        assert(self.cache@.contains_key(cell_name@) ==> self@[cell_name@]
            == self.cache@[cell_name@]@);
        let res = match self.cache.apply(cell_name.as_string(), f) {
            None => {
                return Err(CellsError::CellNotFound { cell_name: cell_name.clone() });
            },
            Some(res) => res,
        };
        let ghost lent = choose|slot: &mut Cell<L>|
            {
                &&& *slot == old(self).cache@[cell_name@]
                &&& self.cache@ == old(self).cache@.insert(cell_name@, *final(slot))
                &&& call_ensures(f, (slot,), res)
            };
        if is_dead(&res) {
            let _ = self.cache.remove(cell_name.as_string());
            assert(self@ =~= old(self)@.remove(cell_name@));
        } else {
            assert(self@ =~= old(self)@.insert(cell_name@, final(lent)@));
        }
        assert(lent@ == old(self)@[cell_name@]);
        assert(self@ == settled(old(self)@, cell_name@, final(lent)@, res));
        res
    }

    /// Frees the cell under `cell_name` by having `release` give up its
    /// group, and drops its entry.
    ///
    /// Without such a cell nothing is called and the cell is reported as not
    /// found. `release` is called with the cell's own name, and only if the
    /// cell is allocated. Where it fails the failure is reported and the
    /// entry stays. A cell that is not allocated reports that it has no
    /// group, and its entry is dropped as dead.
    pub fn free<F>(&mut self, cell_name: &CellName, release: F) -> (res: Result<
        (),
        CellsError,
    >) where F: FnOnce(&CellName) -> Result<(), cgroups_rs::error::Error>

        requires
            old(self)@.contains_key(cell_name@) && old(self)@[cell_name@].state is Allocated
                ==> call_requires(release, (&old(self)@[cell_name@].name,)),
        ensures
            exists|outcome: Result<(), cgroups_rs::error::Error>|
                {
                    &&& old(self)@.contains_key(cell_name@) && old(
                        self,
                    )@[cell_name@].state is Allocated ==> call_ensures(
                        release,
                        (&old(self)@[cell_name@].name,),
                        outcome,
                    )
                    &&& (final(self)@, res) == freed(old(self)@, *cell_name, outcome)
                },
    {
        let ghost before = self@;
        let freeing = |cell: &mut Cell<L>| -> (res: Result<(), CellsError>)
            requires
                before.contains_key(cell_name@),
                old(cell)@ == before[cell_name@],
            ensures
                exists|outcome: Result<(), cgroups_rs::error::Error>|
                    {
                        &&& old(cell)@.state is Allocated ==> call_ensures(
                            release,
                            (&old(cell)@.name,),
                            outcome,
                        )
                        &&& (final(cell)@, res) == old(cell)@.free(outcome)
                    },
            { cell.free(release) };
        let res = self.get_mut(cell_name, freeing);
        let ghost looked = self@;
        if res.is_ok() {
            let _ = self.cache.remove(cell_name.as_string());
            assert(self@ =~= looked.remove(cell_name@));
        }
        proof {
            if before.contains_key(cell_name@) {
                let lent = choose|cell: &mut Cell<L>|
                    {
                        &&& cell@ == before[cell_name@]
                        &&& call_ensures(freeing, (cell,), res)
                        &&& looked == settled(before, cell_name@, final(cell)@, res)
                    };
                let seen = choose|outcome: Result<(), cgroups_rs::error::Error>|
                    {
                        &&& lent@.state is Allocated ==> call_ensures(
                            release,
                            (&lent@.name,),
                            outcome,
                        )
                        &&& (final(lent)@, res) == lent@.free(outcome)
                    };
                if res is Ok {
                    assert(self@ =~= before.remove(cell_name@));
                }
                assert((self@, res) == freed(before, *cell_name, seen));
            } else {
                assert((self@, res) == freed(before, *cell_name, Ok(())));
            }
        }
        res
    }

    /// Registers a cell under `cell_name`, made from the blueprint `cell`, and
    /// allocates it by having `create` bring up its group.
    ///
    /// Where the name is taken nothing is called, nothing changes and the
    /// cell is reported as existing. Otherwise a fresh cell of that name and
    /// those limits is entered and `create` is called with both. Where it
    /// fails the failure is reported and the entry stays, holding the cell
    /// unallocated: to free the name again is up to the caller.
    pub fn allocate<F>(&mut self, cell_name: CellName, cell: L, create: F) -> (res: Result<
        (),
        CellsError,
    >) where F: FnOnce(&CellName, &L) -> Result<(), AllocateFailure>
        requires
            !old(self)@.contains_key(cell_name@) ==> call_requires(create, (&cell_name, &cell)),
        ensures
            exists|outcome: Result<(), AllocateFailure>|
                {
                    &&& !old(self)@.contains_key(cell_name@) ==> call_ensures(
                        create,
                        (&cell_name, &cell),
                        outcome,
                    )
                    &&& (final(self)@, res) == allocated(old(self)@, cell_name, cell, outcome)
                },
    {
        let ghost before = self@;
        if self.cache.contains_key(cell_name.as_string()) {
            let res = Err(CellsError::CellExists { cell_name });
            assert((self@, res) == allocated(before, cell_name, cell, Ok(())));
            return res;
        }
        let key = cell_name.as_string().clone();
        let mut made = Cell::new(cell_name, cell);
        let res = made.allocate(create);
        let ghost seen = choose|outcome: Result<(), AllocateFailure>|
            {
                &&& call_ensures(create, (&cell_name, &cell), outcome)
                &&& (made@, res) == CellView::fresh(cell_name, cell).allocate(outcome)
            };
        let _ = self.cache.insert(key, made);
        assert(self@ =~= before.insert(cell_name@, made@));
        assert((self@, res) == allocated(before, cell_name, cell, seen));
        res
    }

    /// Allocates as `allocate` does and then, in the same call, applies `f`
    /// to the cell that was entered and returns what it returned.
    ///
    /// Where the name is taken, or the cell's allocation fails, `f` is not
    /// called and the registry is left as `allocate` leaves it. Where `f`
    /// reports that the cell has no group, the entry is dropped before the
    /// error is handed on.
    pub fn allocate_then<F, G, R>(&mut self, cell_name: CellName, cell: L, create: F, f: G) -> (res:
        Result<R, CellsError>) where
        F: FnOnce(&CellName, &L) -> Result<(), AllocateFailure>,
        G: Fn(&Cell<L>) -> Result<R, CellsError>,

        requires
            !old(self)@.contains_key(cell_name@) ==> call_requires(create, (&cell_name, &cell)),
            !old(self)@.contains_key(cell_name@) ==> forall|entered: &Cell<L>|
                entered@ == CellView::fresh(cell_name, cell).allocate(Ok(())).0 ==> call_requires(
                    f,
                    (entered,),
                ),
        ensures
            exists|outcome: Result<(), AllocateFailure>|
                {
                    &&& !old(self)@.contains_key(cell_name@) ==> call_ensures(
                        create,
                        (&cell_name, &cell),
                        outcome,
                    )
                    &&& then_applied(
                        f,
                        allocated(old(self)@, cell_name, cell, outcome),
                        cell_name,
                        final(self)@,
                        res,
                    )
                },
    {
        let name = cell_name.clone();
        match self.allocate(cell_name, cell, create) {
            Err(e) => Err(e),
            Ok(_) => self.get(&name, f),
        }
    }
}

impl<L> Default for Cells<L> {
    /// A registry without cells.
    fn default() -> (cells: Self)
        ensures
            cells@ == Map::<Seq<char>, CellView<L>>::empty(),
    {
        Cells::new()
    }
}

} // verus!
