use aurae_cells::backend::AllocateFailure;
use aurae_cells::backend::StartFailure;
use aurae_cells::cell::Cell;
use aurae_cells::cell::CellState;
use aurae_cells::error::CellsError;
use aurae_cells::names::CellName;
use aurae_cells::names::ExecutableName;

fn cell_name(text: &str) -> CellName {
    CellName::new(text.to_string())
}

fn exe(text: &str) -> ExecutableName {
    ExecutableName::new(text.to_string())
}

fn group_error() -> cgroups_rs::error::Error {
    cgroups_rs::parse_max_value("many").unwrap_err()
}

fn os_error(text: &str) -> std::io::Error {
    std::io::Error::new(std::io::ErrorKind::Other, text.to_string())
}

fn allocated_cell(text: &str) -> Cell<u64> {
    let mut cell = Cell::new(cell_name(text), 100);
    assert!(cell.allocate(|_: &CellName, _: &u64| Ok(())).is_ok());
    cell
}

fn never_create(_: &CellName, _: &u64) -> Result<(), AllocateFailure> {
    panic!("the backend must not be asked")
}

fn never_release(_: &CellName) -> Result<(), cgroups_rs::error::Error> {
    panic!("the backend must not be asked")
}

fn never_launch(_: &CellName, _: &ExecutableName, _: &String) -> Result<u32, StartFailure> {
    panic!("the supervisor must not be asked")
}

fn never_halt(_: &CellName, _: &ExecutableName, _: u32) -> Result<(), std::io::Error> {
    panic!("the supervisor must not be asked")
}

#[test]
fn a_new_cell_is_unallocated() {
    let cell = Cell::new(cell_name("c"), 5u64);
    assert_eq!(cell.state(), CellState::Unallocated);
    assert_eq!(cell.name(), &cell_name("c"));
    assert_eq!(*cell.limits(), 5);
    assert!(cell.executable(&exe("x")).is_none());
    assert!(matches!(
        cell.ensure_allocated(),
        Err(CellsError::CellNotAllocated { cell_name: n }) if n == cell_name("c")
    ));
}

#[test]
fn allocate_asks_the_backend_with_name_and_limits() {
    let mut cell = Cell::new(cell_name("c"), 5u64);
    let mut asked = Vec::new();
    let res = cell.allocate(|n: &CellName, l: &u64| {
        asked.push((n.clone(), *l));
        Ok(())
    });
    assert!(res.is_ok());
    assert_eq!(asked, vec![(cell_name("c"), 5)]);
    assert_eq!(cell.state(), CellState::Allocated);
    assert!(cell.ensure_allocated().is_ok());
}

#[test]
fn allocate_that_fails_on_io_leaves_the_cell_unallocated() {
    let mut cell = Cell::new(cell_name("c"), 5u64);
    let res = cell.allocate(|_: &CellName, _: &u64| Err(AllocateFailure::Io(os_error("disk"))));
    match res {
        Err(CellsError::FailedToAllocateCell { cell_name: n, source }) => {
            assert_eq!(n, cell_name("c"));
            assert_eq!(source.to_string(), "disk");
        }
        other => panic!("unexpected {:?}", other),
    }
    assert_eq!(cell.state(), CellState::Unallocated);
    assert!(cell.allocate(|_: &CellName, _: &u64| Ok(())).is_ok());
    assert_eq!(cell.state(), CellState::Allocated);
}

#[test]
fn allocate_that_is_aborted_leaves_the_cell_unallocated() {
    let mut cell = Cell::new(cell_name("c"), 5u64);
    let res = cell.allocate(|_: &CellName, _: &u64| Err(AllocateFailure::Aborted(group_error())));
    match res {
        Err(CellsError::AbortedAllocateCell { cell_name: n, source }) => {
            assert_eq!(n, cell_name("c"));
            assert_eq!(source.kind(), &cgroups_rs::error::ErrorKind::ParseError);
        }
        other => panic!("unexpected {:?}", other),
    }
    assert_eq!(cell.state(), CellState::Unallocated);
}

#[test]
fn allocate_of_an_allocated_cell_reports_that_it_exists() {
    let mut cell = allocated_cell("c");
    let res = cell.allocate(never_create);
    assert!(matches!(res, Err(CellsError::CellExists { cell_name: n }) if n == cell_name("c")));
    assert_eq!(cell.state(), CellState::Allocated);
}

#[test]
fn free_releases_the_group_and_the_executables() {
    let mut cell = allocated_cell("c");
    assert!(cell.add_executable(exe("x"), "run x".to_string()).is_ok());
    let mut asked = Vec::new();
    let res = cell.free(|n: &CellName| {
        asked.push(n.clone());
        Ok(())
    });
    assert!(res.is_ok());
    assert_eq!(asked, vec![cell_name("c")]);
    assert_eq!(cell.state(), CellState::Freed);
    assert!(cell.executable(&exe("x")).is_none());
}

#[test]
fn free_that_fails_leaves_the_cell_allocated() {
    let mut cell = allocated_cell("c");
    assert!(cell.add_executable(exe("x"), "run x".to_string()).is_ok());
    let res = cell.free(|_: &CellName| Err(group_error()));
    match res {
        Err(CellsError::FailedToFreeCell { cell_name: n, source }) => {
            assert_eq!(n, cell_name("c"));
            assert_eq!(source.kind(), &cgroups_rs::error::ErrorKind::ParseError);
        }
        other => panic!("unexpected {:?}", other),
    }
    assert_eq!(cell.state(), CellState::Allocated);
    assert!(cell.executable(&exe("x")).is_some());
}

#[test]
fn free_of_an_unallocated_cell_reports_no_group() {
    let mut cell = Cell::new(cell_name("c"), 5u64);
    let res = cell.free(never_release);
    assert!(matches!(
        res,
        Err(CellsError::CellNotAllocated { cell_name: n }) if n == cell_name("c")
    ));
    assert_eq!(cell.state(), CellState::Unallocated);
}

#[test]
fn a_freed_cell_stays_freed() {
    let mut cell = allocated_cell("c");
    assert!(cell.free(|_: &CellName| Ok(())).is_ok());
    assert!(matches!(cell.free(never_release), Err(CellsError::CellNotAllocated { .. })));
    assert!(matches!(cell.allocate(never_create), Err(CellsError::CellNotAllocated { .. })));
    assert!(matches!(
        cell.add_executable(exe("x"), "run".to_string()),
        Err(CellsError::CellNotAllocated { .. })
    ));
    assert!(matches!(
        cell.start_executable(&exe("x"), never_launch),
        Err(CellsError::CellNotAllocated { .. })
    ));
    assert!(matches!(
        cell.stop_executable(&exe("x"), never_halt),
        Err(CellsError::CellNotAllocated { .. })
    ));
    assert!(matches!(cell.ensure_allocated(), Err(CellsError::CellNotAllocated { .. })));
    assert_eq!(cell.state(), CellState::Freed);
}

#[test]
fn executables_need_an_allocated_cell() {
    let mut cell = Cell::new(cell_name("c"), 5u64);
    assert!(matches!(
        cell.add_executable(exe("x"), "run".to_string()),
        Err(CellsError::CellNotAllocated { cell_name: n }) if n == cell_name("c")
    ));
    assert!(matches!(
        cell.start_executable(&exe("x"), never_launch),
        Err(CellsError::CellNotAllocated { .. })
    ));
    assert!(matches!(
        cell.stop_executable(&exe("x"), never_halt),
        Err(CellsError::CellNotAllocated { .. })
    ));
    assert!(cell.executable(&exe("x")).is_none());
}

#[test]
fn add_executable_takes_each_name_once() {
    let mut cell = allocated_cell("c");
    assert!(cell.add_executable(exe("x"), "run x".to_string()).is_ok());
    assert!(cell.add_executable(exe("y"), "run y".to_string()).is_ok());
    let again = cell.add_executable(exe("x"), "run z".to_string());
    match again {
        Err(CellsError::ExecutableExists { cell_name: n, executable_name }) => {
            assert_eq!(n, cell_name("c"));
            assert_eq!(executable_name, exe("x"));
        }
        other => panic!("unexpected {:?}", other),
    }
    let x = cell.executable(&exe("x")).unwrap();
    assert_eq!(x.command, "run x");
    assert_eq!(x.pid, None);
    assert_eq!(cell.executable(&exe("y")).unwrap().command, "run y");
}

#[test]
fn start_executable_records_the_process() {
    let mut cell = allocated_cell("c");
    assert!(cell.add_executable(exe("x"), "run x".to_string()).is_ok());
    assert!(cell.add_executable(exe("y"), "run y".to_string()).is_ok());
    let mut asked = Vec::new();
    let res = cell.start_executable(&exe("x"), |c: &CellName, e: &ExecutableName, cmd: &String| {
        asked.push((c.clone(), e.clone(), cmd.clone()));
        Ok(4321)
    });
    assert!(res.is_ok());
    assert_eq!(asked, vec![(cell_name("c"), exe("x"), "run x".to_string())]);
    let x = cell.executable(&exe("x")).unwrap();
    assert_eq!(x.pid, Some(4321));
    assert_eq!(x.command, "run x");
    assert_eq!(cell.executable(&exe("y")).unwrap().pid, None);
}

#[test]
fn start_executable_of_an_unknown_name_reports_not_found() {
    let mut cell = allocated_cell("c");
    let res = cell.start_executable(&exe("x"), never_launch);
    match res {
        Err(CellsError::ExecutableNotFound { cell_name: n, executable_name }) => {
            assert_eq!(n, cell_name("c"));
            assert_eq!(executable_name, exe("x"));
        }
        other => panic!("unexpected {:?}", other),
    }
}

#[test]
fn start_executable_twice_reports_that_it_exists() {
    let mut cell = allocated_cell("c");
    assert!(cell.add_executable(exe("x"), "run x".to_string()).is_ok());
    assert!(cell
        .start_executable(&exe("x"), |_: &CellName, _: &ExecutableName, _: &String| Ok(7))
        .is_ok());
    let again = cell.start_executable(&exe("x"), never_launch);
    assert!(matches!(
        again,
        Err(CellsError::ExecutableExists { executable_name, .. }) if executable_name == exe("x")
    ));
    assert_eq!(cell.executable(&exe("x")).unwrap().pid, Some(7));
}

#[test]
fn start_executable_that_cannot_spawn_keeps_the_command_for_the_report() {
    let mut cell = allocated_cell("c");
    assert!(cell.add_executable(exe("x"), "run x --fast".to_string()).is_ok());
    let res = cell.start_executable(&exe("x"), |_: &CellName, _: &ExecutableName, _: &String| {
        Err(StartFailure::Spawn(os_error("no such file")))
    });
    match res {
        Err(CellsError::FailedToStartExecutable {
            cell_name: n,
            executable_name,
            command,
            source,
        }) => {
            assert_eq!(n, cell_name("c"));
            assert_eq!(executable_name, exe("x"));
            assert_eq!(command, "run x --fast");
            assert_eq!(source.to_string(), "no such file");
        }
        other => panic!("unexpected {:?}", other),
    }
    assert_eq!(cell.executable(&exe("x")).unwrap().pid, None);
    assert!(cell
        .start_executable(&exe("x"), |_: &CellName, _: &ExecutableName, _: &String| Ok(9))
        .is_ok());
}

#[test]
fn start_executable_that_cannot_join_the_group_is_reported() {
    let mut cell = allocated_cell("c");
    assert!(cell.add_executable(exe("x"), "run x".to_string()).is_ok());
    let res = cell.start_executable(&exe("x"), |_: &CellName, _: &ExecutableName, _: &String| {
        Err(StartFailure::Attach(group_error()))
    });
    match res {
        Err(CellsError::FailedToAddExecutableToCell { cell_name: n, executable_name, source }) => {
            assert_eq!(n, cell_name("c"));
            assert_eq!(executable_name, exe("x"));
            assert_eq!(source.kind(), &cgroups_rs::error::ErrorKind::ParseError);
        }
        other => panic!("unexpected {:?}", other),
    }
    assert_eq!(cell.executable(&exe("x")).unwrap().pid, None);
}

#[test]
fn stop_executable_asks_for_the_recorded_process_and_drops_the_executable() {
    let mut cell = allocated_cell("c");
    assert!(cell.add_executable(exe("x"), "run x".to_string()).is_ok());
    assert!(cell.add_executable(exe("y"), "run y".to_string()).is_ok());
    assert!(cell
        .start_executable(&exe("x"), |_: &CellName, _: &ExecutableName, _: &String| Ok(77))
        .is_ok());
    let mut asked = Vec::new();
    let res = cell.stop_executable(&exe("x"), |c: &CellName, e: &ExecutableName, pid: u32| {
        asked.push((c.clone(), e.clone(), pid));
        Ok(())
    });
    assert!(res.is_ok());
    assert_eq!(asked, vec![(cell_name("c"), exe("x"), 77)]);
    assert!(cell.executable(&exe("x")).is_none());
    assert!(cell.executable(&exe("y")).is_some());
    assert!(cell.add_executable(exe("x"), "run again".to_string()).is_ok());
}

#[test]
fn stop_executable_that_fails_keeps_the_executable() {
    let mut cell = allocated_cell("c");
    assert!(cell.add_executable(exe("x"), "run x".to_string()).is_ok());
    assert!(cell
        .start_executable(&exe("x"), |_: &CellName, _: &ExecutableName, _: &String| Ok(77))
        .is_ok());
    let res = cell.stop_executable(&exe("x"), |_: &CellName, _: &ExecutableName, _: u32| {
        Err(os_error("not permitted"))
    });
    match res {
        Err(CellsError::FailedToStopExecutable { cell_name: n, executable_name, source }) => {
            assert_eq!(n, cell_name("c"));
            assert_eq!(executable_name, exe("x"));
            assert_eq!(source.to_string(), "not permitted");
        }
        other => panic!("unexpected {:?}", other),
    }
    assert_eq!(cell.executable(&exe("x")).unwrap().pid, Some(77));
}

#[test]
fn stop_executable_of_an_unknown_name_reports_not_found() {
    let mut cell = allocated_cell("c");
    let res = cell.stop_executable(&exe("x"), never_halt);
    assert!(matches!(
        res,
        Err(CellsError::ExecutableNotFound { executable_name, .. }) if executable_name == exe("x")
    ));
}

#[test]
fn stop_executable_that_never_started_drops_it_without_asking() {
    let mut cell = allocated_cell("c");
    assert!(cell.add_executable(exe("x"), "run x".to_string()).is_ok());
    assert!(cell.stop_executable(&exe("x"), never_halt).is_ok());
    assert!(cell.executable(&exe("x")).is_none());
}
