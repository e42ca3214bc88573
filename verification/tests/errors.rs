use aurae_cells::error::CellsError;
use aurae_cells::error::ErrorClass;
use aurae_cells::names::CellName;
use aurae_cells::names::ExecutableName;

fn cell() -> CellName {
    CellName::new("c".to_string())
}

fn exe() -> ExecutableName {
    ExecutableName::new("x".to_string())
}

fn group_error() -> cgroups_rs::error::Error {
    cgroups_rs::parse_max_value("?").unwrap_err()
}

fn os_error() -> std::io::Error {
    std::io::Error::new(std::io::ErrorKind::Other, "os")
}

#[test]
fn bookkeeping_errors_wrap_no_cause() {
    let errors = vec![
        CellsError::CellExists { cell_name: cell() },
        CellsError::CellNotFound { cell_name: cell() },
        CellsError::CellNotAllocated { cell_name: cell() },
        CellsError::ExecutableExists { cell_name: cell(), executable_name: exe() },
        CellsError::ExecutableNotFound { cell_name: cell(), executable_name: exe() },
    ];
    for e in errors {
        assert_eq!(e.class(), ErrorClass::Bookkeeping);
    }
}

#[test]
fn backend_errors_are_told_from_supervision_errors() {
    let backend = vec![
        CellsError::FailedToAllocateCell { cell_name: cell(), source: os_error() },
        CellsError::AbortedAllocateCell { cell_name: cell(), source: group_error() },
        CellsError::FailedToFreeCell { cell_name: cell(), source: group_error() },
        CellsError::FailedToAddExecutableToCell {
            cell_name: cell(),
            executable_name: exe(),
            source: group_error(),
        },
    ];
    for e in backend {
        assert_eq!(e.class(), ErrorClass::Backend);
    }
    let supervision = vec![
        CellsError::FailedToStartExecutable {
            cell_name: cell(),
            executable_name: exe(),
            command: "run".to_string(),
            source: os_error(),
        },
        CellsError::FailedToStopExecutable {
            cell_name: cell(),
            executable_name: exe(),
            source: os_error(),
        },
    ];
    for e in supervision {
        assert_eq!(e.class(), ErrorClass::Supervision);
    }
    assert_eq!(CellsError::FailedToObtainLock().class(), ErrorClass::Lock);
}

#[test]
fn only_cell_not_allocated_signals_a_dead_cell() {
    assert!(CellsError::CellNotAllocated { cell_name: cell() }.signals_unallocated());
    assert!(!CellsError::CellNotFound { cell_name: cell() }.signals_unallocated());
    assert!(!CellsError::CellExists { cell_name: cell() }.signals_unallocated());
    assert!(!CellsError::FailedToFreeCell { cell_name: cell(), source: group_error() }
        .signals_unallocated());
    assert!(!CellsError::FailedToAllocateCell { cell_name: cell(), source: os_error() }
        .signals_unallocated());
    assert!(!CellsError::ExecutableNotFound { cell_name: cell(), executable_name: exe() }
        .signals_unallocated());
    assert!(!CellsError::FailedToObtainLock().signals_unallocated());
}

#[test]
fn names_compare_by_their_characters() {
    assert_eq!(cell(), CellName::new("c".to_string()));
    assert_ne!(cell(), CellName::new("C".to_string()));
    assert_eq!(cell().clone(), cell());
    assert_eq!(cell().as_string(), "c");
    assert_eq!(exe(), ExecutableName::new("x".to_string()));
    assert_ne!(exe(), ExecutableName::new("".to_string()));
    assert_eq!(exe().clone().as_string(), "x");
}
