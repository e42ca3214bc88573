//! A registry of named cells, verified with Verus.
//!
//! A cell is an isolated place in which executables run: a resource group of
//! the operating system and the processes inside it. The registry keeps at
//! most one cell under each name. Cells are reached only through it: a
//! caller hands `get`, `get_mut` or `allocate_then` a function, which the
//! registry applies to the cell, and where that function reports that the
//! cell has no group behind it, the registry drops the entry.
//!
//! Nothing here touches the operating system. The work on groups and
//! processes is handed in as a function with each call, and every contract
//! says what the registry and the cell are afterwards for each answer that
//! such a function can give.
//!
//! - [`names`]: the names of cells and executables.
//! - [`error`]: what can be reported.
//! - [`backend`]: what the isolation backend and the supervisor can answer.
//! - [`table`]: the association table that cells and executables are kept in.
//! - [`cell`]: the cell and its life cycle.
//! - [`cells`]: the registry.
//! - [`laws`]: what holds of every registry and every cell.

pub mod backend;
pub mod cell;
pub mod cells;
pub mod error;
pub mod laws;
pub mod names;
pub mod table;
