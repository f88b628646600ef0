//! A personal task list: open and completed tasks kept in one snapshot.
//!
//! The library holds the record store and its two mutations (create and
//! complete), the JSON schema of the persisted snapshot, and the decisions of
//! the interactive loop. Reading and writing the file and prompting the user
//! are left to the program around it.

pub mod task;
pub mod store;
pub mod laws;
pub mod document;
pub mod schema;
pub mod snapshot;
pub mod clock;
pub mod session;
