//! A single-user to-do list: the task model, deadline parsing, validation
//! of new tasks, and the decisions taken on create, mark-done and sort.
//! Storage and drawing are left to the caller, which hands results back in.

pub mod deadline;
pub mod models;
pub mod todolist;
