//! A small to-do list: an ordered sequence of tasks, the operations that
//! change it, and the grouped listing that is shown to the user.
//!
//! The library works on values in memory. Reading and writing the backing
//! file is left to the caller, who learns from each operation's result
//! whether the sequence changed and has to be written out again.

pub mod command;
pub mod decimal;
pub mod error;
pub mod index;
pub mod listing;
pub mod store;
pub mod task;

pub use command::{run, Command, Report};
pub use decimal::decimal;
pub use error::TodoError;
pub use index::{parse_position, parse_usize};
pub use listing::{list_tasks, render, Entry, Listing};
pub use store::{
    add_task, complete, complete_task, delete_completed, tasks_or_empty, Completion,
};
pub use task::Task;
