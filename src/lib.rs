//! An in-memory todo list: records with unique ids, kept in insertion order,
//! with operations to add, remove, toggle and query them.

pub mod ambient;
pub mod laws;
pub mod list;
pub mod todo;

pub use list::TodoList;
pub use todo::{Priority, Todo, TodoError};
