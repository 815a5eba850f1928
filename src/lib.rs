//! A small task tracker: tasks are recorded, listed, marked done and deleted.
//!
//! The rules of the service (which arguments are accepted, how a message is
//! built, which ids a batch touches) and the semantics of the task table are
//! stated as contracts and proved.
//!
//! `TodoStore` is an in-memory task table: the service operations on it, and
//! the laws in `laws`, are proved against its stated semantics. A program that
//! keeps its tasks in a database uses `TodoOptions::new_todo` and
//! `TodoOptions::id_batch` for the decisions and runs its own statements;
//! nothing here ties those statements to the table's semantics.
pub mod clock;
pub mod laws;
pub mod service;
pub mod store;
pub mod text;
pub mod todo;

pub use clock::{get_timestamp, readable_datetime, timestamp_or_zero};
pub use service::{IdBatch, NewTodo, TodoOptions};
pub use store::TodoStore;
pub use todo::{Todo, TodoError};
