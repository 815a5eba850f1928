use vstd::prelude::*;

verus! {

/// One recorded task.
#[derive(Debug, Clone)]
pub struct Todo {
    pub id: i32,
    pub message: String,
    pub is_done: bool,
    pub created_at: u64,
}

/// The mathematical value of a task: its message as a sequence of characters.
pub struct TodoModel {
    pub id: i32,
    pub message: Seq<char>,
    pub is_done: bool,
    pub created_at: u64,
}

impl View for Todo {
    type V = TodoModel;

    open spec fn view(&self) -> TodoModel {
        TodoModel {
            id: self.id,
            message: self.message@,
            is_done: self.is_done,
            created_at: self.created_at,
        }
    }
}

impl Todo {
    /// A task equal to this one in every field.
    pub fn duplicate(&self) -> (r: Todo)
        ensures
            r@ == self@,
    {
        Todo {
            id: self.id,
            message: self.message.clone(),
            is_done: self.is_done,
            created_at: self.created_at,
        }
    }
}

/// What an operation of the service can fail with.
#[derive(Debug, Clone, PartialEq, Eq)]
pub enum TodoError {
    /// A required operand (message words, ids) is missing.
    InvalidArgument,
    /// An id is not a decimal integer; batches skip such ids instead.
    ParseError,
    /// The store could not carry out the operation.
    StorageError(String),
    /// A timestamp that cannot be rendered as a date.
    InvalidTimestamp,
}

} // verus!
