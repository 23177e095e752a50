//! The conditions under which an operation on the list fails.

use vstd::prelude::*;

verus! {

/// Why an operation did not take place.
#[derive(Debug, Clone, Copy, PartialEq, Eq, Structural)]
pub enum TodoError {
    /// The position given does not name a task of the list.
    IndexOutOfBounds,
    /// The list holds no completed task, so nothing was removed.
    NothingToDelete,
    /// The text given as a position is not an unsigned decimal number.
    InvalidIndex,
}

impl TodoError {
    /// The text of [`TodoError::message`].
    pub open spec fn message_text(self) -> Seq<char> {
        match self {
            TodoError::IndexOutOfBounds => "Index out of bounds"@,
            TodoError::NothingToDelete => "No completed tasks to delete"@,
            TodoError::InvalidIndex => "Index must be a positive integer"@,
        }
    }

    /// The message shown to the user for this error.
    pub fn message(&self) -> (text: String)
        ensures
            text@ == self.message_text(),
    {
        match self {
            TodoError::IndexOutOfBounds => "Index out of bounds".to_owned(),
            TodoError::NothingToDelete => "No completed tasks to delete".to_owned(),
            TodoError::InvalidIndex => "Index must be a positive integer".to_owned(),
        }
    }
}

} // verus!
