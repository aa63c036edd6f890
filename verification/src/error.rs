//! What can go wrong in the library's own operations.

use vstd::prelude::*;

verus! {

/// Why an operation was refused.
#[derive(Debug, Clone, Copy, PartialEq, Eq, Structural)]
pub enum TaskError {
    /// No task in the store has the identifier that was named.
    NotFound,
    /// A word that should name a status names none.
    InvalidStatus,
}

impl TaskError {
    /// The words of this error.
    pub open spec fn words(self) -> Seq<char> {
        match self {
            TaskError::NotFound => "task not found"@,
            TaskError::InvalidStatus => "invalid status"@,
        }
    }

    /// A short message for the user.
    pub fn message(&self) -> (r: &'static str)
        ensures
            r@ == self.words(),
    {
        match self {
            TaskError::NotFound => "task not found",
            TaskError::InvalidStatus => "invalid status",
        }
    }
}

} // verus!
