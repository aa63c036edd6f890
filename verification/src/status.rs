//! The four states a task can be in, and the words that stand for them.

use vstd::prelude::*;
use crate::text::same_text;

verus! {

/// The state of a task. Any state may follow any other.
#[derive(Debug, Clone, Copy, PartialEq, Eq, Structural)]
pub enum TaskStatus {
    Todo,
    Skip,
    InProgress,
    Done,
}

impl TaskStatus {
    /// The word that stands for this status in storage and on the command line.
    pub open spec fn word(self) -> Seq<char> {
        match self {
            TaskStatus::Todo => "todo"@,
            TaskStatus::Skip => "skip"@,
            TaskStatus::InProgress => "in_progress"@,
            TaskStatus::Done => "done"@,
        }
    }

    /// The status that a word stands for, if it stands for one.
    pub open spec fn parse(word: Seq<char>) -> Option<TaskStatus> {
        if word == "todo"@ {
            Some(TaskStatus::Todo)
        } else if word == "skip"@ {
            Some(TaskStatus::Skip)
        } else if word == "in_progress"@ {
            Some(TaskStatus::InProgress)
        } else if word == "done"@ {
            Some(TaskStatus::Done)
        } else {
            None
        }
    }

    /// Reads a status from its word; `None` for any other text.
    pub fn from_str(s: &str) -> (r: Option<&Self>)
        ensures
            match Self::parse(s@) {
                Some(status) => r == Some(&status),
                None => r is None,
            },
    {
        if same_text(s, "todo") {
            Some(&TaskStatus::Todo)
        } else if same_text(s, "skip") {
            Some(&TaskStatus::Skip)
        } else if same_text(s, "in_progress") {
            Some(&TaskStatus::InProgress)
        } else if same_text(s, "done") {
            Some(&TaskStatus::Done)
        } else {
            None
        }
    }

    /// The word of this status.
    pub fn as_str(&self) -> (r: &'static str)
        ensures
            r@ == self.word(),
    {
        match self {
            TaskStatus::Todo => "todo",
            TaskStatus::Skip => "skip",
            TaskStatus::InProgress => "in_progress",
            TaskStatus::Done => "done",
        }
    }

    /// The word of this status, as an owned string.
    pub fn to_string(&self) -> (r: String)
        ensures
            r@ == self.word(),
    {
        self.as_str().to_owned()
    }
}

/// Reading the word of a status gives that status back: the four words are
/// pairwise different.
pub proof fn lemma_parse_word(status: TaskStatus)
    ensures
        TaskStatus::parse(status.word()) == Some(status),
{
    reveal_strlit("todo");
    reveal_strlit("skip");
    reveal_strlit("in_progress");
    reveal_strlit("done");
    assert("todo"@[0] != "skip"@[0]);
    assert("todo"@[0] != "in_progress"@[0]);
    assert("todo"@[0] != "done"@[0]);
    assert("skip"@[0] != "in_progress"@[0]);
    assert("skip"@[0] != "done"@[0]);
    assert("in_progress"@[0] != "done"@[0]);
}

/// A word that reads as a status is the word of that status.
pub proof fn lemma_word_parse(word: Seq<char>)
    ensures
        TaskStatus::parse(word) matches Some(status) ==> status.word() == word,
{
}

} // verus!
