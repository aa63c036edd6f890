//! Tasks as they lie in durable storage: one flat record each, the status
//! written as its word.

use vstd::prelude::*;
use crate::error::TaskError;
use crate::status::TaskStatus;
use crate::task::{Task, TaskView};
use crate::timestamp::{rfc3339, rfc3339_text, Timestamp};

verus! {

/// One stored task. Nothing is known of a record until it is read: its
/// status may be any text and its times may be in any order.
#[derive(Debug, PartialEq, Eq)]
pub struct TaskRecord {
    pub id: u64,
    pub name: String,
    pub description: String,
    pub status: String,
    pub created: Timestamp,
    pub updated: Timestamp,
}

/// What a record is, as a mathematical value.
pub struct RecordView {
    pub id: u64,
    pub name: Seq<char>,
    pub description: Seq<char>,
    pub status: Seq<char>,
    pub created: Timestamp,
    pub updated: Timestamp,
}

impl View for TaskRecord {
    type V = RecordView;

    open spec fn view(&self) -> RecordView {
        RecordView {
            id: self.id,
            name: self.name@,
            description: self.description@,
            status: self.status@,
            created: self.created,
            updated: self.updated,
        }
    }
}

impl Clone for TaskRecord {
    fn clone(&self) -> (r: Self)
        ensures
            r@ == self@,
    {
        TaskRecord {
            id: self.id,
            name: self.name.clone(),
            description: self.description.clone(),
            status: self.status.clone(),
            created: self.created,
            updated: self.updated,
        }
    }
}

impl RecordView {
    /// The record that stores a task.
    pub open spec fn of_task(task: TaskView) -> RecordView {
        RecordView {
            id: task.id,
            name: task.name,
            description: task.description,
            status: task.status.word(),
            created: task.created,
            updated: task.updated,
        }
    }

    /// The record holds a task: its status is one of the four words, it was
    /// not changed before it was made, and an identifier is left above its own.
    pub open spec fn sound(self) -> bool {
        &&& TaskStatus::parse(self.status) is Some
        &&& self.updated.at_or_after(self.created)
        &&& self.id < u64::MAX
    }

    /// The task that a sound record holds.
    pub open spec fn task(self) -> TaskView {
        TaskView {
            id: self.id,
            name: self.name,
            description: self.description,
            status: TaskStatus::parse(self.status).unwrap(),
            created: self.created,
            updated: self.updated,
        }
    }
}

/// A record as it is written: six columns, the times as text.
#[derive(Debug, PartialEq, Eq)]
pub struct TaskRow {
    pub id: u64,
    pub name: String,
    pub description: String,
    pub status: String,
    pub created: String,
    pub updated: String,
}

/// What a row is, as a mathematical value.
pub struct RowView {
    pub id: u64,
    pub name: Seq<char>,
    pub description: Seq<char>,
    pub status: Seq<char>,
    pub created: Seq<char>,
    pub updated: Seq<char>,
}

impl View for TaskRow {
    type V = RowView;

    open spec fn view(&self) -> RowView {
        RowView {
            id: self.id,
            name: self.name@,
            description: self.description@,
            status: self.status@,
            created: self.created@,
            updated: self.updated@,
        }
    }
}

impl RowView {
    /// The row of a record whose times are written as the two texts.
    pub open spec fn of(record: RecordView, created: Seq<char>, updated: Seq<char>) -> RowView {
        RowView {
            id: record.id,
            name: record.name,
            description: record.description,
            status: record.status,
            created,
            updated,
        }
    }

    /// The row of a record, where both of its times can be written.
    pub open spec fn written(record: RecordView) -> Option<RowView> {
        match (
            rfc3339_text(record.created.secs, record.created.nanos),
            rfc3339_text(record.updated.secs, record.updated.nanos),
        ) {
            (Some(created), Some(updated)) => Some(RowView::of(record, created, updated)),
            _ => None,
        }
    }
}

impl TaskRow {
    /// The row of a record whose times are written as the two texts.
    pub fn of(record: &TaskRecord, created: String, updated: String) -> (r: TaskRow)
        ensures
            r@ == RowView::of(record@, created@, updated@),
    {
        TaskRow {
            id: record.id,
            name: record.name.clone(),
            description: record.description.clone(),
            status: record.status.clone(),
            created,
            updated,
        }
    }
}

/// What a list of records shows.
pub open spec fn record_views(records: Seq<TaskRecord>) -> Seq<RecordView> {
    records.map_values(|r: TaskRecord| r@)
}

impl TaskRecord {
    /// The record that stores a task.
    pub fn of(task: &Task) -> (r: TaskRecord)
        ensures
            r@ == RecordView::of_task(task@),
    {
        TaskRecord {
            id: task.id(),
            name: task.name().to_owned(),
            description: task.description().to_owned(),
            status: task.status().to_string(),
            created: *task.created(),
            updated: *task.updated(),
        }
    }

    /// The status that the record names; an error where its word is none of
    /// the four.
    pub fn status(&self) -> (r: Result<TaskStatus, TaskError>)
        ensures
            match r {
                Ok(status) => TaskStatus::parse(self@.status) == Some(status),
                Err(e) => e == TaskError::InvalidStatus && TaskStatus::parse(self@.status) is None,
            },
    {
        match TaskStatus::from_str(self.status.as_str()) {
            Some(status) => Ok(*status),
            None => Err(TaskError::InvalidStatus),
        }
    }

    /// The record as it is written; `None` where one of its times cannot be
    /// written.
    pub fn row(&self) -> (r: Option<TaskRow>)
        ensures
            match r {
                Some(row) => RowView::written(self@) == Some(row@),
                None => RowView::written(self@) is None,
            },
    {
        let created = match rfc3339(self.created) {
            Some(text) => text,
            None => { return None; },
        };
        let updated = match rfc3339(self.updated) {
            Some(text) => text,
            None => { return None; },
        };
        Some(TaskRow::of(self, created, updated))
    }

    /// The task that the record holds; `None` where the record is not sound.
    pub fn task(&self) -> (r: Option<Task>)
        ensures
            match r {
                Some(task) => self@.sound() && task@ == self@.task(),
                None => !self@.sound(),
            },
    {
        if self.id == u64::MAX {
            return None;
        }
        match self.status() {
            Ok(status) => Task::restore(
                self.id,
                self.name.clone(),
                self.description.clone(),
                status,
                self.created,
                self.updated,
            ),
            Err(_) => None,
        }
    }
}

/// Storing a well-formed task whose identifier is not the last one gives a
/// sound record, and that record holds the task again.
pub proof fn lemma_record_of_task(task: TaskView)
    requires
        task.wf(),
        task.id < u64::MAX,
    ensures
        RecordView::of_task(task).sound(),
        RecordView::of_task(task).task() == task,
{
    crate::status::lemma_parse_word(task.status);
}

} // verus!
