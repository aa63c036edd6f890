//! A single task: what it is, and the changes it admits.

use vstd::prelude::*;
use crate::status::TaskStatus;
use crate::timestamp::{lemma_later_of, lemma_order_transitive, Timestamp};

verus! {

/// What a task is, as a mathematical value.
pub struct TaskView {
    pub id: u64,
    pub name: Seq<char>,
    pub description: Seq<char>,
    pub status: TaskStatus,
    pub created: Timestamp,
    pub updated: Timestamp,
}

impl TaskView {
    /// A task was never changed before it was made.
    pub open spec fn wf(self) -> bool {
        self.updated.at_or_after(self.created)
    }

    /// The task that is made at time `at`: to do, and not yet changed.
    pub open spec fn fresh(id: u64, name: Seq<char>, description: Seq<char>, at: Timestamp) -> TaskView {
        TaskView { id, name, description, status: TaskStatus::Todo, created: at, updated: at }
    }

    /// The time of a change made when the clock reads `at`. The clock may have
    /// been set back since the last change; the time of change never goes back.
    pub open spec fn touched(self, at: Timestamp) -> Timestamp {
        self.updated.later_of(at)
    }

    /// The task as it is after its name was changed at time `at`.
    pub open spec fn renamed(self, name: Seq<char>, at: Timestamp) -> TaskView {
        TaskView { name, updated: self.touched(at), ..self }
    }

    /// The task as it is after its description was changed at time `at`.
    pub open spec fn described(self, description: Seq<char>, at: Timestamp) -> TaskView {
        TaskView { description, updated: self.touched(at), ..self }
    }

    /// The task as it is after its status was set at time `at`.
    pub open spec fn marked(self, status: TaskStatus, at: Timestamp) -> TaskView {
        TaskView { status, updated: self.touched(at), ..self }
    }

    /// The task as it is after the texts that are given were put in at time `at`;
    /// unchanged where none is given.
    pub open spec fn revised(
        self,
        name: Option<Seq<char>>,
        description: Option<Seq<char>>,
        at: Timestamp,
    ) -> TaskView {
        let first = match name {
            Some(n) => self.renamed(n, at),
            None => self,
        };
        match description {
            Some(d) => first.described(d, at),
            None => first,
        }
    }

    /// The task as it is after a change that left everything but the time of change
    /// as the three arguments say.
    pub open spec fn changed_to(
        self,
        name: Seq<char>,
        description: Seq<char>,
        status: TaskStatus,
        updated: Timestamp,
    ) -> TaskView {
        TaskView { name, description, status, updated, ..self }
    }
}

/// Every change moves the time of change to a time that is not earlier than
/// it was and not earlier than the time of creation, and leaves the identifier
/// and the time of creation as they were.
pub proof fn lemma_change_moves_time_forward(
    task: TaskView,
    name: Seq<char>,
    description: Seq<char>,
    status: TaskStatus,
    at: Timestamp,
)
    requires
        task.wf(),
    ensures
        task.touched(at).at_or_after(task.updated),
        task.touched(at).at_or_after(task.created),
        task.touched(at).at_or_after(at),
        task.renamed(name, at).updated == task.touched(at),
        task.described(description, at).updated == task.touched(at),
        task.marked(status, at).updated == task.touched(at),
        task.renamed(name, at).wf(),
        task.described(description, at).wf(),
        task.marked(status, at).wf(),
        task.renamed(name, at).id == task.id && task.renamed(name, at).created == task.created,
        task.described(description, at).id == task.id && task.described(description, at).created
            == task.created,
        task.marked(status, at).id == task.id && task.marked(status, at).created == task.created,
{
    lemma_later_of(task.updated, at);
    lemma_order_transitive(task.touched(at), task.updated, task.created);
}

/// Putting in texts, whichever are given, moves the time of change to a time
/// that is not earlier than it was and not earlier than the time of creation.
pub proof fn lemma_revised_moves_time_forward(
    task: TaskView,
    name: Option<Seq<char>>,
    description: Option<Seq<char>>,
    at: Timestamp,
)
    requires
        task.wf(),
    ensures
        task.revised(name, description, at).updated.at_or_after(task.updated),
        task.revised(name, description, at).updated.at_or_after(task.created),
        task.revised(name, description, at).wf(),
        task.revised(name, description, at).id == task.id,
        task.revised(name, description, at).created == task.created,
        task.revised(name, description, at).status == task.status,
        name is None && description is None ==> task.revised(name, description, at) == task,
        name is Some || description is Some ==> task.revised(name, description, at).updated
            == task.touched(at),
{
    lemma_change_moves_time_forward(task, task.name, task.description, task.status, at);
    lemma_later_of(task.touched(at), at);
}

/// A task. Its identifier and time of creation never change; every change to
/// one of the other fields moves the time of change forward.
#[derive(Debug)]
pub struct Task {
    id: u64,
    name: String,
    description: String,
    status: TaskStatus,
    created: Timestamp,
    updated: Timestamp,
}

impl View for Task {
    type V = TaskView;

    closed spec fn view(&self) -> TaskView {
        TaskView {
            id: self.id,
            name: self.name@,
            description: self.description@,
            status: self.status,
            created: self.created,
            updated: self.updated,
        }
    }
}

impl Clone for Task {
    fn clone(&self) -> (r: Self)
        ensures
            r@ == self@,
    {
        proof {
            use_type_invariant(self);
        }
        Task {
            id: self.id,
            name: self.name.clone(),
            description: self.description.clone(),
            status: self.status,
            created: self.created,
            updated: self.updated,
        }
    }
}

impl Task {
    #[verifier::type_invariant]
    spec fn inv(self) -> bool {
        self.updated.at_or_after(self.created)
    }

    /// Makes a task at the time the clock reads now.
    pub fn new(id: u64, name: String, description: String) -> (r: Self)
        ensures
            r@ == TaskView::fresh(id, name@, description@, r@.created),
    {
        let at = crate::timestamp::now();
        Task::new_at(id, name, description, at)
    }

    /// Makes a task at time `at`.
    pub fn new_at(id: u64, name: String, description: String, at: Timestamp) -> (r: Self)
        ensures
            r@ == TaskView::fresh(id, name@, description@, at),
    {
        Task { id, name, description, status: TaskStatus::Todo, created: at, updated: at }
    }

    /// Puts a task together from stored fields; `None` where the time of change
    /// lies before the time of creation.
    pub fn restore(
        id: u64,
        name: String,
        description: String,
        status: TaskStatus,
        created: Timestamp,
        updated: Timestamp,
    ) -> (r: Option<Self>)
        ensures
            match r {
                Some(task) => updated.at_or_after(created) && task@ == (TaskView {
                    id,
                    name: name@,
                    description: description@,
                    status,
                    created,
                    updated,
                }),
                None => !updated.at_or_after(created),
            },
    {
        if updated.is_at_or_after(&created) {
            Some(Task { id, name, description, status, created, updated })
        } else {
            None
        }
    }

    pub fn id(&self) -> (r: u64)
        ensures
            r == self@.id,
    {
        self.id
    }

    pub fn name(&self) -> (r: &str)
        ensures
            r@ == self@.name,
    {
        self.name.as_str()
    }

    pub fn description(&self) -> (r: &str)
        ensures
            r@ == self@.description,
    {
        self.description.as_str()
    }

    pub fn status(&self) -> (r: &TaskStatus)
        ensures
            *r == self@.status,
    {
        &self.status
    }

    pub fn created(&self) -> (r: &Timestamp)
        ensures
            *r == self@.created,
            self@.wf(),
    {
        proof {
            use_type_invariant(self);
        }
        &self.created
    }

    pub fn updated(&self) -> (r: &Timestamp)
        ensures
            *r == self@.updated,
            self@.wf(),
    {
        proof {
            use_type_invariant(self);
        }
        &self.updated
    }

    /// Changes the name, at the time the clock reads now.
    pub fn set_name(&mut self, name: String)
        ensures
            final(self)@ == old(self)@.changed_to(
                name@,
                old(self)@.description,
                old(self)@.status,
                final(self)@.updated,
            ),
            final(self)@.updated.at_or_after(old(self)@.updated),
            final(self)@.wf(),
    {
        let at = crate::timestamp::now();
        self.set_name_at(name, at);
    }

    /// Changes the name when the clock reads `at`.
    pub fn set_name_at(&mut self, name: String, at: Timestamp)
        ensures
            final(self)@ == old(self)@.renamed(name@, at),
            final(self)@.wf(),
    {
        proof {
            use_type_invariant(&*self);
        }
        self.name = name;
        self.updated = self.updated.latest(at);
    }

    /// Changes the description, at the time the clock reads now.
    pub fn set_description(&mut self, description: String)
        ensures
            final(self)@ == old(self)@.changed_to(
                old(self)@.name,
                description@,
                old(self)@.status,
                final(self)@.updated,
            ),
            final(self)@.updated.at_or_after(old(self)@.updated),
            final(self)@.wf(),
    {
        let at = crate::timestamp::now();
        self.set_description_at(description, at);
    }

    /// Changes the description when the clock reads `at`.
    pub fn set_description_at(&mut self, description: String, at: Timestamp)
        ensures
            final(self)@ == old(self)@.described(description@, at),
            final(self)@.wf(),
    {
        proof {
            use_type_invariant(&*self);
        }
        self.description = description;
        self.updated = self.updated.latest(at);
    }

    /// Sets the status, at the time the clock reads now.
    pub fn set_status(&mut self, status: TaskStatus)
        ensures
            final(self)@ == old(self)@.changed_to(
                old(self)@.name,
                old(self)@.description,
                status,
                final(self)@.updated,
            ),
            final(self)@.updated.at_or_after(old(self)@.updated),
            final(self)@.wf(),
    {
        let at = crate::timestamp::now();
        self.set_status_at(status, at);
    }

    /// Sets the status when the clock reads `at`.
    pub fn set_status_at(&mut self, status: TaskStatus, at: Timestamp)
        ensures
            final(self)@ == old(self)@.marked(status, at),
            final(self)@.wf(),
    {
        proof {
            use_type_invariant(&*self);
        }
        self.status = status;
        self.updated = self.updated.latest(at);
    }
}

} // verus!
