//! The store: tasks in the order they came, and the next identifier to hand out.

use vstd::prelude::*;
use crate::error::TaskError;
use crate::model::{lemma_position, StoreView};
use crate::record::{record_views, RecordView, TaskRecord};
use crate::status::TaskStatus;
use crate::task::{Task, TaskView};
use crate::timestamp::Timestamp;

verus! {

/// The text behind an optional reference.
pub open spec fn text_of(text: Option<&String>) -> Option<Seq<char>> {
    match text {
        Some(s) => Some(s@),
        None => None,
    }
}

/// The status behind an optional reference.
pub open spec fn status_of(status: Option<&TaskStatus>) -> Option<TaskStatus> {
    match status {
        Some(s) => Some(*s),
        None => None,
    }
}

/// What a list of references to tasks shows.
pub open spec fn views_of(tasks: Seq<&Task>) -> Seq<TaskView> {
    tasks.map_values(|t: &Task| t@)
}

/// The tasks of a session, in the order in which they were added or loaded.
#[derive(Debug)]
pub struct TaskVec {
    tasks: Vec<Task>,
    next_id: u64,
}

impl View for TaskVec {
    type V = StoreView;

    closed spec fn view(&self) -> StoreView {
        StoreView { tasks: self.tasks@.map_values(|t: Task| t@), next_id: self.next_id }
    }
}

impl TaskVec {
    #[verifier::type_invariant]
    spec fn inv(self) -> bool {
        self@.wf()
    }

    /// The store without tasks.
    pub fn new() -> (r: Self)
        ensures
            r@ == StoreView::empty(),
    {
        let r = TaskVec { tasks: Vec::new(), next_id: 0 };
        assert(r@.tasks =~= Seq::empty());
        r
    }

    /// The store that a list of records gives. Records that are not sound, and
    /// records whose identifier came before, are left out; the rest of the
    /// list is still read.
    pub fn from(records: Vec<TaskRecord>) -> (r: Self)
        ensures
            r@ == StoreView::loaded(record_views(records@)),
            r@.wf(),
    {
        let mut store = TaskVec::new();
        let mut i: usize = 0;
        proof {
            assert(record_views(records@).take(0) =~= Seq::empty());
        }
        while i < records.len()
            invariant
                0 <= i <= records.len(),
                store@.wf(),
                store@ == StoreView::loaded(record_views(records@).take(i as int)),
            decreases records.len() - i,
        {
            proof {
                let views = record_views(records@);
                assert(views.take(i + 1).drop_last() =~= views.take(i as int));
                assert(views.take(i + 1).last() == records@[i as int]@);
            }
            match records[i].task() {
                Some(task) => {
                    if store.find(task.id()).is_none() {
                        store.take_in(task);
                    }
                },
                None => {},
            }
            i += 1;
        }
        proof {
            assert(record_views(records@).take(i as int) =~= record_views(records@));
        }
        store
    }

    /// Puts a task at the end as it is.
    fn take_in(&mut self, task: Task)
        requires
            task@.wf(),
            task@.id < u64::MAX,
            !old(self)@.has(task@.id),
        ensures
            final(self)@ == old(self)@.taken_in(task@),
            final(self)@.wf(),
    {
        proof {
            use_type_invariant(&*self);
        }
        let ghost before = self@;
        let id = task.id();
        let mut tasks: Vec<Task> = Vec::new();
        std::mem::swap(&mut tasks, &mut self.tasks);
        tasks.push(task);
        if id >= self.next_id {
            self.next_id = id + 1;
        }
        proof {
            let after = before.taken_in(task@);
            assert(tasks@.map_values(|t: Task| t@) =~= after.tasks);
            assert(after.wf());
        }
        self.tasks = tasks;
    }

    /// The records that store the tasks, in the order of the store.
    pub fn to(&self) -> (r: Vec<TaskRecord>)
        ensures
            record_views(r@) == self@.records(),
    {
        let mut records: Vec<TaskRecord> = Vec::new();
        let mut i: usize = 0;
        while i < self.tasks.len()
            invariant
                0 <= i <= self.tasks.len(),
                records@.len() == i,
                forall|k: int| 0 <= k < i ==> (#[trigger] records@[k])@ == RecordView::of_task(self@.tasks[k]),
            decreases self.tasks.len() - i,
        {
            records.push(TaskRecord::of(&self.tasks[i]));
            i += 1;
        }
        proof {
            assert(record_views(records@) =~= self@.records());
        }
        records
    }

    /// The number of tasks.
    pub fn len(&self) -> (r: usize)
        ensures
            r == self@.tasks.len(),
            self@.wf(),
    {
        proof {
            use_type_invariant(self);
        }
        self.tasks.len()
    }

    /// The identifier that the next new task gets.
    pub fn next_id(&self) -> (r: u64)
        ensures
            r == self@.next_id,
            self@.wf(),
    {
        proof {
            use_type_invariant(self);
        }
        self.next_id
    }

    /// Whether the store has no tasks.
    pub fn is_empty(&self) -> (r: bool)
        ensures
            r == (self@.tasks.len() == 0),
    {
        self.tasks.len() == 0
    }

    /// The task with this identifier, if there is one.
    pub fn get(&self, id: u64) -> (r: Option<&Task>)
        ensures
            self@.wf(),
            match r {
                Some(task) => self@.has(id) && task@ == self@.task(id),
                None => !self@.has(id),
            },
    {
        match self.find(id) {
            Some(index) => Some(&self.tasks[index]),
            None => None,
        }
    }

    /// Where the task with this identifier stands.
    fn find(&self, id: u64) -> (r: Option<usize>)
        ensures
            self@.wf(),
            match r {
                Some(i) => self@.has(id) && i == self@.position(id) && 0 <= i < self.tasks.len(),
                None => !self@.has(id),
            },
    {
        proof {
            use_type_invariant(self);
        }
        let mut i: usize = 0;
        while i < self.tasks.len()
            invariant
                self@.wf(),
                0 <= i <= self.tasks.len(),
                forall|k: int| 0 <= k < i ==> (#[trigger] self@.tasks[k]).id != id,
            decreases self.tasks.len() - i,
        {
            if self.tasks[i].id() == id {
                proof {
                    lemma_position(self@, i as int);
                }
                return Some(i);
            }
            i += 1;
        }
        None
    }

    /// Adds a task when the clock reads `at`. The new task is to do and gets
    /// the next identifier; `None`, and nothing changes, once the identifiers
    /// have run out.
    pub fn add_at(&mut self, name: &str, desc: &str, at: Timestamp) -> (r: Option<&Task>)
        ensures
            final(self)@.wf(),
            match r {
                Some(task) => !old(self)@.exhausted()
                    && final(self)@ == old(self)@.added(name@, desc@, at)
                    && task@ == TaskView::fresh(old(self)@.next_id, name@, desc@, at),
                None => old(self)@.exhausted() && final(self)@ == old(self)@,
            },
    {
        proof {
            use_type_invariant(&*self);
        }
        if self.next_id == u64::MAX {
            return None;
        }
        let task = Task::new_at(self.next_id, name.to_owned(), desc.to_owned(), at);
        let ghost before = self@;
        let mut tasks: Vec<Task> = Vec::new();
        std::mem::swap(&mut tasks, &mut self.tasks);
        tasks.push(task);
        self.next_id = self.next_id + 1;
        proof {
            let after = before.added(name@, desc@, at);
            assert(tasks@.map_values(|t: Task| t@) =~= after.tasks);
            assert(after.wf());
        }
        self.tasks = tasks;
        let last = self.tasks.len() - 1;
        Some(&self.tasks[last])
    }

    /// Adds a task at the time the clock reads now.
    pub fn add(&mut self, name: &str, desc: &str) -> (r: Option<&Task>)
        ensures
            final(self)@.wf(),
            match r {
                Some(task) => !old(self)@.exhausted()
                    && final(self)@ == old(self)@.added(name@, desc@, task@.created)
                    && task@ == TaskView::fresh(old(self)@.next_id, name@, desc@, task@.created),
                None => old(self)@.exhausted() && final(self)@ == old(self)@,
            },
    {
        let at = crate::timestamp::now();
        self.add_at(name, desc, at)
    }

    /// Takes the task with this identifier out of the store and hands it over.
    /// The identifier is not handed out again.
    pub fn del(&mut self, id: u64) -> (r: Result<Task, TaskError>)
        ensures
            final(self)@.wf(),
            match r {
                Ok(task) => old(self)@.has(id) && task@ == old(self)@.task(id)
                    && final(self)@ == old(self)@.removed(id),
                Err(e) => e == TaskError::NotFound && !old(self)@.has(id) && final(self)@ == old(self)@,
            },
    {
        let index = match self.find(id) {
            Some(index) => index,
            None => { return Err(TaskError::NotFound); },
        };
        let ghost before = self@;
        let mut tasks: Vec<Task> = Vec::new();
        std::mem::swap(&mut tasks, &mut self.tasks);
        let task = tasks.remove(index);
        proof {
            let after = before.removed(id);
            assert(tasks@.map_values(|t: Task| t@) =~= after.tasks);
            assert(after.wf());
        }
        self.tasks = tasks;
        Ok(task)
    }

    /// Puts in the texts that are given, when the clock reads `at`, and hands
    /// out the task as it then stands.
    pub fn update_at(&mut self, id: u64, name: Option<&String>, desc: Option<&String>, at: Timestamp) -> (r:
        Result<&Task, TaskError>)
        ensures
            final(self)@.wf(),
            match r {
                Ok(task) => old(self)@.has(id)
                    && task@ == old(self)@.task(id).revised(text_of(name), text_of(desc), at)
                    && task@.wf()
                    && final(self)@ == old(self)@.replaced(id, task@),
                Err(e) => e == TaskError::NotFound && !old(self)@.has(id) && final(self)@ == old(self)@,
            },
    {
        let index = match self.find(id) {
            Some(index) => index,
            None => { return Err(TaskError::NotFound); },
        };
        let ghost before = self@;
        let mut tasks: Vec<Task> = Vec::new();
        std::mem::swap(&mut tasks, &mut self.tasks);
        if let Some(name) = name {
            tasks[index].set_name_at(name.clone(), at);
        }
        if let Some(desc) = desc {
            tasks[index].set_description_at(desc.clone(), at);
        }
        proof {
            let after = before.replaced(id, tasks@[index as int]@);
            assert(tasks@.map_values(|t: Task| t@) =~= after.tasks);
            assert(after.wf());
        }
        self.tasks = tasks;
        Ok(&self.tasks[index])
    }

    /// Puts in the texts that are given, at the time the clock reads now.
    pub fn update(&mut self, id: u64, name: Option<&String>, desc: Option<&String>) -> (r: Result<
        &Task,
        TaskError,
    >)
        ensures
            final(self)@.wf(),
            match r {
                Ok(task) => old(self)@.has(id)
                    && task@ == old(self)@.task(id).changed_to(
                        match name { Some(n) => n@, None => old(self)@.task(id).name },
                        match desc { Some(d) => d@, None => old(self)@.task(id).description },
                        old(self)@.task(id).status,
                        task@.updated,
                    )
                    && task@.updated.at_or_after(old(self)@.task(id).updated)
                    && (name is None && desc is None ==> task@ == old(self)@.task(id))
                    && task@.wf()
                    && final(self)@ == old(self)@.replaced(id, task@),
                Err(e) => e == TaskError::NotFound && !old(self)@.has(id) && final(self)@ == old(self)@,
            },
    {
        let at = crate::timestamp::now();
        self.update_at(id, name, desc, at)
    }

    /// Sets the status of a task when the clock reads `at`, and hands out the
    /// task as it then stands. Any status may follow any other.
    pub fn mark_at(&mut self, id: u64, status: &TaskStatus, at: Timestamp) -> (r: Result<&Task, TaskError>)
        ensures
            final(self)@.wf(),
            match r {
                Ok(task) => old(self)@.has(id) && task@ == old(self)@.task(id).marked(*status, at)
                    && task@.wf()
                    && final(self)@ == old(self)@.replaced(id, task@),
                Err(e) => e == TaskError::NotFound && !old(self)@.has(id) && final(self)@ == old(self)@,
            },
    {
        let index = match self.find(id) {
            Some(index) => index,
            None => { return Err(TaskError::NotFound); },
        };
        let ghost before = self@;
        let mut tasks: Vec<Task> = Vec::new();
        std::mem::swap(&mut tasks, &mut self.tasks);
        tasks[index].set_status_at(*status, at);
        proof {
            let after = before.replaced(id, tasks@[index as int]@);
            assert(tasks@.map_values(|t: Task| t@) =~= after.tasks);
            assert(after.wf());
        }
        self.tasks = tasks;
        Ok(&self.tasks[index])
    }

    /// Sets the status of a task, at the time the clock reads now.
    pub fn mark(&mut self, id: u64, status: &TaskStatus) -> (r: Result<&Task, TaskError>)
        ensures
            final(self)@.wf(),
            match r {
                Ok(task) => old(self)@.has(id)
                    && task@ == old(self)@.task(id).changed_to(
                        old(self)@.task(id).name,
                        old(self)@.task(id).description,
                        *status,
                        task@.updated,
                    )
                    && task@.updated.at_or_after(old(self)@.task(id).updated)
                    && task@.wf()
                    && final(self)@ == old(self)@.replaced(id, task@),
                Err(e) => e == TaskError::NotFound && !old(self)@.has(id) && final(self)@ == old(self)@,
            },
    {
        let at = crate::timestamp::now();
        self.mark_at(id, status, at)
    }

    /// The tasks with the status that was chosen, in the order of the store; all
    /// of them where none was chosen.
    pub fn list_by_status(&self, status: Option<&TaskStatus>) -> (r: Vec<&Task>)
        ensures
            views_of(r@) == self@.listed(status_of(status)),
    {
        let mut found: Vec<&Task> = Vec::new();
        let mut i: usize = 0;
        proof {
            reveal(Seq::filter);
            assert(self@.tasks.take(0) =~= Seq::empty());
            assert(views_of(found@) =~= Seq::empty());
        }
        while i < self.tasks.len()
            invariant
                0 <= i <= self.tasks.len(),
                views_of(found@) == (StoreView { tasks: self@.tasks.take(i as int), ..self@ }).listed(
                    status_of(status),
                ),
            decreases self.tasks.len() - i,
        {
            let task = &self.tasks[i];
            let keep = match status {
                Some(s) => *task.status() == *s,
                None => true,
            };
            proof {
                reveal(Seq::filter);
                assert(self@.tasks.take(i + 1).drop_last() =~= self@.tasks.take(i as int));
                assert(self@.tasks.take(i + 1).last() == task@);
                if keep {
                    assert(views_of(found@.push(task)) =~= views_of(found@).push(task@));
                }
                if status is None {
                    assert(self@.tasks.take(i + 1) =~= self@.tasks.take(i as int).push(task@));
                }
            }
            if keep {
                found.push(task);
            }
            i += 1;
        }
        proof {
            assert(self@.tasks.take(i as int) =~= self@.tasks);
        }
        found
    }
}

} // verus!
