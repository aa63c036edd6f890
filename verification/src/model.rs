//! The store as a mathematical value: what each operation makes of it, and
//! what holds of the operations together.

use vstd::prelude::*;
use crate::record::RecordView;
use crate::status::TaskStatus;
use crate::task::TaskView;
use crate::timestamp::Timestamp;

verus! {

/// What is given when a task is added: its texts and the time.
pub struct NewTask {
    pub name: Seq<char>,
    pub description: Seq<char>,
    pub at: Timestamp,
}

/// What a store is, as a mathematical value.
pub struct StoreView {
    pub tasks: Seq<TaskView>,
    pub next_id: u64,
}

impl StoreView {
    /// Every task is well formed, no two tasks share an identifier, and the
    /// next identifier lies above all that are in use.
    pub open spec fn wf(self) -> bool {
        &&& forall|i: int| 0 <= i < self.tasks.len() ==> (#[trigger] self.tasks[i]).wf()
        &&& forall|i: int| 0 <= i < self.tasks.len() ==> (#[trigger] self.tasks[i]).id < self.next_id
        &&& forall|i: int, j: int|
            0 <= i < j < self.tasks.len() ==> (#[trigger] self.tasks[i]).id != (#[trigger] self.tasks[j]).id
    }

    /// The store without tasks, which hands out 0 first.
    pub open spec fn empty() -> StoreView {
        StoreView { tasks: Seq::empty(), next_id: 0 }
    }

    /// Some task has this identifier.
    pub open spec fn has(self, id: u64) -> bool {
        exists|i: int| 0 <= i < self.tasks.len() && (#[trigger] self.tasks[i]).id == id
    }

    /// Where the task with this identifier stands, if there is one.
    pub open spec fn position(self, id: u64) -> int {
        choose|i: int| 0 <= i < self.tasks.len() && (#[trigger] self.tasks[i]).id == id
    }

    /// The task with this identifier, if there is one.
    pub open spec fn task(self, id: u64) -> TaskView {
        self.tasks[self.position(id)]
    }

    /// No identifier is left to hand out.
    pub open spec fn exhausted(self) -> bool {
        self.next_id == u64::MAX
    }

    /// This store after a task was added at time `at`.
    pub open spec fn added(self, name: Seq<char>, description: Seq<char>, at: Timestamp) -> StoreView {
        StoreView {
            tasks: self.tasks.push(TaskView::fresh(self.next_id, name, description, at)),
            next_id: (self.next_id + 1) as u64,
        }
    }

    /// This store after one task was added for each entry of `entries`, in
    /// their order.
    pub open spec fn added_all(self, entries: Seq<NewTask>) -> StoreView
        decreases entries.len(),
    {
        if entries.len() == 0 {
            self
        } else {
            let last = entries.last();
            self.added_all(entries.drop_last()).added(last.name, last.description, last.at)
        }
    }

    /// This store without the task that has this identifier.
    pub open spec fn removed(self, id: u64) -> StoreView {
        StoreView { tasks: self.tasks.remove(self.position(id)), ..self }
    }

    /// This store with `task` in the place of the task that has this identifier.
    pub open spec fn replaced(self, id: u64, task: TaskView) -> StoreView {
        StoreView { tasks: self.tasks.update(self.position(id), task), ..self }
    }

    /// The store takes a record in: the record is sound and its identifier is
    /// not in use.
    pub open spec fn takes(self, record: RecordView) -> bool {
        record.sound() && !self.has(record.id)
    }

    /// This store after `task` was put at its end as it is. The next identifier
    /// rises above the task's own where it was not above it.
    pub open spec fn taken_in(self, task: TaskView) -> StoreView {
        StoreView {
            tasks: self.tasks.push(task),
            next_id: if task.id >= self.next_id {
                (task.id + 1) as u64
            } else {
                self.next_id
            },
        }
    }

    /// The store that a list of records gives: the tasks of the records that
    /// it takes in, in their order. A record that is not sound is left out, and
    /// so is one whose identifier an earlier record has brought. The next
    /// identifier is one above the largest that was brought, and 0 where none was.
    pub open spec fn loaded(records: Seq<RecordView>) -> StoreView
        decreases records.len(),
    {
        if records.len() == 0 {
            StoreView::empty()
        } else {
            let before = StoreView::loaded(records.drop_last());
            if before.takes(records.last()) {
                before.taken_in(records.last().task())
            } else {
                before
            }
        }
    }

    /// The records that store the tasks, in the order of the store.
    pub open spec fn records(self) -> Seq<RecordView> {
        self.tasks.map_values(|t: TaskView| RecordView::of_task(t))
    }

    /// The tasks with the status that was chosen, in the order of the store; all
    /// of them where none was chosen.
    pub open spec fn listed(self, status: Option<TaskStatus>) -> Seq<TaskView> {
        match status {
            Some(s) => self.tasks.filter(has_status(s)),
            None => self.tasks,
        }
    }
}

/// `first` stands in `tasks` before `second` does.
pub open spec fn stands_before(tasks: Seq<TaskView>, first: TaskView, second: TaskView) -> bool {
    exists|p: int, q: int|
        0 <= p < q < tasks.len() && #[trigger] tasks[p] == first && #[trigger] tasks[q] == second
}

/// The test that a task has the given status.
pub open spec fn has_status(status: TaskStatus) -> spec_fn(TaskView) -> bool {
    |t: TaskView| t.status == status
}

/// In a well-formed store an identifier names at most one place.
pub proof fn lemma_position(s: StoreView, i: int)
    requires
        s.wf(),
        0 <= i < s.tasks.len(),
    ensures
        s.has(s.tasks[i].id),
        s.position(s.tasks[i].id) == i,
{
    let id = s.tasks[i].id;
    let p = s.position(id);
    assert(0 <= p < s.tasks.len() && s.tasks[p].id == id);
    if p < i {
        assert(s.tasks[p].id != s.tasks[i].id);
    } else if i < p {
        assert(s.tasks[i].id != s.tasks[p].id);
    }
}

/// Adding keeps a store well formed, keeps the tasks that were there, and
/// gives the new task the identifier that was next.
pub proof fn lemma_added(s: StoreView, name: Seq<char>, description: Seq<char>, at: Timestamp)
    requires
        s.wf(),
        !s.exhausted(),
    ensures
        s.added(name, description, at).wf(),
        s.added(name, description, at).next_id == s.next_id + 1,
        s.added(name, description, at).tasks.len() == s.tasks.len() + 1,
        s.added(name, description, at).tasks.last().id == s.next_id,
        !s.has(s.next_id),
        forall|i: int| 0 <= i < s.tasks.len() ==> s.added(name, description, at).tasks[i] == s.tasks[i],
{
    if s.has(s.next_id) {
        let i = choose|i: int| 0 <= i < s.tasks.len() && (#[trigger] s.tasks[i]).id == s.next_id;
        assert(s.tasks[i].id < s.next_id);
    }
}

/// However many tasks are added one after another, each gets an identifier of
/// its own: the identifiers count up from the one that was next, so each is
/// larger than all that were handed out before it, and none is in use already.
pub proof fn lemma_added_ids_increase(s: StoreView, entries: Seq<NewTask>)
    requires
        s.wf(),
        s.next_id + entries.len() <= u64::MAX,
    ensures
        s.added_all(entries).wf(),
        s.added_all(entries).next_id == s.next_id + entries.len(),
        s.added_all(entries).tasks.len() == s.tasks.len() + entries.len(),
        forall|i: int| 0 <= i < s.tasks.len() ==> s.added_all(entries).tasks[i] == s.tasks[i],
        forall|k: int|
            0 <= k < entries.len() ==> (#[trigger] s.added_all(entries).tasks[s.tasks.len() + k])
                == TaskView::fresh(
                (s.next_id + k) as u64,
                entries[k].name,
                entries[k].description,
                entries[k].at,
            ),
        forall|j: int, k: int|
            0 <= j < k < entries.len() ==> (#[trigger] s.added_all(entries).tasks[s.tasks.len() + j]).id
                < (#[trigger] s.added_all(entries).tasks[s.tasks.len() + k]).id,
        forall|i: int, k: int|
            0 <= i < s.tasks.len() && 0 <= k < entries.len() ==> (#[trigger] s.tasks[i]).id
                < (#[trigger] s.added_all(entries).tasks[s.tasks.len() + k]).id,
    decreases entries.len(),
{
    if entries.len() > 0 {
        let front = entries.drop_last();
        let last = entries.last();
        lemma_added_ids_increase(s, front);
        let before = s.added_all(front);
        lemma_added(before, last.name, last.description, last.at);
        let after = s.added_all(entries);
        assert(after == before.added(last.name, last.description, last.at));
        assert forall|k: int| 0 <= k < entries.len() implies (#[trigger] after.tasks[s.tasks.len() + k])
            == TaskView::fresh(
            (s.next_id + k) as u64,
            entries[k].name,
            entries[k].description,
            entries[k].at,
        ) by {
            if k < front.len() {
                assert(after.tasks[s.tasks.len() + k] == before.tasks[s.tasks.len() + k]);
                assert(front[k] == entries[k]);
            }
        }
    }
}

/// Removing a task keeps a store well formed and leaves the next identifier
/// as it was; the identifier that was removed is then in use no more.
pub proof fn lemma_removed(s: StoreView, id: u64)
    requires
        s.wf(),
        s.has(id),
    ensures
        s.removed(id).wf(),
        s.removed(id).next_id == s.next_id,
        s.removed(id).tasks.len() == s.tasks.len() - 1,
        !s.removed(id).has(id),
        id < s.next_id,
{
    let p = s.position(id);
    let r = s.removed(id);
    assert(s.tasks[p].id == id);
    assert forall|i: int| 0 <= i < r.tasks.len() implies (#[trigger] r.tasks[i]).id != id by {
        if i < p {
            assert(r.tasks[i] == s.tasks[i]);
            assert(s.tasks[i].id != s.tasks[p].id);
        } else {
            assert(r.tasks[i] == s.tasks[i + 1]);
            assert(s.tasks[p].id != s.tasks[i + 1].id);
        }
    }
    assert forall|i: int, j: int| 0 <= i < j < r.tasks.len() implies
        (#[trigger] r.tasks[i]).id != (#[trigger] r.tasks[j]).id by {
        let a = if i < p { i } else { i + 1 };
        let b = if j < p { j } else { j + 1 };
        assert(r.tasks[i] == s.tasks[a]);
        assert(r.tasks[j] == s.tasks[b]);
        assert(s.tasks[a].id != s.tasks[b].id);
    }
    assert forall|i: int| 0 <= i < r.tasks.len() implies
        (#[trigger] r.tasks[i]).wf() && r.tasks[i].id < r.next_id by {
        let a = if i < p { i } else { i + 1 };
        assert(r.tasks[i] == s.tasks[a]);
    }
}

/// An identifier that was removed is not handed out again, however many
/// tasks are added afterwards.
pub proof fn lemma_removed_id_not_reused(s: StoreView, id: u64, entries: Seq<NewTask>)
    requires
        s.wf(),
        s.has(id),
        s.next_id + entries.len() <= u64::MAX,
    ensures
        !s.removed(id).added_all(entries).has(id),
        forall|k: int|
            0 <= k < entries.len() ==> (#[trigger] s.removed(id).added_all(entries).tasks[s.tasks.len() - 1
                + k]).id > id,
{
    lemma_removed(s, id);
    let r = s.removed(id);
    lemma_added_ids_increase(r, entries);
    let after = r.added_all(entries);
    if after.has(id) {
        let i = choose|i: int| 0 <= i < after.tasks.len() && (#[trigger] after.tasks[i]).id == id;
        if i < r.tasks.len() {
            assert(after.tasks[i] == r.tasks[i]);
            assert(r.has(id));
        } else {
            let k = i - r.tasks.len();
            assert(after.tasks[r.tasks.len() + k].id == r.next_id + k);
        }
    }
}

/// Putting another task in the place of one keeps a store well formed, where
/// the new task is well formed and has the identifier of the old.
pub proof fn lemma_replaced(s: StoreView, id: u64, task: TaskView)
    requires
        s.wf(),
        s.has(id),
        task.wf(),
        task.id == id,
    ensures
        s.replaced(id, task).wf(),
        s.replaced(id, task).has(id),
        s.replaced(id, task).task(id) == task,
        s.replaced(id, task).tasks.len() == s.tasks.len(),
        forall|i: int|
            0 <= i < s.tasks.len() && i != s.position(id) ==> s.replaced(id, task).tasks[i] == s.tasks[i],
{
    let p = s.position(id);
    let r = s.replaced(id, task);
    assert(s.tasks[p].id == id);
    assert forall|i: int, j: int| 0 <= i < j < r.tasks.len() implies
        (#[trigger] r.tasks[i]).id != (#[trigger] r.tasks[j]).id by {
        assert(r.tasks[i].id == s.tasks[i].id);
        assert(r.tasks[j].id == s.tasks[j].id);
    }
    assert forall|i: int| 0 <= i < r.tasks.len() implies
        (#[trigger] r.tasks[i]).wf() && r.tasks[i].id < r.next_id by {
        assert(r.tasks[i].id == s.tasks[i].id);
        if i != p {
            assert(r.tasks[i] == s.tasks[i]);
        }
    }
    assert(r.tasks[p].id == id);
    lemma_position(r, p);
}

/// Taking a task in keeps a store well formed, where the task is well formed
/// and its identifier is neither in use nor the last one.
pub proof fn lemma_taken_in(s: StoreView, task: TaskView)
    requires
        s.wf(),
        task.wf(),
        task.id < u64::MAX,
        !s.has(task.id),
    ensures
        s.taken_in(task).wf(),
        s.taken_in(task).next_id >= s.next_id,
        s.taken_in(task).next_id > task.id,
        s.taken_in(task).next_id == s.next_id || s.taken_in(task).next_id == task.id + 1,
{
    let r = s.taken_in(task);
    assert forall|i: int, j: int| 0 <= i < j < r.tasks.len() implies
        (#[trigger] r.tasks[i]).id != (#[trigger] r.tasks[j]).id by {
        if j == s.tasks.len() {
            assert(r.tasks[i] == s.tasks[i]);
            assert(s.tasks[i].id != task.id);
        } else {
            assert(r.tasks[i] == s.tasks[i]);
            assert(r.tasks[j] == s.tasks[j]);
        }
    }
    assert forall|i: int| 0 <= i < r.tasks.len() implies
        (#[trigger] r.tasks[i]).wf() && r.tasks[i].id < r.next_id by {
        if i < s.tasks.len() {
            assert(r.tasks[i] == s.tasks[i]);
        }
    }
}

/// What is loaded is a well-formed store. Its next identifier is 0 where no
/// task was loaded, and else one above the largest identifier among them.
pub proof fn lemma_loaded(records: Seq<RecordView>)
    ensures
        StoreView::loaded(records).wf(),
        StoreView::loaded(records).tasks.len() <= records.len(),
        StoreView::loaded(records).tasks.len() == 0 ==> StoreView::loaded(records).next_id == 0,
        StoreView::loaded(records).tasks.len() > 0 ==> exists|i: int|
            0 <= i < StoreView::loaded(records).tasks.len() && (#[trigger] StoreView::loaded(
                records,
            ).tasks[i]).id + 1 == StoreView::loaded(records).next_id,
    decreases records.len(),
{
    if records.len() > 0 {
        let before = StoreView::loaded(records.drop_last());
        let last = records.last();
        lemma_loaded(records.drop_last());
        if before.takes(last) {
            let after = before.taken_in(last.task());
            lemma_taken_in(before, last.task());
            if after.next_id == before.next_id {
                assert(before.tasks.len() > 0);
                let i = choose|i: int|
                    0 <= i < before.tasks.len() && (#[trigger] before.tasks[i]).id + 1 == before.next_id;
                assert(after.tasks[i] == before.tasks[i]);
            } else {
                assert(after.tasks[before.tasks.len() as int].id + 1 == after.next_id);
            }
        }
    }
}

/// Every task that is loaded is the task of a sound record of the list.
pub proof fn lemma_loaded_from_records(records: Seq<RecordView>, i: int)
    requires
        0 <= i < StoreView::loaded(records).tasks.len(),
    ensures
        exists|k: int|
            0 <= k < records.len() && (#[trigger] records[k]).sound() && records[k].task()
                == StoreView::loaded(records).tasks[i],
    decreases records.len(),
{
    if records.len() > 0 {
        let front = records.drop_last();
        let before = StoreView::loaded(front);
        if i < before.tasks.len() {
            lemma_loaded_from_records(front, i);
            let k = choose|k: int|
                0 <= k < front.len() && (#[trigger] front[k]).sound() && front[k].task() == before.tasks[i];
            assert(records[k] == front[k]);
            if before.takes(records.last()) {
                assert(StoreView::loaded(records).tasks[i] == before.tasks[i]);
            }
        } else {
            assert(before.takes(records.last()));
            assert(records[records.len() - 1].sound());
        }
    }
}

/// Where every record of a list is sound and no two share an identifier,
/// every one of them is loaded, in the order of the list: the tasks that
/// come out are those that the records hold, whatever that order is.
pub proof fn lemma_loaded_keeps_sound_records(records: Seq<RecordView>)
    requires
        forall|i: int| 0 <= i < records.len() ==> (#[trigger] records[i]).sound(),
        forall|i: int, j: int|
            0 <= i < j < records.len() ==> (#[trigger] records[i]).id != (#[trigger] records[j]).id,
    ensures
        StoreView::loaded(records).tasks == records.map_values(|r: RecordView| r.task()),
    decreases records.len(),
{
    let tasks = records.map_values(|r: RecordView| r.task());
    if records.len() == 0 {
        assert(StoreView::loaded(records).tasks =~= tasks);
    } else {
        let front = records.drop_last();
        let last = records.last();
        let before = StoreView::loaded(front);
        assert forall|i: int| 0 <= i < front.len() implies (#[trigger] front[i]).sound() by {
            assert(front[i] == records[i]);
        }
        assert forall|i: int, j: int| 0 <= i < j < front.len() implies
            (#[trigger] front[i]).id != (#[trigger] front[j]).id by {
            assert(front[i] == records[i]);
            assert(front[j] == records[j]);
        }
        lemma_loaded_keeps_sound_records(front);
        assert(before.tasks == front.map_values(|r: RecordView| r.task()));
        if before.has(last.id) {
            let k = choose|k: int| 0 <= k < before.tasks.len() && (#[trigger] before.tasks[k]).id == last.id;
            assert(before.tasks[k] == front[k].task());
            assert(front[k] == records[k]);
            assert(records[k].id != records[records.len() - 1].id);
        }
        assert(records[records.len() - 1].sound());
        assert(before.takes(last));
        assert(StoreView::loaded(records).tasks =~= tasks);
    }
}

/// Storing a well-formed store and loading what was stored gives the same
/// tasks in the same order, each with its identifier, texts, status and
/// times. The next identifier does not rise; it falls to one above the largest
/// identifier in use where tasks above that were removed.
pub proof fn lemma_store_then_load(s: StoreView)
    requires
        s.wf(),
    ensures
        StoreView::loaded(s.records()).tasks == s.tasks,
        StoreView::loaded(s.records()).next_id <= s.next_id,
        StoreView::loaded(s.records()).wf(),
{
    let records = s.records();
    assert forall|i: int| 0 <= i < records.len() implies (#[trigger] records[i]).sound() && records[i].task()
        == s.tasks[i] by {
        assert(s.tasks[i].wf());
        assert(s.tasks[i].id < s.next_id);
        crate::record::lemma_record_of_task(s.tasks[i]);
    }
    assert forall|i: int, j: int| 0 <= i < j < records.len() implies
        (#[trigger] records[i]).id != (#[trigger] records[j]).id by {
        assert(s.tasks[i].id != s.tasks[j].id);
    }
    lemma_loaded_keeps_sound_records(records);
    assert(records.map_values(|r: RecordView| r.task()) =~= s.tasks);
    lemma_loaded(records);
    let loaded = StoreView::loaded(records);
    if loaded.tasks.len() > 0 {
        let i = choose|i: int| 0 <= i < loaded.tasks.len() && (#[trigger] loaded.tasks[i]).id + 1 == loaded.next_id;
        assert(s.tasks[i].id < s.next_id);
    }
}

/// A record that is not sound changes nothing wherever it stands in the
/// list: what is loaded is what the list without it gives.
pub proof fn lemma_unsound_record_left_out(records: Seq<RecordView>, at: int, bad: RecordView)
    requires
        0 <= at <= records.len(),
        !bad.sound(),
    ensures
        StoreView::loaded(records.insert(at, bad)) == StoreView::loaded(records),
    decreases records.len() - at,
{
    let with = records.insert(at, bad);
    if at == records.len() {
        assert(with.drop_last() =~= records);
        assert(with.last() == bad);
    } else {
        assert(with.drop_last() =~= records.drop_last().insert(at, bad));
        assert(with.last() == records.last());
        lemma_unsound_record_left_out(records.drop_last(), at, bad);
    }
}

/// A record whose status is none of the four words changes nothing wherever
/// it stands in the list: the store that is loaded lacks that record and
/// nothing else.
pub proof fn lemma_unknown_status_left_out(records: Seq<RecordView>, at: int, bad: RecordView)
    requires
        0 <= at <= records.len(),
        TaskStatus::parse(bad.status) is None,
    ensures
        StoreView::loaded(records.insert(at, bad)) == StoreView::loaded(records),
{
    lemma_unsound_record_left_out(records, at, bad);
}

/// Loading a list of sound records with identifiers of their own and storing
/// what was loaded gives the list again.
pub proof fn lemma_load_then_store(records: Seq<RecordView>)
    requires
        forall|i: int| 0 <= i < records.len() ==> (#[trigger] records[i]).sound(),
        forall|i: int, j: int|
            0 <= i < j < records.len() ==> (#[trigger] records[i]).id != (#[trigger] records[j]).id,
    ensures
        StoreView::loaded(records).records() == records,
{
    lemma_loaded_keeps_sound_records(records);
    let stored = StoreView::loaded(records).records();
    assert forall|i: int| 0 <= i < records.len() implies #[trigger] stored[i] == records[i] by {
        assert(records[i].sound());
        crate::status::lemma_word_parse(records[i].status);
    }
    assert(stored =~= records);
}

/// With no status chosen the listing is the whole store, in its order.
pub proof fn lemma_listed_all(s: StoreView)
    ensures
        s.listed(None) == s.tasks,
{
}

/// With a status chosen the listing holds exactly the tasks of that status,
/// in the order of the store: every task listed is a task of the store and has
/// the status, every task of the store that has the status is listed, and of
/// two tasks listed the one listed first stands first in the store.
pub proof fn lemma_listed_by_status(s: StoreView, status: TaskStatus)
    ensures
        s.listed(Some(status)).len() <= s.tasks.len(),
        forall|i: int|
            0 <= i < s.listed(Some(status)).len() ==> (#[trigger] s.listed(Some(status))[i]).status
                == status && s.tasks.contains(s.listed(Some(status))[i]),
        forall|k: int|
            0 <= k < s.tasks.len() && (#[trigger] s.tasks[k]).status == status ==> s.listed(
                Some(status),
            ).contains(s.tasks[k]),
        forall|i: int, j: int|
            0 <= i < j < s.listed(Some(status)).len() ==> stands_before(
                s.tasks,
                #[trigger] s.listed(Some(status))[i],
                #[trigger] s.listed(Some(status))[j],
            ),
{
    lemma_filter_in_order(s.tasks, status);
}

/// What `lemma_listed_by_status` says, of any sequence of tasks.
proof fn lemma_filter_in_order(tasks: Seq<TaskView>, status: TaskStatus)
    ensures
        tasks.filter(has_status(status)).len() <= tasks.len(),
        forall|i: int|
            0 <= i < tasks.filter(has_status(status)).len() ==> (#[trigger] tasks.filter(
                has_status(status),
            )[i]).status == status && tasks.contains(tasks.filter(has_status(status))[i]),
        forall|k: int|
            0 <= k < tasks.len() && (#[trigger] tasks[k]).status == status ==> tasks.filter(
                has_status(status),
            ).contains(tasks[k]),
        forall|i: int, j: int|
            0 <= i < j < tasks.filter(has_status(status)).len() ==> stands_before(
                tasks,
                #[trigger] tasks.filter(has_status(status))[i],
                #[trigger] tasks.filter(has_status(status))[j],
            ),
    decreases tasks.len(),
{
    reveal(Seq::filter);
    let pred = has_status(status);
    let listed = tasks.filter(pred);
    if tasks.len() > 0 {
        let front = tasks.drop_last();
        let last = tasks.last();
        let before = front.filter(pred);
        lemma_filter_in_order(front, status);
        assert forall|i: int| 0 <= i < listed.len() implies (#[trigger] listed[i]).status == status
            && tasks.contains(listed[i]) by {
            if i < before.len() {
                assert(listed[i] == before[i]);
                assert(front.contains(before[i]));
                let p = choose|p: int| 0 <= p < front.len() && front[p] == before[i];
                assert(tasks[p] == front[p]);
            } else {
                assert(listed[i] == last);
                assert(tasks[tasks.len() - 1] == last);
            }
        }
        assert forall|k: int| 0 <= k < tasks.len() && (#[trigger] tasks[k]).status == status implies listed.contains(
            tasks[k],
        ) by {
            if k < front.len() {
                assert(front[k] == tasks[k]);
                assert(before.contains(front[k]));
                let i = choose|i: int| 0 <= i < before.len() && before[i] == front[k];
                assert(listed[i] == before[i]);
            } else {
                assert(pred(last));
                assert(listed[listed.len() - 1] == last);
            }
        }
        assert forall|i: int, j: int| 0 <= i < j < listed.len() implies stands_before(
            tasks,
            #[trigger] listed[i],
            #[trigger] listed[j],
        ) by {
            if j < before.len() {
                assert(listed[i] == before[i]);
                assert(listed[j] == before[j]);
                assert(stands_before(front, before[i], before[j]));
                let (p, q) = choose|p: int, q: int|
                    0 <= p < q < front.len() && #[trigger] front[p] == before[i] && #[trigger] front[q]
                        == before[j];
                assert(tasks[p] == front[p] && tasks[q] == front[q]);
            } else {
                assert(listed[j] == last);
                assert(listed[i] == before[i]);
                assert(front.contains(before[i]));
                let p = choose|p: int| 0 <= p < front.len() && front[p] == before[i];
                let q = tasks.len() - 1;
                assert(tasks[p] == front[p] && tasks[q] == last);
            }
        }
    }
}

} // verus!
