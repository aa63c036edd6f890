use task_tracker::error::TaskError;
use task_tracker::status::TaskStatus;
use task_tracker::store::TaskVec;
use task_tracker::task::Task;
use task_tracker::timestamp::Timestamp;

fn at(secs: i64) -> Timestamp {
    Timestamp::new(secs, 0)
}

fn ids(tasks: &Vec<&Task>) -> Vec<u64> {
    tasks.iter().map(|t| t.id()).collect()
}

#[test]
fn new_store_is_empty() {
    let store = TaskVec::new();
    assert_eq!(store.len(), 0);
    assert!(store.is_empty());
    assert_eq!(store.next_id(), 0);
    assert!(store.list_by_status(None).is_empty());
    assert!(store.get(0).is_none());
}

#[test]
fn buy_milk_scenario() {
    let mut store = TaskVec::new();
    let (id, created) = {
        let task = store.add("buy milk", "2%").unwrap();
        assert_eq!(*task.status(), TaskStatus::Todo);
        assert_eq!(task.name(), "buy milk");
        assert_eq!(task.description(), "2%");
        (task.id(), *task.created())
    };
    assert_eq!(id, 0);
    {
        let task = store.mark(0, &TaskStatus::Done).unwrap();
        assert_eq!(*task.status(), TaskStatus::Done);
        assert!(task.updated().is_at_or_after(&created));
        assert_eq!(*task.created(), created);
    }
    assert!(store.list_by_status(Some(&TaskStatus::Todo)).is_empty());
    assert_eq!(ids(&store.list_by_status(Some(&TaskStatus::Done))), vec![0]);
    let removed = store.del(0).unwrap();
    assert_eq!(removed.id(), 0);
    assert_eq!(*removed.status(), TaskStatus::Done);
    assert!(store.is_empty());
    let again = store.add("buy bread", "rye").unwrap();
    assert_eq!(again.id(), 1);
}

#[test]
fn buy_milk_scenario_with_given_times() {
    let mut store = TaskVec::new();
    assert_eq!(store.add_at("buy milk", "2%", at(100)).unwrap().id(), 0);
    {
        let task = store.mark_at(0, &TaskStatus::Done, at(200)).unwrap();
        assert_eq!(*task.status(), TaskStatus::Done);
        assert_eq!(*task.created(), at(100));
        assert_eq!(*task.updated(), at(200));
        assert_ne!(task.updated(), task.created());
    }
    assert!(store.list_by_status(Some(&TaskStatus::Todo)).is_empty());
    assert_eq!(ids(&store.list_by_status(Some(&TaskStatus::Done))), vec![0]);
    assert!(store.del(0).is_ok());
    assert_eq!(store.len(), 0);
    assert_eq!(store.add_at("next", "one", at(300)).unwrap().id(), 1);
}

#[test]
fn added_ids_count_up() {
    let mut store = TaskVec::new();
    let mut seen: Vec<u64> = Vec::new();
    for i in 0..50u64 {
        let id = store.add_at("n", "d", at(i as i64)).unwrap().id();
        assert_eq!(id, i);
        assert!(seen.iter().all(|s| *s < id));
        seen.push(id);
    }
    assert_eq!(store.len(), 50);
    assert_eq!(store.next_id(), 50);
}

#[test]
fn a_removed_id_is_not_handed_out_again() {
    let mut store = TaskVec::new();
    store.add_at("a", "", at(1));
    store.add_at("b", "", at(2));
    store.add_at("c", "", at(3));
    assert_eq!(store.del(1).unwrap().name(), "b");
    assert_eq!(store.next_id(), 3);
    assert_eq!(store.add_at("d", "", at(4)).unwrap().id(), 3);
    assert_eq!(store.del(3).unwrap().name(), "d");
    assert_eq!(store.add_at("e", "", at(5)).unwrap().id(), 4);
    assert_eq!(ids(&store.list_by_status(None)), vec![0, 2, 4]);
    assert!(store.get(1).is_none());
    assert!(store.get(3).is_none());
}

#[test]
fn del_of_a_missing_id_is_not_found() {
    let mut store = TaskVec::new();
    assert_eq!(store.del(0).err(), Some(TaskError::NotFound));
    store.add_at("a", "", at(1));
    assert_eq!(store.del(5).err(), Some(TaskError::NotFound));
    assert_eq!(store.len(), 1);
    assert!(store.del(0).is_ok());
    assert_eq!(store.del(0).err(), Some(TaskError::NotFound));
}

#[test]
fn del_keeps_the_order_of_the_rest() {
    let mut store = TaskVec::new();
    for i in 0..5i64 {
        store.add_at("t", "", at(i));
    }
    store.del(2).unwrap();
    assert_eq!(ids(&store.list_by_status(None)), vec![0, 1, 3, 4]);
    store.del(0).unwrap();
    assert_eq!(ids(&store.list_by_status(None)), vec![1, 3, 4]);
    store.del(4).unwrap();
    assert_eq!(ids(&store.list_by_status(None)), vec![1, 3]);
}

#[test]
fn update_puts_in_what_is_given() {
    let mut store = TaskVec::new();
    store.add_at("name", "desc", at(10));
    store.add_at("other", "thing", at(11));
    let name = String::from("new name");
    let desc = String::from("new desc");
    {
        let task = store.update_at(0, Some(&name), None, at(20)).unwrap();
        assert_eq!(task.name(), "new name");
        assert_eq!(task.description(), "desc");
        assert_eq!(*task.updated(), at(20));
        assert_eq!(*task.created(), at(10));
    }
    {
        let task = store.update_at(0, None, Some(&desc), at(30)).unwrap();
        assert_eq!(task.name(), "new name");
        assert_eq!(task.description(), "new desc");
        assert_eq!(*task.updated(), at(30));
    }
    {
        let task = store.update_at(1, Some(&name), Some(&desc), at(40)).unwrap();
        assert_eq!(task.id(), 1);
        assert_eq!(task.name(), "new name");
        assert_eq!(task.description(), "new desc");
        assert_eq!(*task.status(), TaskStatus::Todo);
        assert_eq!(*task.updated(), at(40));
    }
    assert_eq!(*store.get(0).unwrap().updated(), at(30));
}

#[test]
fn update_with_nothing_given_changes_nothing() {
    let mut store = TaskVec::new();
    store.add_at("name", "desc", at(10));
    let task = store.update_at(0, None, None, at(20)).unwrap();
    assert_eq!(task.name(), "name");
    assert_eq!(task.description(), "desc");
    assert_eq!(*task.updated(), at(10));
}

#[test]
fn update_and_mark_of_a_missing_id_are_not_found() {
    let mut store = TaskVec::new();
    store.add_at("name", "desc", at(10));
    let name = String::from("x");
    assert_eq!(store.update_at(1, Some(&name), None, at(20)).err(), Some(TaskError::NotFound));
    assert_eq!(store.update(7, Some(&name), None).err(), Some(TaskError::NotFound));
    assert_eq!(store.mark_at(1, &TaskStatus::Done, at(20)).err(), Some(TaskError::NotFound));
    assert_eq!(store.mark(7, &TaskStatus::Done).err(), Some(TaskError::NotFound));
    let task = store.get(0).unwrap();
    assert_eq!(task.name(), "name");
    assert_eq!(*task.status(), TaskStatus::Todo);
    assert_eq!(*task.updated(), at(10));
}

#[test]
fn update_and_mark_with_the_clock_do_not_move_the_time_back() {
    let mut store = TaskVec::new();
    let (created, first) = {
        let task = store.add("name", "desc").unwrap();
        (*task.created(), *task.updated())
    };
    assert_eq!(created, first);
    let name = String::from("renamed");
    let second = {
        let task = store.update(0, Some(&name), None).unwrap();
        assert_eq!(task.name(), "renamed");
        assert_eq!(task.description(), "desc");
        *task.updated()
    };
    assert!(second.is_at_or_after(&first));
    let third = {
        let task = store.mark(0, &TaskStatus::InProgress).unwrap();
        assert_eq!(*task.status(), TaskStatus::InProgress);
        assert_eq!(task.name(), "renamed");
        *task.updated()
    };
    assert!(third.is_at_or_after(&second));
    assert!(third.is_at_or_after(&created));
    assert_eq!(*store.get(0).unwrap().created(), created);
}

#[test]
fn mark_does_not_move_the_time_back_when_the_clock_was() {
    let mut store = TaskVec::new();
    store.add_at("name", "desc", at(100));
    let task = store.mark_at(0, &TaskStatus::Done, at(50)).unwrap();
    assert_eq!(*task.status(), TaskStatus::Done);
    assert_eq!(*task.updated(), at(100));
    assert_eq!(*task.created(), at(100));
}

#[test]
fn list_by_status_gives_exactly_the_tasks_of_that_status_in_order() {
    let mut store = TaskVec::new();
    for i in 0..8i64 {
        store.add_at("t", "", at(i));
    }
    store.mark_at(1, &TaskStatus::Done, at(10)).unwrap();
    store.mark_at(6, &TaskStatus::Done, at(11)).unwrap();
    store.mark_at(3, &TaskStatus::Done, at(12)).unwrap();
    store.mark_at(2, &TaskStatus::Skip, at(13)).unwrap();
    store.mark_at(5, &TaskStatus::InProgress, at(14)).unwrap();
    assert_eq!(ids(&store.list_by_status(Some(&TaskStatus::Done))), vec![1, 3, 6]);
    assert_eq!(ids(&store.list_by_status(Some(&TaskStatus::Skip))), vec![2]);
    assert_eq!(ids(&store.list_by_status(Some(&TaskStatus::InProgress))), vec![5]);
    assert_eq!(ids(&store.list_by_status(Some(&TaskStatus::Todo))), vec![0, 4, 7]);
    assert_eq!(ids(&store.list_by_status(None)), vec![0, 1, 2, 3, 4, 5, 6, 7]);
    for task in store.list_by_status(Some(&TaskStatus::Done)) {
        assert_eq!(*task.status(), TaskStatus::Done);
    }
}

#[test]
fn list_by_status_can_be_asked_again() {
    let mut store = TaskVec::new();
    store.add_at("a", "", at(1));
    store.add_at("b", "", at(2));
    let first = ids(&store.list_by_status(None));
    let second = ids(&store.list_by_status(None));
    assert_eq!(first, second);
    assert_eq!(store.len(), 2);
}

#[test]
fn get_finds_a_task_by_its_id() {
    let mut store = TaskVec::new();
    store.add_at("a", "x", at(1));
    store.add_at("b", "y", at(2));
    store.del(0).unwrap();
    assert!(store.get(0).is_none());
    let task = store.get(1).unwrap();
    assert_eq!(task.name(), "b");
    assert_eq!(task.description(), "y");
    assert!(store.get(2).is_none());
}
