use statestore::collection::{Collection, Identifiable};
use statestore::entity::{entity_reducer, EntityAction};
use statestore::error::StoreError;
use statestore::todo::Todo;

fn ids_of(c: &Collection<Todo>) -> Vec<i32> {
    c.all().iter().map(|t| t.id).collect()
}

fn sample() -> Collection<Todo> {
    let c = Collection::new();
    let c = c.add(&Todo::new(1, "first")).unwrap();
    let c = c.add(&Todo::new(2, "second")).unwrap();
    c.add(&Todo::new(3, "third")).unwrap()
}

#[test]
fn empty_collection_has_nothing() {
    let c: Collection<Todo> = Collection::new();
    assert!(c.get(1).is_none());
    assert_eq!(c.all().len(), 0);
}

#[test]
fn add_appends_in_insertion_order() {
    let c = sample();
    assert_eq!(ids_of(&c), vec![1, 2, 3]);
    let t2 = c.get(2).unwrap();
    assert_eq!(t2.id, 2);
    assert_eq!(t2.task.as_str(), "second");
    assert!(!t2.done);
}

#[test]
fn add_existing_id_fails() {
    let c = sample();
    let r = c.add(&Todo::new(2, "again"));
    assert_eq!(r.unwrap_err(), StoreError::DuplicateId);
    // the failed call changed nothing
    assert_eq!(ids_of(&c), vec![1, 2, 3]);
    assert_eq!(c.get(2).unwrap().task.as_str(), "second");
}

#[test]
fn update_replaces_entity_and_keeps_order() {
    let c = sample();
    let replacement = Todo { id: 2, task: String::from("redone"), done: true };
    let c2 = c.update(&replacement).unwrap();
    assert_eq!(ids_of(&c2), vec![1, 2, 3]);
    let t = c2.get(2).unwrap();
    assert_eq!(t.task.as_str(), "redone");
    assert!(t.done);
}

#[test]
fn update_missing_id_fails() {
    let c = sample();
    let r = c.update(&Todo::new(9, "ghost"));
    assert_eq!(r.unwrap_err(), StoreError::NotFound);
}

#[test]
fn remove_drops_exactly_the_target() {
    let c = sample();
    let c2 = c.remove(&2).unwrap();
    assert_eq!(ids_of(&c2), vec![1, 3]);
    assert!(c2.get(2).is_none());
    assert_eq!(c2.get(1).unwrap().task.as_str(), "first");
    assert_eq!(c2.get(3).unwrap().task.as_str(), "third");
}

#[test]
fn remove_missing_id_fails() {
    let c = sample();
    assert_eq!(c.remove(&7).unwrap_err(), StoreError::NotFound);
}

#[test]
fn order_and_index_stay_consistent_through_mixed_operations() {
    let mut c = Collection::new();
    for id in [4, 1, 3, 2] {
        c = c.add(&Todo::new(id, "task")).unwrap();
    }
    c = c.remove(&3).unwrap();
    c = c.update(&Todo { id: 1, task: String::from("redone"), done: true }).unwrap();
    c = c.add(&Todo::new(5, "late")).unwrap();
    let ids = ids_of(&c);
    assert_eq!(ids, vec![4, 1, 2, 5]);
    // no duplicates, and every listed id resolves to an entity with that id
    for (i, id) in ids.iter().enumerate() {
        assert!(!ids[i + 1..].contains(id));
        assert_eq!(c.get(*id).unwrap().get_id(), *id);
    }
    assert!(c.get(3).is_none());
}

#[test]
fn operations_leave_the_receiver_unchanged() {
    let c = sample();
    let _added = c.add(&Todo::new(4, "fourth")).unwrap();
    let _updated = c.update(&Todo { id: 1, task: String::from("other"), done: true }).unwrap();
    let _removed = c.remove(&2).unwrap();
    // the original still holds exactly its pre-call value
    assert_eq!(ids_of(&c), vec![1, 2, 3]);
    assert!(c.get(4).is_none());
    assert_eq!(c.get(1).unwrap().task.as_str(), "first");
    assert!(!c.get(1).unwrap().done);
    assert_eq!(c.get(2).unwrap().task.as_str(), "second");
}

#[test]
fn updating_twice_equals_updating_once() {
    let c = sample();
    let e = Todo { id: 2, task: String::from("twice"), done: true };
    let once = c.update(&e).unwrap();
    let twice = once.update(&e).unwrap();
    assert_eq!(once.all(), twice.all());
}

#[test]
fn remove_after_add_restores_the_collection() {
    let c = sample();
    let e = Todo::new(9, "transient");
    let back = c.add(&e).unwrap().remove(&9).unwrap();
    assert_eq!(back.all(), c.all());
}

#[test]
fn duplicate_matches_the_original() {
    let c = sample();
    let d = c.duplicate();
    assert_eq!(c.all(), d.all());
}

#[test]
fn entity_duplicate_is_exact() {
    let t = Todo { id: 7, task: String::from("copy me"), done: true };
    let d = t.duplicate();
    assert_eq!(d, t);
}

#[test]
fn entity_reducer_applies_each_action_kind() {
    let c = sample();
    let added = entity_reducer(&c, &EntityAction::AddEntity(Todo::new(4, "fourth"))).unwrap();
    assert_eq!(ids_of(&added), vec![1, 2, 3, 4]);
    let updated = entity_reducer(
        &c,
        &EntityAction::UpdateEntity(Todo { id: 3, task: String::from("done"), done: true }),
    )
    .unwrap();
    assert!(updated.get(3).unwrap().done);
    let removed = entity_reducer(&c, &EntityAction::RemoveEntity(1)).unwrap();
    assert_eq!(ids_of(&removed), vec![2, 3]);
}

#[test]
fn entity_reducer_reports_each_error() {
    let c = sample();
    assert_eq!(
        entity_reducer(&c, &EntityAction::AddEntity(Todo::new(1, "dup"))).unwrap_err(),
        StoreError::DuplicateId
    );
    assert_eq!(
        entity_reducer(&c, &EntityAction::UpdateEntity(Todo::new(8, "none"))).unwrap_err(),
        StoreError::NotFound
    );
    assert_eq!(
        entity_reducer(&c, &EntityAction::RemoveEntity(8)).unwrap_err(),
        StoreError::NotFound
    );
}
