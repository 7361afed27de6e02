use statestore::entity::EntityAction;
use statestore::error::StoreError;
use statestore::store::{RecordingObserver, Store};
use statestore::todo::{
    select_id_2_todo_task_done, test_observer, RootState, TaskDoneSelector, TaskPresentSelector,
    Todo, TodoAction, TodoReducer,
};
use statestore::trace::{LogNonEmptySelector, TagReducer, TraceState};

type TodoStore = Store<RootState, TodoReducer, TaskPresentSelector, RecordingObserver>;
type TraceStore = Store<TraceState, TagReducer, LogNonEmptySelector, RecordingObserver>;

fn todo_store() -> TodoStore {
    let mut store: TodoStore = Store::new(RootState::new());
    store.register_reducer(TodoReducer);
    store
}

fn state_ids(store: &TodoStore) -> Vec<i32> {
    store.get_state().todos.all().iter().map(|t| t.id).collect()
}

#[test]
fn example_scenario_runs_as_specified() {
    let mut store = todo_store();
    store
        .dispatch(TodoAction::Entity(EntityAction::AddEntity(Todo { id: 1, task: String::from("one"), done: false })))
        .unwrap();
    assert_eq!(state_ids(&store), vec![1]);
    store
        .dispatch(TodoAction::Entity(EntityAction::AddEntity(Todo { id: 2, task: String::from("two"), done: false })))
        .unwrap();
    assert_eq!(state_ids(&store), vec![1, 2]);
    store.dispatch(TodoAction::Entity(EntityAction::RemoveEntity(1))).unwrap();
    assert_eq!(state_ids(&store), vec![2]);
    assert!(store.get_state().todos.get(1).is_none());
    store
        .dispatch(TodoAction::Entity(EntityAction::UpdateEntity(Todo { id: 2, task: String::from("two"), done: true })))
        .unwrap();
    assert!(store.get_state().todos.get(2).unwrap().done);
}

#[test]
fn observer_fires_once_per_committed_dispatch() {
    let mut store = todo_store();
    store.observe(TaskPresentSelector, RecordingObserver::new());
    store
        .dispatch(TodoAction::Entity(EntityAction::AddEntity(Todo::new(1, "one"))))
        .unwrap();
    store
        .dispatch(TodoAction::Entity(EntityAction::AddEntity(Todo::new(2, "two"))))
        .unwrap();
    store.dispatch(TodoAction::Entity(EntityAction::RemoveEntity(1))).unwrap();
    store
        .dispatch(TodoAction::Entity(EntityAction::UpdateEntity(Todo { id: 2, task: String::from("two"), done: true })))
        .unwrap();
    let seen = &store.subscriptions()[0].observer.seen;
    assert_eq!(*seen, vec![false, true, true, true]);
}

#[test]
fn failing_dispatch_commits_nothing_and_fires_no_observer() {
    let mut store = todo_store();
    store.observe(TaskPresentSelector, RecordingObserver::new());
    store
        .dispatch(TodoAction::Entity(EntityAction::AddEntity(Todo::new(1, "keep"))))
        .unwrap();
    let r = store.dispatch(TodoAction::MarkDone(5, true));
    assert_eq!(r.unwrap_err(), StoreError::NotFound);
    assert_eq!(state_ids(&store), vec![1]);
    assert!(!store.get_state().todos.get(1).unwrap().done);
    // only the successful dispatch notified the observer
    assert_eq!(store.subscriptions()[0].observer.seen, vec![false]);
}

#[test]
fn duplicate_add_through_dispatch_is_rejected() {
    let mut store = todo_store();
    store
        .dispatch(TodoAction::Entity(EntityAction::AddEntity(Todo::new(1, "one"))))
        .unwrap();
    let r = store.dispatch(TodoAction::Entity(EntityAction::AddEntity(Todo::new(1, "again"))));
    assert_eq!(r.unwrap_err(), StoreError::DuplicateId);
    assert_eq!(state_ids(&store), vec![1]);
    assert_eq!(store.get_state().todos.get(1).unwrap().task.as_str(), "one");
}

#[test]
fn reducers_run_in_registration_order() {
    let mut store: TraceStore = Store::new(TraceState::new());
    store.register_reducer(TagReducer { tag: 1 });
    store.register_reducer(TagReducer { tag: 2 });
    store.dispatch(()).unwrap();
    assert_eq!(store.get_state().log, vec![1, 2]);
    store.dispatch(()).unwrap();
    assert_eq!(store.get_state().log, vec![1, 2, 1, 2]);
}

#[test]
fn mark_done_and_change_text_edit_one_field_each() {
    let mut store = todo_store();
    store
        .dispatch(TodoAction::Entity(EntityAction::AddEntity(Todo::new(2, "get good"))))
        .unwrap();
    store.dispatch(TodoAction::MarkDone(2, true)).unwrap();
    let t = store.get_state().todos.get(2).unwrap();
    assert!(t.done);
    assert_eq!(t.task.as_str(), "get good");
    store.dispatch(TodoAction::ChangeText(2, String::from("git gud"))).unwrap();
    let t = store.get_state().todos.get(2).unwrap();
    assert_eq!(t.task.as_str(), "git gud");
    assert!(t.done);
}

#[test]
fn field_edits_on_missing_entities_fail() {
    let mut store = todo_store();
    assert_eq!(store.dispatch(TodoAction::MarkDone(1, true)).unwrap_err(), StoreError::NotFound);
    assert_eq!(
        store.dispatch(TodoAction::ChangeText(1, String::from("x"))).unwrap_err(),
        StoreError::NotFound
    );
}

#[test]
fn select_reads_the_current_state_without_registering() {
    let mut store = todo_store();
    assert_eq!(store.select(&TaskDoneSelector), None);
    store
        .dispatch(TodoAction::Entity(EntityAction::AddEntity(Todo::new(2, "two"))))
        .unwrap();
    assert_eq!(store.select(&TaskDoneSelector), Some(false));
    store.dispatch(TodoAction::MarkDone(2, true)).unwrap();
    assert_eq!(store.select(&TaskDoneSelector), Some(true));
    // selecting registered nothing
    assert_eq!(store.subscriptions().len(), 0);
}

#[test]
fn dispatch_with_no_reducers_keeps_state_and_still_notifies() {
    let mut store: TodoStore = Store::new(RootState::new());
    store.observe(TaskPresentSelector, RecordingObserver::new());
    store.dispatch(TodoAction::MarkDone(1, true)).unwrap();
    assert_eq!(state_ids(&store), Vec::<i32>::new());
    assert_eq!(store.subscriptions()[0].observer.seen, vec![false]);
}

#[test]
fn observe_does_not_fire_for_past_dispatches() {
    let mut store = todo_store();
    store
        .dispatch(TodoAction::Entity(EntityAction::AddEntity(Todo::new(2, "two"))))
        .unwrap();
    store.observe(TaskPresentSelector, RecordingObserver::new());
    assert_eq!(store.subscriptions()[0].observer.seen, Vec::<bool>::new());
    store.dispatch(TodoAction::MarkDone(2, false)).unwrap();
    assert_eq!(store.subscriptions()[0].observer.seen, vec![true]);
}

#[test]
fn observers_fire_in_registration_order_with_their_own_selectors() {
    let mut store: TraceStore = Store::new(TraceState::new());
    store.register_reducer(TagReducer { tag: 7 });
    store.observe(LogNonEmptySelector, RecordingObserver::new());
    store.observe(LogNonEmptySelector, RecordingObserver::new());
    store.dispatch(()).unwrap();
    assert_eq!(store.subscriptions().len(), 2);
    assert_eq!(store.subscriptions()[0].observer.seen, vec![true]);
    assert_eq!(store.subscriptions()[1].observer.seen, vec![true]);
}

#[test]
fn selector_functions_project_id_2() {
    let state = RootState::new();
    assert_eq!(select_id_2_todo_task_done(&state), None);
    assert!(!test_observer(&state));
    let todos = state.todos.add(&Todo { id: 2, task: String::from("t"), done: true }).unwrap();
    let state = RootState { todos };
    assert_eq!(select_id_2_todo_task_done(&state), Some(true));
    assert!(test_observer(&state));
}
