//! The to-do domain: a concrete instantiation of the core.
//!
//! A [`Todo`] entity, a domain action vocabulary ([`TodoAction`]), the
//! domain reducer ([`todo_reducer`]), and the selectors the demonstration
//! driver watches.

use vstd::prelude::*;
use vstd::string::StringExecFns;

use crate::collection::{update_model, Collection, CollectionModel, Identifiable};
use crate::entity::{entity_reduce_model, entity_reducer, EntityAction};
use crate::error::StoreError;
use crate::store::{Reducer, Selector};

verus! {

/// One to-do item: an identity, a task text, and a completion flag.
#[derive(Debug, PartialEq, Eq)]
pub struct Todo {
    /// The stable identity the collection indexes by.
    pub id: i32,
    /// What there is to do.
    pub task: String,
    /// Whether it has been done.
    pub done: bool,
}

impl Todo {
    /// A new, not yet completed item.
    pub fn new(id: i32, task: &str) -> (t: Todo)
        ensures
            t.id == id,
            t.task@ == task@,
            t.done == false,
    {
        Todo { task: String::from_str(task), id, done: false }
    }
}

impl Identifiable for Todo {
    open spec fn id_spec(self) -> i32 {
        self.id
    }

    fn get_id(&self) -> (id: i32) {
        self.id
    }

    fn duplicate(&self) -> (d: Self) {
        Todo { id: self.id, task: self.task.clone(), done: self.done }
    }
}

/// The application state: one collection of to-dos.
pub struct RootState {
    /// The to-do collection.
    pub todos: Collection<Todo>,
}

impl View for RootState {
    type V = CollectionModel<Todo>;

    open spec fn view(&self) -> CollectionModel<Todo> {
        self.todos@
    }
}

impl RootState {
    /// A state holding an empty collection.
    pub fn new() -> (s: RootState)
        ensures
            s@.order == Seq::<i32>::empty(),
            s@.by_id == Map::<i32, Todo>::empty(),
            s@.consistent(),
    {
        RootState { todos: Collection::new() }
    }
}

/// The to-do domain's action vocabulary.
pub enum TodoAction {
    /// An entity-level action on the collection.
    Entity(EntityAction<Todo>),
    /// Set the completion flag of the item with this identity, which must be
    /// present.
    MarkDone(i32, bool),
    /// Replace the task text of the item with this identity, which must be
    /// present.
    ChangeText(i32, String),
}

/// What [`todo_reducer`] computes for each action, over collection models.
pub open spec fn todo_reduce_model(m: CollectionModel<Todo>, a: TodoAction) -> Result<
    CollectionModel<Todo>,
    StoreError,
> {
    match a {
        TodoAction::Entity(ea) => entity_reduce_model(m, ea),
        TodoAction::MarkDone(id, done) => if m.by_id.dom().contains(id) {
            Result::Ok(update_model(m, (Todo { id, task: m.by_id[id].task, done })))
        } else {
            Result::Err(StoreError::NotFound)
        },
        TodoAction::ChangeText(id, text) => if m.by_id.dom().contains(id) {
            Result::Ok(update_model(m, (Todo { id, task: text, done: m.by_id[id].done })))
        } else {
            Result::Err(StoreError::NotFound)
        },
    }
}

/// The domain reducer: entity actions go to [`entity_reducer`]; the field
/// edits look the target up, fail with `NotFound` if it is absent, and
/// otherwise rebuild it with the one field changed.
///
/// Pure and total: the result is exactly [`todo_reduce_model`] of the input
/// state's model and the action, and the input state is never modified.
pub fn todo_reducer(state: &RootState, action: &TodoAction) -> (r: Result<RootState, StoreError>)
    ensures
        match r {
            Result::Ok(s2) => {
                &&& todo_reduce_model(state@, *action) == Result::<
                    CollectionModel<Todo>,
                    StoreError,
                >::Ok(s2@)
                &&& s2@.consistent()
            },
            Result::Err(e) => todo_reduce_model(state@, *action) == Result::<
                CollectionModel<Todo>,
                StoreError,
            >::Err(e),
        },
{
    match action {
        TodoAction::Entity(ea) => match entity_reducer(&state.todos, ea) {
            Result::Ok(todos) => Result::Ok(RootState { todos }),
            Result::Err(e) => Result::Err(e),
        },
        TodoAction::MarkDone(id, done) => match state.todos.get(*id) {
            Option::Some(t) => {
                let updated = Todo { id: t.id, task: t.task.clone(), done: *done };
                match state.todos.update(&updated) {
                    Result::Ok(todos) => Result::Ok(RootState { todos }),
                    Result::Err(e) => {
                        proof {
                            assert(false);
                        }
                        Result::Err(e)
                    },
                }
            },
            Option::None => Result::Err(StoreError::NotFound),
        },
        TodoAction::ChangeText(id, text) => match state.todos.get(*id) {
            Option::Some(t) => {
                let updated = Todo { id: t.id, task: text.clone(), done: t.done };
                match state.todos.update(&updated) {
                    Result::Ok(todos) => Result::Ok(RootState { todos }),
                    Result::Err(e) => {
                        proof {
                            assert(false);
                        }
                        Result::Err(e)
                    },
                }
            },
            Option::None => Result::Err(StoreError::NotFound),
        },
    }
}

/// [`todo_reducer`] as a registrable reducer.
pub struct TodoReducer;

impl Reducer<RootState> for TodoReducer {
    type Action = TodoAction;

    open spec fn reduce_spec(&self, s: CollectionModel<Todo>, a: TodoAction) -> Result<
        CollectionModel<Todo>,
        StoreError,
    > {
        todo_reduce_model(s, a)
    }

    fn reduce(&self, s: &RootState, a: &TodoAction) -> (r: Result<RootState, StoreError>) {
        todo_reducer(s, a)
    }
}

/// Project the completion flag of the to-do with identity 2, if present.
pub fn select_id_2_todo_task_done(state: &RootState) -> (r: Option<bool>)
    ensures
        r == (if state@.by_id.dom().contains(2i32) {
            Option::Some(state@.by_id[2i32].done)
        } else {
            Option::<bool>::None
        }),
{
    match state.todos.get(2) {
        Option::Some(t) => Option::Some(t.done),
        Option::None => Option::None,
    }
}

/// Whether the to-do with identity 2 exists: the boolean projection the
/// demonstration driver registers an observer for.
pub fn test_observer(state: &RootState) -> (r: bool)
    ensures
        r == state@.by_id.dom().contains(2i32),
{
    match select_id_2_todo_task_done(state) {
        Option::Some(_) => true,
        Option::None => false,
    }
}

/// [`select_id_2_todo_task_done`] as a registrable selector.
pub struct TaskDoneSelector;

impl Selector<RootState> for TaskDoneSelector {
    type Out = Option<bool>;

    open spec fn select_spec(&self, s: CollectionModel<Todo>) -> Option<bool> {
        if s.by_id.dom().contains(2i32) {
            Option::Some(s.by_id[2i32].done)
        } else {
            Option::None
        }
    }

    fn select(&self, s: &RootState) -> (r: Option<bool>) {
        select_id_2_todo_task_done(s)
    }
}

/// [`test_observer`] as a registrable selector.
pub struct TaskPresentSelector;

impl Selector<RootState> for TaskPresentSelector {
    type Out = bool;

    open spec fn select_spec(&self, s: CollectionModel<Todo>) -> bool {
        s.by_id.dom().contains(2i32)
    }

    fn select(&self, s: &RootState) -> (r: bool) {
        test_observer(s)
    }
}

} // verus!
