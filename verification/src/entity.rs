//! The entity-level action vocabulary and its reducer.

use vstd::prelude::*;

use crate::collection::{
    add_model, remove_model, update_model, Collection, CollectionModel, Identifiable,
};
use crate::error::StoreError;

verus! {

/// An intended change to an entity collection.
///
/// Pure data: an action is never applied directly, only interpreted by a
/// reducer such as [`entity_reducer`].
pub enum EntityAction<T: Identifiable> {
    /// Insert a fresh entity; its identity must not be present yet.
    AddEntity(T),
    /// Replace the entity bound to the carried entity's identity, which must
    /// be present.
    UpdateEntity(T),
    /// Remove the entity bound to this identity, which must be present.
    RemoveEntity(i32),
}

/// What [`entity_reducer`] computes for each action, over collection models.
pub open spec fn entity_reduce_model<T: Identifiable>(
    m: CollectionModel<T>,
    a: EntityAction<T>,
) -> Result<CollectionModel<T>, StoreError> {
    match a {
        EntityAction::AddEntity(e) => if m.by_id.dom().contains(e.id_spec()) {
            Result::Err(StoreError::DuplicateId)
        } else {
            Result::Ok(add_model(m, e))
        },
        EntityAction::UpdateEntity(e) => if m.by_id.dom().contains(e.id_spec()) {
            Result::Ok(update_model(m, e))
        } else {
            Result::Err(StoreError::NotFound)
        },
        EntityAction::RemoveEntity(id) => if m.by_id.dom().contains(id) {
            Result::Ok(remove_model(m, id))
        } else {
            Result::Err(StoreError::NotFound)
        },
    }
}

/// Translate one entity action into a new collection, leaving the input
/// collection untouched.
///
/// A pure, total function: the result — new collection or error — is exactly
/// [`entity_reduce_model`] of the input's model and the action.
pub fn entity_reducer<T: Identifiable>(
    state: &Collection<T>,
    action: &EntityAction<T>,
) -> (r: Result<Collection<T>, StoreError>)
    ensures
        match r {
            Result::Ok(c) => {
                &&& entity_reduce_model(state@, *action) == Result::<
                    CollectionModel<T>,
                    StoreError,
                >::Ok(c@)
                &&& c@.consistent()
            },
            Result::Err(e) => entity_reduce_model(state@, *action) == Result::<
                CollectionModel<T>,
                StoreError,
            >::Err(e),
        },
{
    match action {
        EntityAction::AddEntity(entity) => state.add(entity),
        EntityAction::UpdateEntity(entity) => state.update(entity),
        EntityAction::RemoveEntity(id) => state.remove(id),
    }
}

} // verus!
