//! An immutable, identity-indexed, insertion-ordered entity collection.
//!
//! Every mutating operation (`add`, `update`, `remove`) leaves the receiver
//! untouched — all of them take `&self` — and returns a fresh collection, so
//! holders of an older value keep exactly what they had (copy-on-write
//! semantics). The policy choices are strict: `add` fails with
//! [`StoreError::DuplicateId`] when the identity is already present, and
//! `update`/`remove` fail with [`StoreError::NotFound`] when it is absent.

use vstd::prelude::*;

use crate::error::StoreError;

verus! {

/// An entity that can report a stable integer identity and duplicate itself
/// exactly.
///
/// The exact duplication obligation (`duplicate` returns a value equal to the
/// receiver) is what lets a collection promise that its copy-on-write
/// operations preserve the stored entities unchanged.
pub trait Identifiable: Sized {
    /// The entity's identity, as seen by specifications.
    spec fn id_spec(self) -> i32;

    /// Report the entity's identity.
    fn get_id(&self) -> (id: i32)
        ensures
            id == self.id_spec(),
    ;

    /// Produce a value equal to `self`.
    fn duplicate(&self) -> (d: Self)
        ensures
            d == *self,
    ;
}

/// The mathematical model of a collection: an enumeration order over
/// identities together with the identity-to-entity mapping.
#[verifier::ext_equal]
pub struct CollectionModel<T> {
    /// The identities in insertion order.
    pub order: Seq<i32>,
    /// The entity bound to each identity.
    pub by_id: Map<i32, T>,
}

impl<T: Identifiable> CollectionModel<T> {
    /// `order` and `by_id` agree: `order` has no duplicates, it enumerates
    /// exactly the keys of `by_id`, and each entity is filed under its own
    /// identity.
    pub open spec fn consistent(self) -> bool {
        &&& forall|i: int, j: int|
            0 <= i < j < self.order.len() ==> self.order[i] != self.order[j]
        &&& forall|k: i32| self.order.contains(k) ==> #[trigger] self.by_id.dom().contains(k)
        &&& forall|k: i32| #[trigger] self.by_id.dom().contains(k)
            ==> self.order.contains(k) && self.by_id[k].id_spec() == k
    }
}

/// What `add` produces: the identity is appended to the order and the entity
/// is bound to it.
pub open spec fn add_model<T: Identifiable>(m: CollectionModel<T>, e: T) -> CollectionModel<T> {
    CollectionModel { order: m.order.push(e.id_spec()), by_id: m.by_id.insert(e.id_spec(), e) }
}

/// What `update` produces: the order is unchanged and the entity bound to the
/// identity is replaced.
pub open spec fn update_model<T: Identifiable>(m: CollectionModel<T>, e: T) -> CollectionModel<T> {
    CollectionModel { order: m.order, by_id: m.by_id.insert(e.id_spec(), e) }
}

/// What `remove` produces: the identity's (unique) occurrence leaves the
/// order and its binding leaves the map.
pub open spec fn remove_model<T: Identifiable>(m: CollectionModel<T>, id: i32) -> CollectionModel<T> {
    CollectionModel { order: m.order.remove(m.order.index_of(id)), by_id: m.by_id.remove(id) }
}

/// An immutable ordered, indexed set of identifiable entities.
///
/// `ids` holds the identities in insertion order; `entities` holds, at the
/// same position, the entity carrying that identity.
#[derive(Debug)]
pub struct Collection<T: Identifiable> {
    ids: Vec<i32>,
    entities: Vec<T>,
}

impl<T: Identifiable> View for Collection<T> {
    type V = CollectionModel<T>;

    closed spec fn view(&self) -> CollectionModel<T> {
        CollectionModel {
            order: self.ids@,
            by_id: Map::new(
                |k: i32| self.ids@.contains(k),
                |k: i32| self.entities@[self.ids@.index_of(k)],
            ),
        }
    }
}

impl<T: Identifiable> Collection<T> {
    /// The two columns line up, each entity sits beside its own identity,
    /// and no identity occurs twice.
    #[verifier::type_invariant]
    spec fn wf(self) -> bool {
        &&& self.ids@.len() == self.entities@.len()
        &&& forall|i: int|
            0 <= i < self.ids@.len() ==> #[trigger] self.entities@[i].id_spec() == self.ids@[i]
        &&& forall|i: int, j: int| 0 <= i < j < self.ids@.len() ==> self.ids@[i] != self.ids@[j]
    }

    /// In a duplicate-free sequence the chosen index of any element present
    /// is its actual position.
    proof fn lemma_index_of_unique(s: Seq<i32>)
        requires
            forall|i: int, j: int| 0 <= i < j < s.len() ==> s[i] != s[j],
        ensures
            forall|i: int| 0 <= i < s.len() ==> #[trigger] s.index_of(s[i]) == i,
    {
        assert forall|i: int| 0 <= i < s.len() implies #[trigger] s.index_of(s[i]) == i by {
            assert(s.contains(s[i]));
            let j = s.index_of(s[i]);
            assert(0 <= j < s.len() && s[j] == s[i]);
        }
    }

    /// How the view reads off the representation, for a well-formed value.
    proof fn lemma_view(&self)
        requires
            self.wf(),
        ensures
            self@.order == self.ids@,
            forall|k: i32| #[trigger] self@.by_id.dom().contains(k) <==> self.ids@.contains(k),
            forall|i: int|
                0 <= i < self.ids@.len() ==> #[trigger] self@.by_id[self.ids@[i]] == self.entities@[i],
            self@.consistent(),
    {
        Self::lemma_index_of_unique(self.ids@);
        assert forall|i: int| 0 <= i < self.ids@.len()
            implies #[trigger] self@.by_id[self.ids@[i]] == self.entities@[i] by {
            assert(self.ids@.contains(self.ids@[i]));
        }
        assert forall|k: i32| #[trigger] self@.by_id.dom().contains(k)
            implies self@.by_id[k].id_spec() == k by {
            let i = self.ids@.index_of(k);
            assert(0 <= i < self.ids@.len() && self.ids@[i] == k);
        }
    }

    /// Create an empty collection.
    pub fn new() -> (c: Self)
        ensures
            c@.order == Seq::<i32>::empty(),
            c@.by_id == Map::<i32, T>::empty(),
            c@.consistent(),
    {
        let c = Collection { ids: Vec::new(), entities: Vec::new() };
        proof {
            assert(c@.by_id =~= Map::<i32, T>::empty());
        }
        c
    }

    /// Copies of both columns, entity by entity.
    fn copied_vecs(&self) -> (r: (Vec<i32>, Vec<T>))
        ensures
            r.0@ == self.ids@,
            r.1@ == self.entities@,
    {
        proof {
            use_type_invariant(&*self);
        }
        let mut ids: Vec<i32> = Vec::new();
        let mut entities: Vec<T> = Vec::new();
        let mut i: usize = 0;
        while i < self.ids.len()
            invariant
                self.wf(),
                i <= self.ids@.len(),
                ids@ == self.ids@.take(i as int),
                entities@ == self.entities@.take(i as int),
            decreases self.ids@.len() - i,
        {
            ids.push(self.ids[i]);
            entities.push(self.entities[i].duplicate());
            proof {
                assert(self.ids@.take(i + 1) =~= self.ids@.take(i as int).push(self.ids@[i as int]));
                assert(self.entities@.take(i + 1)
                    =~= self.entities@.take(i as int).push(self.entities@[i as int]));
            }
            i += 1;
        }
        proof {
            assert(self.ids@.take(self.ids@.len() as int) =~= self.ids@);
            assert(self.entities@.take(self.entities@.len() as int) =~= self.entities@);
        }
        (ids, entities)
    }

    /// Produce a collection equal, as a model, to this one.
    pub fn duplicate(&self) -> (c: Self)
        ensures
            c@ == self@,
    {
        proof {
            use_type_invariant(&*self);
        }
        let (ids, entities) = self.copied_vecs();
        let c = Collection { ids, entities };
        proof {
            assert(c@.by_id =~= self@.by_id);
            assert(c@ =~= self@);
        }
        c
    }

    /// The position of `id` in the identity column, if present.
    fn position_of(&self, id: i32) -> (r: Option<usize>)
        ensures
            match r {
                Option::Some(i) => i < self.ids@.len() && self.ids@[i as int] == id,
                Option::None => !self.ids@.contains(id),
            },
    {
        let mut i: usize = 0;
        while i < self.ids.len()
            invariant
                i <= self.ids@.len(),
                forall|j: int| 0 <= j < i ==> self.ids@[j] != id,
            decreases self.ids@.len() - i,
        {
            if self.ids[i] == id {
                return Option::Some(i);
            }
            i += 1;
        }
        Option::None
    }

    /// Append `entity` under its identity.
    ///
    /// Strict policy: fails with `DuplicateId` — and only then — when the
    /// identity is already present.
    pub fn add(&self, entity: &T) -> (r: Result<Self, StoreError>)
        ensures
            match r {
                Result::Ok(c) => {
                    &&& !self@.by_id.dom().contains(entity.id_spec())
                    &&& c@ == add_model(self@, *entity)
                    &&& c@.consistent()
                },
                Result::Err(e) => {
                    &&& self@.by_id.dom().contains(entity.id_spec())
                    &&& e == StoreError::DuplicateId
                },
            },
    {
        proof {
            use_type_invariant(&*self);
            self.lemma_view();
        }
        let id = entity.get_id();
        match self.position_of(id) {
            Option::Some(_) => Result::Err(StoreError::DuplicateId),
            Option::None => {
                let (mut ids, mut entities) = self.copied_vecs();
                ids.push(id);
                entities.push(entity.duplicate());
                let c = Collection { ids, entities };
                proof {
                    c.lemma_view();
                    let target = self@.by_id.insert(id, *entity);
                    assert forall|k: i32| #[trigger] c@.by_id.dom().contains(k)
                        implies target.dom().contains(k) && c@.by_id[k] == target[k] by {
                        assert(c.ids@.contains(k));
                        let i2 = c.ids@.index_of(k);
                        assert(0 <= i2 < c.ids@.len() && c.ids@[i2] == k);
                        assert(c@.by_id[c.ids@[i2]] == c.entities@[i2]);
                        if k == id {
                            if i2 < self.ids@.len() {
                                assert(self.ids@[i2] == id);
                                assert(self.ids@.contains(id));
                                assert(false);
                            }
                            assert(c.entities@[i2] == *entity);
                        } else {
                            assert(i2 < self.ids@.len());
                            assert(self.ids@[i2] == k);
                            assert(self.ids@.contains(k));
                            assert(self@.by_id[self.ids@[i2]] == self.entities@[i2]);
                        }
                    }
                    assert forall|k: i32| #[trigger] target.dom().contains(k)
                        implies c@.by_id.dom().contains(k) by {
                        if k == id {
                            assert(c.ids@[self.ids@.len() as int] == id);
                            assert(c.ids@.contains(id));
                        } else {
                            assert(self.ids@.contains(k));
                            let i2 = self.ids@.index_of(k);
                            assert(0 <= i2 < self.ids@.len() && self.ids@[i2] == k);
                            assert(c.ids@[i2] == k);
                            assert(c.ids@.contains(k));
                        }
                    }
                    assert(c@.by_id =~= target);
                    assert(c@ =~= add_model(self@, *entity));
                }
                Result::Ok(c)
            },
        }
    }

    /// Replace the entity bound to `entity`'s identity; the order is kept.
    ///
    /// Strict policy (no upsert): fails with `NotFound` — and only then —
    /// when the identity is absent.
    pub fn update(&self, entity: &T) -> (r: Result<Self, StoreError>)
        ensures
            match r {
                Result::Ok(c) => {
                    &&& self@.by_id.dom().contains(entity.id_spec())
                    &&& c@ == update_model(self@, *entity)
                    &&& c@.consistent()
                },
                Result::Err(e) => {
                    &&& !self@.by_id.dom().contains(entity.id_spec())
                    &&& e == StoreError::NotFound
                },
            },
    {
        proof {
            use_type_invariant(&*self);
            self.lemma_view();
        }
        let id = entity.get_id();
        match self.position_of(id) {
            Option::None => Result::Err(StoreError::NotFound),
            Option::Some(idx) => {
                let (ids, mut entities) = self.copied_vecs();
                entities.remove(idx);
                entities.insert(idx, entity.duplicate());
                let c = Collection { ids, entities };
                proof {
                    assert(c.entities@ =~= self.entities@.update(idx as int, *entity));
                    Self::lemma_index_of_unique(c.ids@);
                    c.lemma_view();
                    assert(c@.by_id =~= self@.by_id.insert(id, *entity));
                    assert(c@ =~= update_model(self@, *entity));
                }
                Result::Ok(c)
            },
        }
    }

    /// Drop the entity bound to `id`, from the order and from the index.
    ///
    /// Fails with `NotFound` — and only then — when the identity is absent.
    pub fn remove(&self, id: &i32) -> (r: Result<Self, StoreError>)
        ensures
            match r {
                Result::Ok(c) => {
                    &&& self@.by_id.dom().contains(*id)
                    &&& c@ == remove_model(self@, *id)
                    &&& c@.consistent()
                },
                Result::Err(e) => {
                    &&& !self@.by_id.dom().contains(*id)
                    &&& e == StoreError::NotFound
                },
            },
    {
        proof {
            use_type_invariant(&*self);
            self.lemma_view();
        }
        let id_val = *id;
        match self.position_of(id_val) {
            Option::None => Result::Err(StoreError::NotFound),
            Option::Some(idx) => {
                let n = self.ids.len();
                let mut ids: Vec<i32> = Vec::new();
                let mut entities: Vec<T> = Vec::new();
                let mut i: usize = 0;
                while i < idx
                    invariant
                        self.wf(),
                        idx < self.ids@.len(),
                        i <= idx,
                        ids@ == self.ids@.take(i as int),
                        entities@ == self.entities@.take(i as int),
                    decreases idx - i,
                {
                    ids.push(self.ids[i]);
                    entities.push(self.entities[i].duplicate());
                    proof {
                        assert(self.ids@.take(i + 1)
                            =~= self.ids@.take(i as int).push(self.ids@[i as int]));
                        assert(self.entities@.take(i + 1)
                            =~= self.entities@.take(i as int).push(self.entities@[i as int]));
                    }
                    i += 1;
                }
                let mut j: usize = idx + 1;
                while j < n
                    invariant
                        self.wf(),
                        n == self.ids@.len(),
                        idx < j,
                        j <= self.ids@.len(),
                        ids@ == self.ids@.take(idx as int)
                            + self.ids@.subrange(idx + 1, j as int),
                        entities@ == self.entities@.take(idx as int)
                            + self.entities@.subrange(idx + 1, j as int),
                    decreases self.ids@.len() - j,
                {
                    ids.push(self.ids[j]);
                    entities.push(self.entities[j].duplicate());
                    proof {
                        assert(self.ids@.take(idx as int) + self.ids@.subrange(idx + 1, j + 1)
                            =~= (self.ids@.take(idx as int)
                                + self.ids@.subrange(idx + 1, j as int)).push(self.ids@[j as int]));
                        assert(self.entities@.take(idx as int)
                            + self.entities@.subrange(idx + 1, j + 1)
                            =~= (self.entities@.take(idx as int)
                                + self.entities@.subrange(idx + 1, j as int))
                                .push(self.entities@[j as int]));
                    }
                    j += 1;
                }
                let c = Collection { ids, entities };
                proof {
                    assert(c.ids@ =~= self.ids@.remove(idx as int));
                    assert(c.entities@ =~= self.entities@.remove(idx as int));
                    Self::lemma_index_of_unique(self.ids@);
                    assert(self@.order.index_of(id_val) == idx);
                    Self::lemma_index_of_unique(c.ids@);
                    assert forall|k: i32| c.ids@.contains(k)
                        implies self.ids@.contains(k) && k != id_val by {
                        let i2 = c.ids@.index_of(k);
                        assert(0 <= i2 < c.ids@.len() && c.ids@[i2] == k);
                        if i2 < idx {
                            assert(self.ids@[i2] == k);
                        } else {
                            assert(self.ids@[i2 + 1] == k);
                        }
                    }
                    assert forall|k: i32| self.ids@.contains(k) && k != id_val
                        implies c.ids@.contains(k) by {
                        let i2 = self.ids@.index_of(k);
                        assert(0 <= i2 < self.ids@.len() && self.ids@[i2] == k);
                        if i2 < idx {
                            assert(c.ids@[i2] == k);
                        } else {
                            assert(i2 != idx);
                            assert(c.ids@[i2 - 1] == k);
                        }
                    }
                    c.lemma_view();
                    assert forall|k: i32| c@.by_id.dom().contains(k)
                        implies c@.by_id[k] == self@.by_id[k] by {
                        let i2 = c.ids@.index_of(k);
                        assert(0 <= i2 < c.ids@.len() && c.ids@[i2] == k);
                        if i2 < idx {
                            assert(self.ids@[i2] == k);
                            assert(self@.by_id[k] == self.entities@[i2]);
                            assert(c@.by_id[k] == c.entities@[i2]);
                        } else {
                            assert(self.ids@[i2 + 1] == k);
                            assert(self@.by_id[k] == self.entities@[i2 + 1]);
                            assert(c@.by_id[k] == c.entities@[i2]);
                        }
                    }
                    assert(c@.by_id =~= self@.by_id.remove(id_val));
                    assert(c@ =~= remove_model(self@, id_val));
                }
                Result::Ok(c)
            },
        }
    }

    /// Read the entity bound to `id`, if any.
    pub fn get(&self, id: i32) -> (r: Option<&T>)
        ensures
            self@.consistent(),
            match r {
                Option::Some(t) => {
                    &&& self@.by_id.dom().contains(id)
                    &&& *t == self@.by_id[id]
                    &&& t.id_spec() == id
                },
                Option::None => !self@.by_id.dom().contains(id),
            },
    {
        proof {
            use_type_invariant(&*self);
            self.lemma_view();
        }
        match self.position_of(id) {
            Option::None => Option::None,
            Option::Some(idx) => {
                proof {
                    Self::lemma_index_of_unique(self.ids@);
                }
                Option::Some(&self.entities[idx])
            },
        }
    }

    /// All entities, in insertion order.
    pub fn all(&self) -> (r: &Vec<T>)
        ensures
            self@.consistent(),
            r@.len() == self@.order.len(),
            forall|i: int|
                0 <= i < r@.len() ==> #[trigger] r@[i] == self@.by_id[self@.order[i]],
    {
        proof {
            use_type_invariant(&*self);
            self.lemma_view();
        }
        &self.entities
    }
}

/// Updating with the same entity twice is the same as updating once: for an
/// entity already present, `update(update(c, e), e)` and `update(c, e)`
/// describe the same collection.
pub proof fn lemma_update_idempotent<T: Identifiable>(m: CollectionModel<T>, e: T)
    requires
        m.by_id.dom().contains(e.id_spec()),
    ensures
        update_model(update_model(m, e), e) == update_model(m, e),
{
    assert(m.by_id.insert(e.id_spec(), e).insert(e.id_spec(), e) =~= m.by_id.insert(e.id_spec(), e));
    assert(update_model(update_model(m, e), e) =~= update_model(m, e));
}

/// Adding a fresh entity and then removing its identity restores the
/// original collection: `remove(add(c, e), e.id)` describes `c` itself,
/// whenever `c` did not already contain `e`'s identity.
pub proof fn lemma_add_remove_round_trip<T: Identifiable>(m: CollectionModel<T>, e: T)
    requires
        m.consistent(),
        !m.by_id.dom().contains(e.id_spec()),
    ensures
        remove_model(add_model(m, e), e.id_spec()) == m,
{
    let id = e.id_spec();
    let m2 = add_model(m, e);
    assert(!m.order.contains(id));
    assert(m2.order[m.order.len() as int] == id);
    assert(m2.order.contains(id));
    let i = m2.order.index_of(id);
    assert(0 <= i < m2.order.len() && m2.order[i] == id);
    if i < m.order.len() {
        assert(m.order[i] == id);
        assert(false);
    }
    assert(m2.order.remove(i) =~= m.order);
    assert(m2.by_id.remove(id) =~= m.by_id);
    assert(remove_model(m2, id) =~= m);
}

} // verus!
