//! The reducer-driven store and its dispatch/notify protocol.
//!
//! A [`Store`] owns the current state, an ordered chain of reducers, and a
//! registry of selector/observer pairs. `dispatch` folds the action through
//! the reducers in registration order; only if every reducer succeeds is the
//! resulting state committed and every observer notified, in registration
//! order, with its selector's reading of the new state. A failing reducer
//! leaves the state exactly as it was and fires no observer.

use vstd::prelude::*;

use crate::error::StoreError;

verus! {

/// A pure state transition, one link of a store's reducer chain.
///
/// `reduce` must be a function of the old state's view and the action alone:
/// its contract forces the returned state (or error) to equal `reduce_spec`
/// of those two values.
pub trait Reducer<State: View>: Sized {
    /// The action vocabulary this reducer consumes.
    type Action;

    /// What the reducer computes, over the state's mathematical view.
    spec fn reduce_spec(&self, s: <State as View>::V, a: Self::Action) -> Result<
        <State as View>::V,
        StoreError,
    >;

    /// Compute the next state from the previous one, or report why the
    /// action cannot be applied. The input state is never modified.
    fn reduce(&self, s: &State, a: &Self::Action) -> (r: Result<State, StoreError>)
        ensures
            match r {
                Result::Ok(s2) => self.reduce_spec(s@, *a) == Result::<
                    <State as View>::V,
                    StoreError,
                >::Ok(s2@),
                Result::Err(e) => self.reduce_spec(s@, *a) == Result::<
                    <State as View>::V,
                    StoreError,
                >::Err(e),
            },
    ;
}

/// A pure projection from the state to a derived value.
pub trait Selector<State: View>: Sized {
    /// The type of the derived value.
    type Out;

    /// What the selector reads off the state's view.
    spec fn select_spec(&self, s: <State as View>::V) -> Self::Out;

    /// Evaluate the projection; the state is only read.
    fn select(&self, s: &State) -> (r: Self::Out)
        ensures
            r == self.select_spec(s@),
    ;
}

/// A callback fired with a selector's result after each committed dispatch.
///
/// Notification is modelled functionally: `notify` consumes the observer and
/// returns its successor, whose view is `notified` of the old view and the
/// delivered value.
pub trait Observer: View + Sized {
    /// How a delivered value transforms the observer's view.
    spec fn notified(pre: <Self as View>::V, v: bool) -> <Self as View>::V;

    /// Deliver one value.
    fn notify(self, v: bool) -> (r: Self)
        ensures
            r@ == Self::notified(self@, v),
    ;
}

/// An observer that records every delivered value, in delivery order.
pub struct RecordingObserver {
    /// The values delivered so far, oldest first.
    pub seen: Vec<bool>,
}

impl View for RecordingObserver {
    type V = Seq<bool>;

    open spec fn view(&self) -> Seq<bool> {
        self.seen@
    }
}

impl RecordingObserver {
    /// An observer that has seen nothing yet.
    pub fn new() -> (o: Self)
        ensures
            o@ == Seq::<bool>::empty(),
    {
        RecordingObserver { seen: Vec::new() }
    }
}

impl Observer for RecordingObserver {
    open spec fn notified(pre: Seq<bool>, v: bool) -> Seq<bool> {
        pre.push(v)
    }

    fn notify(self, v: bool) -> (r: Self) {
        let mut o = self;
        o.seen.push(v);
        o
    }
}

/// One registration: a selector and the observer fed with its results.
pub struct ObserverSelector<Sel, Obs> {
    /// The projection evaluated against each newly committed state.
    pub selector: Sel,
    /// The callback receiving the projection's value.
    pub observer: Obs,
}

/// The result of folding an action through a reducer chain, left to right:
/// each reducer consumes the previous one's output state, and the first
/// failure stops the fold.
pub open spec fn fold_reducers<State: View, R: Reducer<State>>(
    rs: Seq<R>,
    s: <State as View>::V,
    a: R::Action,
) -> Result<<State as View>::V, StoreError>
    decreases rs.len(),
{
    if rs.len() == 0 {
        Result::Ok(s)
    } else {
        match rs.first().reduce_spec(s, a) {
            Result::Ok(s2) => fold_reducers::<State, R>(rs.drop_first(), s2, a),
            Result::Err(e) => Result::Err(e),
        }
    }
}

/// A fold over a single reducer is just that reducer's own transition.
pub proof fn lemma_fold_one<State: View, R: Reducer<State>>(
    r: R,
    s: <State as View>::V,
    a: R::Action,
)
    ensures
        fold_reducers::<State, R>(seq![r], s, a) == (match r.reduce_spec(s, a) {
            Result::Ok(s2) => Result::<<State as View>::V, StoreError>::Ok(s2),
            Result::Err(e) => Result::<<State as View>::V, StoreError>::Err(e),
        }),
{
    assert(seq![r].first() == r);
    assert(seq![r].drop_first() =~= Seq::<R>::empty());
    match r.reduce_spec(s, a) {
        Result::Ok(s2) => {
            assert(fold_reducers::<State, R>(seq![r].drop_first(), s2, a) == Result::<
                <State as View>::V,
                StoreError,
            >::Ok(s2));
        },
        Result::Err(_) => {},
    }
}

/// Folding through a concatenation of chains runs the first chain, then —
/// if it succeeded — the second chain from where the first left off.
pub proof fn lemma_fold_split<State: View, R: Reducer<State>>(
    rs1: Seq<R>,
    rs2: Seq<R>,
    s: <State as View>::V,
    a: R::Action,
)
    ensures
        fold_reducers::<State, R>(rs1 + rs2, s, a) == (match fold_reducers::<State, R>(
            rs1,
            s,
            a,
        ) {
            Result::Ok(s2) => fold_reducers::<State, R>(rs2, s2, a),
            Result::Err(e) => Result::<<State as View>::V, StoreError>::Err(e),
        }),
    decreases rs1.len(),
{
    if rs1.len() == 0 {
        assert(rs1 + rs2 =~= rs2);
    } else {
        assert((rs1 + rs2).len() > 0);
        assert((rs1 + rs2).first() == rs1.first());
        assert((rs1 + rs2).drop_first() =~= rs1.drop_first() + rs2);
        match rs1.first().reduce_spec(s, a) {
            Result::Ok(s2) => {
                lemma_fold_split::<State, R>(rs1.drop_first(), rs2, s2, a);
            },
            Result::Err(_) => {},
        }
    }
}

/// Reducers are applied in registration order: with a chain `[r1, r2]`, the
/// fold feeds the initial state to `r1` and `r1`'s output to `r2`; a failure
/// of `r1` stops the fold before `r2` runs.
pub proof fn lemma_fold_two_in_order<State: View, R: Reducer<State>>(
    r1: R,
    r2: R,
    s: <State as View>::V,
    a: R::Action,
)
    ensures
        fold_reducers::<State, R>(seq![r1, r2], s, a) == (match r1.reduce_spec(s, a) {
            Result::Ok(s2) => (match r2.reduce_spec(s2, a) {
                Result::Ok(s3) => Result::<<State as View>::V, StoreError>::Ok(s3),
                Result::Err(e) => Result::<<State as View>::V, StoreError>::Err(e),
            }),
            Result::Err(e) => Result::<<State as View>::V, StoreError>::Err(e),
        }),
{
    assert(seq![r1, r2] =~= seq![r1] + seq![r2]);
    lemma_fold_split::<State, R>(seq![r1], seq![r2], s, a);
    lemma_fold_one::<State, R>(r1, s, a);
    match r1.reduce_spec(s, a) {
        Result::Ok(s2) => {
            lemma_fold_one::<State, R>(r2, s2, a);
        },
        Result::Err(_) => {},
    }
}

/// The unidirectional store: single owner of the current state, an ordered
/// reducer chain, and the selector/observer registry.
///
/// The state can only be replaced through [`Store::dispatch`]; `get_state`
/// and `select` expose read access alone. Dispatch cannot re-enter: reducers,
/// selectors and observers are plain values that hold no reference to the
/// store, so none of them can call `dispatch` on it mid-cycle.
pub struct Store<State, R, Sel, Obs> {
    state: State,
    reducers: Vec<R>,
    observers: Vec<ObserverSelector<Sel, Obs>>,
}

impl<State, R, Sel, Obs> Store<State, R, Sel, Obs> where
    State: View,
    R: Reducer<State>,
    Sel: Selector<State, Out = bool>,
    Obs: Observer,
 {
    /// The current state.
    pub closed spec fn spec_state(&self) -> State {
        self.state
    }

    /// The reducer chain, in registration order.
    pub closed spec fn spec_reducers(&self) -> Seq<R> {
        self.reducers@
    }

    /// The selector/observer registrations, in registration order.
    pub closed spec fn spec_observers(&self) -> Seq<ObserverSelector<Sel, Obs>> {
        self.observers@
    }

    /// Create a store holding `state`, with no reducers and no observers.
    pub fn new(state: State) -> (s: Self)
        ensures
            s.spec_state() == state,
            s.spec_reducers() == Seq::<R>::empty(),
            s.spec_observers() == Seq::<ObserverSelector<Sel, Obs>>::empty(),
    {
        Store { state, reducers: Vec::new(), observers: Vec::new() }
    }

    /// Append a reducer to the chain. Order matters: `dispatch` applies
    /// reducers in registration order.
    pub fn register_reducer(&mut self, reducer: R)
        ensures
            final(self).spec_state() == old(self).spec_state(),
            final(self).spec_reducers() == old(self).spec_reducers().push(reducer),
            final(self).spec_observers() == old(self).spec_observers(),
    {
        self.reducers.push(reducer);
    }

    /// Register a selector/observer pair. The pair does not fire for past
    /// dispatches, only for those still to come.
    pub fn observe(&mut self, selector: Sel, observer: Obs)
        ensures
            final(self).spec_state() == old(self).spec_state(),
            final(self).spec_reducers() == old(self).spec_reducers(),
            final(self).spec_observers() == old(self).spec_observers().push(
                (ObserverSelector { selector, observer }),
            ),
    {
        self.observers.push(ObserverSelector { selector, observer });
    }

    /// A read-only snapshot of the current state.
    pub fn get_state(&self) -> (r: &State)
        ensures
            *r == self.spec_state(),
    {
        &self.state
    }

    /// Evaluate `selector` against the current state without registering it.
    pub fn select<S: Selector<State>>(&self, selector: &S) -> (r: S::Out)
        ensures
            r == selector.select_spec(self.spec_state()@),
    {
        selector.select(&self.state)
    }

    /// The registered selector/observer pairs, in registration order.
    pub fn subscriptions(&self) -> (r: &Vec<ObserverSelector<Sel, Obs>>)
        ensures
            r@ == self.spec_observers(),
    {
        &self.observers
    }

    /// Apply `action`: fold it through the reducer chain in registration
    /// order; commit the resulting state and notify every observer, in
    /// registration order, with its selector's reading of the new state —
    /// or, if any reducer fails, report that error with the state unchanged
    /// and no observer fired.
    pub fn dispatch(&mut self, action: R::Action) -> (r: Result<(), StoreError>)
        ensures
            final(self).spec_reducers() == old(self).spec_reducers(),
            final(self).spec_observers().len() == old(self).spec_observers().len(),
            (match fold_reducers::<State, R>(
                old(self).spec_reducers(),
                old(self).spec_state()@,
                action,
            ) {
                Result::Ok(v2) => {
                    &&& r == Result::<(), StoreError>::Ok(())
                    &&& final(self).spec_state()@ == v2
                    &&& forall|i: int|
                        0 <= i < old(self).spec_observers().len() ==> {
                            &&& (#[trigger] final(self).spec_observers()[i]).selector == old(
                                self,
                            ).spec_observers()[i].selector
                            &&& final(self).spec_observers()[i].observer@ == Obs::notified(
                                old(self).spec_observers()[i].observer@,
                                old(self).spec_observers()[i].selector.select_spec(v2),
                            )
                        }
                },
                Result::Err(e) => {
                    &&& r == Result::<(), StoreError>::Err(e)
                    &&& final(self).spec_state() == old(self).spec_state()
                    &&& final(self).spec_observers() == old(self).spec_observers()
                },
            }),
    {
        let ghost rs0 = self.reducers@;
        let ghost v0 = self.state@;
        let mut acc: Option<State> = Option::None;
        let n = self.reducers.len();
        let mut i: usize = 0;
        while i < n
            invariant
                *self == *old(self),
                rs0 == self.reducers@,
                v0 == self.state@,
                n == self.reducers@.len(),
                i <= n,
                fold_reducers::<State, R>(rs0.take(i as int), v0, action) == (match acc {
                    Option::Some(s2) => Result::<<State as View>::V, StoreError>::Ok(s2@),
                    Option::None => Result::<<State as View>::V, StoreError>::Ok(v0),
                }),
            decreases n - i,
        {
            let ghost pre = (match &acc {
                Option::Some(s2) => s2@,
                Option::None => v0,
            });
            let prev: &State = match &acc {
                Option::Some(s2) => s2,
                Option::None => &self.state,
            };
            let step = self.reducers[i].reduce(prev, &action);
            proof {
                assert(rs0.take(i + 1) =~= rs0.take(i as int) + seq![rs0[i as int]]);
                lemma_fold_split::<State, R>(rs0.take(i as int), seq![rs0[i as int]], v0, action);
                lemma_fold_one::<State, R>(rs0[i as int], pre, action);
            }
            match step {
                Result::Ok(s2) => {
                    acc = Option::Some(s2);
                },
                Result::Err(e) => {
                    proof {
                        assert(rs0 =~= rs0.take(i + 1) + rs0.skip(i + 1));
                        lemma_fold_split::<State, R>(rs0.take(i + 1), rs0.skip(i + 1), v0, action);
                        assert(fold_reducers::<State, R>(rs0, v0, action) == Result::<
                            <State as View>::V,
                            StoreError,
                        >::Err(e));
                    }
                    return Result::Err(e);
                },
            }
            i += 1;
        }
        proof {
            assert(rs0.take(n as int) =~= rs0);
        }
        match acc {
            Option::Some(s2) => {
                self.state = s2;
            },
            Option::None => {},
        }
        let ghost v2 = self.state@;
        let ghost obs0 = self.observers@;
        let ghost committed = self.state;
        let m = self.observers.len();
        let mut k: usize = 0;
        while k < m
            invariant
                self.state == committed,
                committed@ == v2,
                self.reducers@ == rs0,
                m == self.observers@.len(),
                obs0.len() == m,
                k <= m,
                forall|j: int| k <= j < m ==> #[trigger] self.observers@[j] == obs0[j],
                forall|j: int|
                    0 <= j < k ==> {
                        &&& (#[trigger] self.observers@[j]).selector == obs0[j].selector
                        &&& self.observers@[j].observer@ == Obs::notified(
                            obs0[j].observer@,
                            obs0[j].selector.select_spec(v2),
                        )
                    },
            decreases m - k,
        {
            let ghost before = self.observers@;
            let pair = self.observers.remove(k);
            let v = pair.selector.select(&self.state);
            let next = ObserverSelector { selector: pair.selector, observer: pair.observer.notify(v) };
            self.observers.insert(k, next);
            proof {
                assert(self.observers@ =~= before.update(k as int, next));
            }
            k += 1;
        }
        Result::Ok(())
    }
}

} // verus!
