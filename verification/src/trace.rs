//! A state that does nothing but log which reducer ran, and when.
//!
//! Two [`TagReducer`]s with different tags registered on one store make the
//! fold order of a dispatch observable: the log ends up holding the tags in
//! exactly the order the reducers were applied.

use vstd::prelude::*;

use crate::error::StoreError;
use crate::store::{fold_reducers, lemma_fold_two_in_order, Reducer, Selector};

verus! {

/// A state that is nothing but a log of reducer tags, oldest first.
pub struct TraceState {
    /// The tags of the reducers that have run so far.
    pub log: Vec<i32>,
}

impl View for TraceState {
    type V = Seq<i32>;

    open spec fn view(&self) -> Seq<i32> {
        self.log@
    }
}

impl TraceState {
    /// A state with an empty log.
    pub fn new() -> (s: Self)
        ensures
            s@ == Seq::<i32>::empty(),
    {
        TraceState { log: Vec::new() }
    }
}

/// A reducer whose only effect is to append its tag to the log.
pub struct TagReducer {
    /// The mark this reducer leaves in the log.
    pub tag: i32,
}

impl Reducer<TraceState> for TagReducer {
    type Action = ();

    open spec fn reduce_spec(&self, s: Seq<i32>, a: ()) -> Result<Seq<i32>, StoreError> {
        Result::Ok(s.push(self.tag))
    }

    fn reduce(&self, s: &TraceState, a: &()) -> (r: Result<TraceState, StoreError>) {
        let mut log = s.log.clone();
        proof {
            assert(log@ =~= s.log@);
        }
        log.push(self.tag);
        Result::Ok(TraceState { log })
    }
}

/// Whether anything has been logged yet.
pub struct LogNonEmptySelector;

impl Selector<TraceState> for LogNonEmptySelector {
    type Out = bool;

    open spec fn select_spec(&self, s: Seq<i32>) -> bool {
        s.len() > 0
    }

    fn select(&self, s: &TraceState) -> (r: bool) {
        s.log.len() > 0
    }
}

/// Dispatching through the chain `[a, b]` appends `a.tag` and then `b.tag`:
/// the first registered reducer runs first.
pub proof fn lemma_tags_in_order(a: TagReducer, b: TagReducer, s: Seq<i32>)
    ensures
        fold_reducers::<TraceState, TagReducer>(seq![a, b], s, ()) == Result::<
            Seq<i32>,
            StoreError,
        >::Ok(s.push(a.tag).push(b.tag)),
{
    lemma_fold_two_in_order::<TraceState, TagReducer>(a, b, s, ());
}

} // verus!
