//! Causal chains: events that name the events they were caused by, added
//! in an order where every cause comes before what it causes.

use vstd::prelude::*;
use crate::ids::fresh_id;

verus! {

/// An event with its identifier and the identifiers of its causes.
#[derive(Clone, Debug)]
pub struct CausalEvent<T> {
    pub id: u128,
    pub payload: T,
    pub dependencies: Vec<u128>,
}

impl<T> CausalEvent<T> {
    /// An event without causes, with a new identifier.
    pub fn new(payload: T) -> (r: Self)
        ensures
            r.payload == payload,
            r.dependencies@.len() == 0,
    {
        CausalEvent { id: fresh_id(), payload, dependencies: Vec::new() }
    }

    /// An event caused by the events `dependencies`, with a new identifier.
    pub fn caused_by(payload: T, dependencies: Vec<u128>) -> (r: Self)
        ensures
            r.payload == payload,
            r.dependencies == dependencies,
    {
        CausalEvent { id: fresh_id(), payload, dependencies }
    }

    /// The identifier of the event.
    pub fn id(&self) -> (r: u128)
        ensures
            r == self.id,
    {
        self.id
    }

    /// The identifiers of the events that caused this one.
    pub fn dependencies(&self) -> (r: &Vec<u128>)
        ensures
            r == self.dependencies,
    {
        &self.dependencies
    }
}

/// Why an event could not join a chain.
#[derive(Clone, Copy, Debug, PartialEq, Eq, Structural)]
pub enum CausalityError {
    /// The event names a cause that is not in the chain.
    UnknownCause(u128),
}

/// Whether an event with identifier `id` is in `events`.
pub open spec fn has_event<T>(events: Seq<CausalEvent<T>>, id: u128) -> bool {
    exists|j: int| 0 <= j < events.len() && events[j].id == id
}

/// Whether every cause of `e` is in `events`.
pub open spec fn causes_present<T>(events: Seq<CausalEvent<T>>, e: CausalEvent<T>) -> bool {
    forall|k: int| 0 <= k < e.dependencies@.len() ==> has_event(events, #[trigger] e.dependencies@[k])
}

/// Events in causal order: the causes of each event come before it.
pub open spec fn causally_ordered<T>(events: Seq<CausalEvent<T>>) -> bool {
    forall|i: int| 0 <= i < events.len() ==> causes_present(#[trigger] events.take(i), events[i])
}

/// Events in causal order.
pub struct CausalChain<T> {
    events: Vec<CausalEvent<T>>,
}

impl<T> View for CausalChain<T> {
    type V = Seq<CausalEvent<T>>;

    closed spec fn view(&self) -> Seq<CausalEvent<T>> {
        self.events@
    }
}

impl<T> CausalChain<T> {
    /// An empty chain.
    pub fn new() -> (r: Self)
        ensures
            r@.len() == 0,
    {
        CausalChain { events: Vec::new() }
    }

    /// The events, in the order they were added.
    pub fn events(&self) -> (r: &Vec<CausalEvent<T>>)
        ensures
            r@ == self@,
    {
        &self.events
    }

    /// The chain with `event` added last, when every cause of the event is
    /// already in the chain; otherwise a cause that is missing.
    pub fn add(self, event: CausalEvent<T>) -> (r: Result<Self, CausalityError>)
        ensures
            match r {
                Ok(c) => causes_present(self@, event) && c@ == self@.push(event),
                Err(CausalityError::UnknownCause(d)) => !causes_present(self@, event) && event.dependencies@.contains(d)
                    && !has_event(self@, d),
            },
    {
        let mut k: usize = 0;
        while k < event.dependencies.len()
            invariant
                k <= event.dependencies@.len(),
                forall|m: int| 0 <= m < k ==> has_event(self@, #[trigger] event.dependencies@[m]),
            decreases event.dependencies.len() - k,
        {
            let d = event.dependencies[k];
            let mut j: usize = 0;
            let mut found = false;
            while j < self.events.len()
                invariant
                    j <= self.events@.len(),
                    found ==> has_event(self@, d),
                    !found ==> forall|m: int| 0 <= m < j ==> self.events@[m].id != d,
                decreases self.events.len() - j,
            {
                if self.events[j].id == d {
                    found = true;
                }
                j = j + 1;
            }
            if !found {
                assert(event.dependencies@[k as int] == d);
                return Err(CausalityError::UnknownCause(d));
            }
            k = k + 1;
        }
        let mut events = self.events;
        events.push(event);
        Ok(CausalChain { events })
    }
}

/// Adding to a chain in causal order keeps it in causal order.
pub proof fn lemma_add_keeps_order<T>(events: Seq<CausalEvent<T>>, e: CausalEvent<T>)
    requires
        causally_ordered(events),
        causes_present(events, e),
    ensures
        causally_ordered(events.push(e)),
{
    let p = events.push(e);
    assert forall|i: int| 0 <= i < p.len() implies causes_present(#[trigger] p.take(i), p[i]) by {
        if i < events.len() {
            assert(p.take(i) =~= events.take(i));
            assert(causes_present(events.take(i), events[i]));
        } else {
            assert(p.take(i) =~= events);
        }
    }
}

} // verus!
