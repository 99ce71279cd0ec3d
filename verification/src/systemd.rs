//! What the service manager reports: state changes of units, and the set of
//! units that are watched.

use crate::state::{state_from_name, ServiceState};
use crate::text::str_eq;
use vstd::prelude::*;

verus! {

/// A unit was seen in a state.
#[derive(Debug, Clone)]
pub struct ServiceEvent {
    /// The unit's name.
    pub unit_name: String,
    /// The state it was seen in.
    pub state: ServiceState,
    /// When it was seen, in milliseconds since the Unix epoch.
    pub timestamp: u64,
}

impl ServiceEvent {
    /// The event that `unit_name` was seen in `state` at `timestamp`.
    pub fn new(unit_name: String, state: ServiceState, timestamp: u64) -> (event: ServiceEvent)
        ensures
            event.unit_name@ == unit_name@,
            event.state == state,
            event.timestamp == timestamp,
    {
        ServiceEvent { unit_name, state, timestamp }
    }
}

/// The state of a unit whose manager reports `active_state` and `load_state`:
/// a unit that was not found is in no known state, whatever else is reported.
pub open spec fn reported_state(active_state: Seq<char>, load_state: Seq<char>) -> ServiceState {
    if load_state == "not-found"@ {
        ServiceState::Unknown
    } else {
        state_from_name(active_state)
    }
}

/// The state of a unit from the two properties that its manager reports.
pub fn unit_state(active_state: &str, load_state: &str) -> (state: ServiceState)
    ensures
        state == reported_state(active_state@, load_state@),
{
    if str_eq(load_state, "not-found") {
        ServiceState::Unknown
    } else {
        ServiceState::from(active_state)
    }
}

/// The units that are watched, in the order in which they were first
/// subscribed to. No unit occurs twice.
#[derive(Debug, Clone)]
pub struct Subscriptions {
    units: Vec<String>,
}

/// Whether `units` holds `unit_name`.
pub open spec fn is_watched(units: Seq<Seq<char>>, unit_name: Seq<char>) -> bool {
    exists|i: int| 0 <= i < units.len() && #[trigger] units[i] == unit_name
}

/// No unit occurs twice.
pub open spec fn distinct_units(units: Seq<Seq<char>>) -> bool {
    forall|i: int, j: int| 0 <= i < j < units.len() ==> #[trigger] units[i] != #[trigger] units[j]
}

/// The units after a subscription to `unit_name`: one more at the end where
/// it is new, else the same.
pub open spec fn subscribed(units: Seq<Seq<char>>, unit_name: Seq<char>) -> Seq<Seq<char>> {
    if is_watched(units, unit_name) {
        units
    } else {
        units.push(unit_name)
    }
}

impl View for Subscriptions {
    type V = Seq<Seq<char>>;

    closed spec fn view(&self) -> Seq<Seq<char>> {
        Seq::new(self.units@.len(), |i: int| self.units@[i]@)
    }
}

impl Subscriptions {
    /// No unit occurs twice.
    pub open spec fn wf(&self) -> bool {
        distinct_units(self@)
    }

    /// No unit is watched yet.
    pub fn new() -> (s: Subscriptions)
        ensures
            s@ == Seq::<Seq<char>>::empty(),
            s.wf(),
    {
        let s = Subscriptions { units: Vec::new() };
        assert(s@ =~= Seq::<Seq<char>>::empty());
        s
    }

    /// How many units are watched.
    pub fn len(&self) -> (n: usize)
        ensures
            n == self@.len(),
    {
        self.units.len()
    }

    /// The unit that was subscribed to as number `i`.
    pub fn unit_at(&self, i: usize) -> (name: &str)
        requires
            i < self@.len(),
        ensures
            name@ == self@[i as int],
    {
        self.units[i].as_str()
    }

    /// The watched units, in the order in which they were subscribed to.
    pub fn units(&self) -> (names: Vec<String>)
        ensures
            names@.len() == self@.len(),
            forall|i: int| 0 <= i < names@.len() ==> (#[trigger] names@[i])@ == self@[i],
    {
        let mut names: Vec<String> = Vec::new();
        let mut i: usize = 0;
        while i < self.units.len()
            invariant
                i <= self.units@.len(),
                names@.len() == i,
                forall|j: int| 0 <= j < i ==> (#[trigger] names@[j])@ == self@[j],
            decreases self.units@.len() - i,
        {
            names.push(self.units[i].clone());
            i += 1;
        }
        names
    }

    /// Whether `unit_name` is watched.
    pub fn contains(&self, unit_name: &str) -> (watched: bool)
        ensures
            watched == is_watched(self@, unit_name@),
    {
        let mut i: usize = 0;
        while i < self.units.len()
            invariant
                i <= self.units@.len(),
                forall|j: int| 0 <= j < i ==> #[trigger] self@[j] != unit_name@,
            decreases self.units@.len() - i,
        {
            if str_eq(self.units[i].as_str(), unit_name) {
                assert(self@[i as int] == unit_name@);
                return true;
            }
            i += 1;
        }
        false
    }

    /// Watches `unit_name`. The result says whether it is new; a unit that is
    /// watched already is not added again.
    pub fn subscribe(&mut self, unit_name: &str) -> (added: bool)
        requires
            old(self).wf(),
        ensures
            final(self).wf(),
            added == !is_watched(old(self)@, unit_name@),
            final(self)@ == subscribed(old(self)@, unit_name@),
            is_watched(final(self)@, unit_name@),
    {
        if self.contains(unit_name) {
            return false;
        }
        let ghost before = self@;
        self.units.push(unit_name.to_owned());
        assert(self@ =~= before.push(unit_name@));
        assert(self@[before.len() as int] == unit_name@);
        true
    }
}

/// What the service manager answers when a query fails.
#[derive(Debug, Clone, PartialEq, Eq)]
pub struct QueryError {
    pub message: String,
}

/// The event for a unit whose state was asked for at `timestamp`: the state
/// that was answered, or the failure, which yields no event.
pub fn observe(unit_name: &str, answer: Result<ServiceState, QueryError>, timestamp: u64) -> (r:
    Result<ServiceEvent, QueryError>)
    ensures
        match answer {
            Ok(state) => {
                &&& r is Ok
                &&& r->Ok_0.unit_name@ == unit_name@
                &&& r->Ok_0.state == state
                &&& r->Ok_0.timestamp == timestamp
            },
            Err(e) => r == Err::<ServiceEvent, QueryError>(e),
        },
{
    match answer {
        Ok(state) => Ok(ServiceEvent::new(unit_name.to_owned(), state, timestamp)),
        Err(e) => Err(e),
    }
}

/// Subscribing twice to a unit leaves what subscribing once leaves.
pub proof fn lemma_subscribe_idempotent(units: Seq<Seq<char>>, unit_name: Seq<char>)
    ensures
        subscribed(subscribed(units, unit_name), unit_name) == subscribed(units, unit_name),
{
    if !is_watched(units, unit_name) {
        assert(units.push(unit_name)[units.len() as int] == unit_name);
    }
}

} // verus!
