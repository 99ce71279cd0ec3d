//! The states a monitored unit can be in, and their names.

use crate::text::str_eq;
use vstd::prelude::*;

verus! {

/// The state of a monitored unit. A name that is none of the six known ones
/// reads as `Unknown`.
#[derive(Debug, Clone, Copy, PartialEq, Eq, Structural)]
pub enum ServiceState {
    Active,
    Inactive,
    Activating,
    Deactivating,
    Reloading,
    Failed,
    Unknown,
}

/// The state that a name stands for.
pub open spec fn state_from_name(name: Seq<char>) -> ServiceState {
    if name == "active"@ {
        ServiceState::Active
    } else if name == "inactive"@ {
        ServiceState::Inactive
    } else if name == "activating"@ {
        ServiceState::Activating
    } else if name == "deactivating"@ {
        ServiceState::Deactivating
    } else if name == "reloading"@ {
        ServiceState::Reloading
    } else if name == "failed"@ {
        ServiceState::Failed
    } else {
        ServiceState::Unknown
    }
}

/// The name under which a state is looked up in a colour table.
pub open spec fn state_name(state: ServiceState) -> Seq<char> {
    match state {
        ServiceState::Active => "active"@,
        ServiceState::Inactive => "inactive"@,
        ServiceState::Activating => "activating"@,
        ServiceState::Deactivating => "deactivating"@,
        ServiceState::Reloading => "reloading"@,
        ServiceState::Failed => "failed"@,
        ServiceState::Unknown => "unknown"@,
    }
}

impl ServiceState {
    /// The name under which this state is looked up in a colour table.
    pub fn name(&self) -> (s: &'static str)
        ensures
            s@ == state_name(*self),
    {
        match self {
            ServiceState::Active => "active",
            ServiceState::Inactive => "inactive",
            ServiceState::Activating => "activating",
            ServiceState::Deactivating => "deactivating",
            ServiceState::Reloading => "reloading",
            ServiceState::Failed => "failed",
            ServiceState::Unknown => "unknown",
        }
    }
}

impl From<&str> for ServiceState {
    fn from(state: &str) -> (s: ServiceState) {
        if str_eq(state, "active") {
            ServiceState::Active
        } else if str_eq(state, "inactive") {
            ServiceState::Inactive
        } else if str_eq(state, "activating") {
            ServiceState::Activating
        } else if str_eq(state, "deactivating") {
            ServiceState::Deactivating
        } else if str_eq(state, "reloading") {
            ServiceState::Reloading
        } else if str_eq(state, "failed") {
            ServiceState::Failed
        } else {
            ServiceState::Unknown
        }
    }
}

impl vstd::std_specs::convert::FromSpecImpl<&str> for ServiceState {
    open spec fn obeys_from_spec() -> bool {
        true
    }

    open spec fn from_spec(state: &str) -> ServiceState {
        state_from_name(state@)
    }
}

/// Every state but `Unknown` is read back from its own name; `Unknown` is too,
/// as its name is none of the six known ones.
pub proof fn lemma_state_name_round_trip(state: ServiceState)
    ensures
        state_from_name(state_name(state)) == state,
{
    reveal_strlit("active");
    reveal_strlit("inactive");
    reveal_strlit("activating");
    reveal_strlit("deactivating");
    reveal_strlit("reloading");
    reveal_strlit("failed");
    reveal_strlit("unknown");
    assert("active"@.len() == 6 && "active"@[0] == 'a');
    assert("inactive"@.len() == 8);
    assert("activating"@.len() == 10);
    assert("deactivating"@.len() == 12);
    assert("reloading"@.len() == 9);
    assert("failed"@.len() == 6 && "failed"@[0] == 'f');
    assert("unknown"@.len() == 7);
}

} // verus!
