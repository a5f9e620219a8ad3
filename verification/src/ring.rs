//! Privilege rings and the ring-based permission check.
use vstd::prelude::*;
use crate::text::owned;

verus! {

/// Privilege ring of an agent; a lower level is more privileged.
#[derive(Clone, Copy, Debug, PartialEq, Eq, Structural)]
pub enum PrivilegeRing {
    System,
    Trusted,
    Standard,
    Sandboxed,
}

impl PrivilegeRing {
    /// Position of the ring in the privilege order (0 = most privileged).
    pub open spec fn level(self) -> int {
        match self {
            PrivilegeRing::System => 0,
            PrivilegeRing::Trusted => 1,
            PrivilegeRing::Standard => 2,
            PrivilegeRing::Sandboxed => 3,
        }
    }

    /// Name of the ring, as it is printed.
    pub open spec fn name_spec(self) -> Seq<char> {
        match self {
            PrivilegeRing::System => "System"@,
            PrivilegeRing::Trusted => "Trusted"@,
            PrivilegeRing::Standard => "Standard"@,
            PrivilegeRing::Sandboxed => "Sandboxed"@,
        }
    }

    /// Position of the ring in the privilege order (0 = most privileged).
    pub fn rank(&self) -> (r: u8)
        ensures
            r == self.level(),
    {
        match self {
            PrivilegeRing::System => 0,
            PrivilegeRing::Trusted => 1,
            PrivilegeRing::Standard => 2,
            PrivilegeRing::Sandboxed => 3,
        }
    }

    /// `self <= other` in the ring order: `self` is at least as privileged.
    pub fn at_most(&self, other: &PrivilegeRing) -> (r: bool)
        ensures
            r == (self.level() <= other.level()),
    {
        self.rank() <= other.rank()
    }

    /// The ring with the given printed name.
    pub fn from_name(s: &str) -> (r: Option<PrivilegeRing>)
        ensures
            r matches Some(x) ==> x.name_spec() == s@,
            r is None ==> forall|x: PrivilegeRing| x.name_spec() != s@,
    {
        proof {
            reveal_strlit("System");
            reveal_strlit("Trusted");
            reveal_strlit("Standard");
            reveal_strlit("Sandboxed");
        }
        if crate::text::str_eq(s, "System") {
            Some(PrivilegeRing::System)
        } else if crate::text::str_eq(s, "Trusted") {
            Some(PrivilegeRing::Trusted)
        } else if crate::text::str_eq(s, "Standard") {
            Some(PrivilegeRing::Standard)
        } else if crate::text::str_eq(s, "Sandboxed") {
            Some(PrivilegeRing::Sandboxed)
        } else {
            proof {
                assert forall|x: PrivilegeRing| x.name_spec() != s@ by {
                    match x {
                        PrivilegeRing::System => {},
                        PrivilegeRing::Trusted => {},
                        PrivilegeRing::Standard => {},
                        PrivilegeRing::Sandboxed => {},
                    }
                }
            }
            None
        }
    }

    /// Name of the ring, as it is printed.
    pub fn name(&self) -> (r: String)
        ensures
            r@ == self.name_spec(),
    {
        match self {
            PrivilegeRing::System => owned("System"),
            PrivilegeRing::Trusted => owned("Trusted"),
            PrivilegeRing::Standard => owned("Standard"),
            PrivilegeRing::Sandboxed => owned("Sandboxed"),
        }
    }
}

/// Decides whether an agent's ring is sufficient for an action.
pub struct Enforcer;

/// Record of a refused action, as the enforcer reports it.
#[derive(Debug)]
pub struct DenyEvent {
    pub agent_did: String,
    pub agent_ring: PrivilegeRing,
    pub required_ring: PrivilegeRing,
    pub action: String,
}

impl Enforcer {
    /// An agent may execute an action when its ring is at least as
    /// privileged as the ring the action requires.
    pub fn can_execute(
        agent_did: &str,
        agent_ring: PrivilegeRing,
        required_ring: PrivilegeRing,
        action: &str,
    ) -> (r: bool)
        ensures
            r == (agent_ring.level() <= required_ring.level()),
    {
        agent_ring.at_most(&required_ring)
    }

    /// The event that is reported when `can_execute` refuses; `None` when
    /// it permits.
    pub fn deny_event(
        agent_did: &str,
        agent_ring: PrivilegeRing,
        required_ring: PrivilegeRing,
        action: &str,
    ) -> (r: Option<DenyEvent>)
        ensures
            r is None <==> agent_ring.level() <= required_ring.level(),
            r matches Some(e) ==> e.agent_did@ == agent_did@ && e.agent_ring == agent_ring
                && e.required_ring == required_ring && e.action@ == action@,
    {
        if Enforcer::can_execute(agent_did, agent_ring, required_ring, action) {
            None
        } else {
            Some(
                DenyEvent {
                    agent_did: owned(agent_did),
                    agent_ring,
                    required_ring,
                    action: owned(action),
                },
            )
        }
    }
}

} // verus!
