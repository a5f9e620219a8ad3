//! Privilege escalation: agents ask for a more privileged ring, and a
//! System-ring approver grants the request by signing it, or denies it.
use vstd::prelude::*;
use vstd::utf8::encode_utf8;
use crate::attestation::{attestation_error, SignedAttestation, SignedAttestationView};
use crate::clock::{utc_now, Timestamp};
use crate::codec::{new_v4_id, uuid_text, uuid_to_text};
use crate::identity::{accepts_b64_key, verify_with_b64_key};
use crate::idmap::IdMap;
use crate::registry::{lookup_view, ring_lookup_view, AgentRegistry};
use crate::ring::PrivilegeRing;
use crate::text::{concat2, owned};

verus! {

/// A request by an agent to move to a more privileged ring.
#[derive(Debug)]
pub struct EscalationRequest {
    pub agent_did: String,
    pub current_ring: PrivilegeRing,
    pub requested_ring: PrivilegeRing,
    pub reason: String,
    pub timestamp: Timestamp,
}

pub ghost struct EscalationRequestView {
    pub agent_did: Seq<char>,
    pub current_ring: PrivilegeRing,
    pub requested_ring: PrivilegeRing,
    pub reason: Seq<char>,
    pub timestamp: Timestamp,
}

impl View for EscalationRequest {
    type V = EscalationRequestView;

    open spec fn view(&self) -> EscalationRequestView {
        EscalationRequestView {
            agent_did: self.agent_did@,
            current_ring: self.current_ring,
            requested_ring: self.requested_ring,
            reason: self.reason@,
            timestamp: self.timestamp,
        }
    }
}

impl EscalationRequest {
    /// A copy of the request.
    pub fn duplicate(&self) -> (r: EscalationRequest)
        ensures
            r@ == self@,
    {
        EscalationRequest {
            agent_did: self.agent_did.clone(),
            current_ring: self.current_ring,
            requested_ring: self.requested_ring,
            reason: self.reason.clone(),
            timestamp: self.timestamp,
        }
    }
}

/// How an escalation request ended.
#[derive(Debug)]
pub enum EscalationOutcome {
    Approved,
    Denied { cause: String },
}

pub ghost enum EscalationOutcomeView {
    Approved,
    Denied { cause: Seq<char> },
}

impl View for EscalationOutcome {
    type V = EscalationOutcomeView;

    open spec fn view(&self) -> EscalationOutcomeView {
        match self {
            EscalationOutcome::Approved => EscalationOutcomeView::Approved,
            EscalationOutcome::Denied { cause } => EscalationOutcomeView::Denied { cause: cause@ },
        }
    }
}

/// The record of a decision on an escalation request.
#[derive(Debug)]
pub struct EscalationEvent {
    pub event_id: u128,
    pub agent_did: String,
    pub approver_did: String,
    pub from_ring: PrivilegeRing,
    pub to_ring: PrivilegeRing,
    pub outcome: EscalationOutcome,
    pub reason: String,
    pub timestamp: Timestamp,
}

pub ghost struct EscalationEventView {
    pub event_id: u128,
    pub agent_did: Seq<char>,
    pub approver_did: Seq<char>,
    pub from_ring: PrivilegeRing,
    pub to_ring: PrivilegeRing,
    pub outcome: EscalationOutcomeView,
    pub reason: Seq<char>,
    pub timestamp: Timestamp,
}

impl View for EscalationEvent {
    type V = EscalationEventView;

    open spec fn view(&self) -> EscalationEventView {
        EscalationEventView {
            event_id: self.event_id,
            agent_did: self.agent_did@,
            approver_did: self.approver_did@,
            from_ring: self.from_ring,
            to_ring: self.to_ring,
            outcome: self.outcome@,
            reason: self.reason@,
            timestamp: self.timestamp,
        }
    }
}

/// The event recording a decision with the given outcome on `request`.
pub open spec fn decision_event(
    event_id: u128,
    request: EscalationRequestView,
    approver_did: Seq<char>,
    outcome: EscalationOutcomeView,
    now: Timestamp,
) -> EscalationEventView {
    EscalationEventView {
        event_id,
        agent_did: request.agent_did,
        approver_did,
        from_ring: request.current_ring,
        to_ring: request.requested_ring,
        outcome,
        reason: request.reason,
        timestamp: now,
    }
}

/// The text an approver signs to approve a request:
/// `<event id>:<agent DID>:<requested ring>`.
pub open spec fn approval_text(event_id: u128, agent_did: Seq<char>, requested_ring: PrivilegeRing) -> Seq<char> {
    uuid_text(event_id) + seq![':'] + agent_did + seq![':'] + requested_ring.name_spec()
}

/// The bytes an approver signs to approve a request (UTF-8 of the text).
pub open spec fn approval_bytes(event_id: u128, agent_did: Seq<char>, requested_ring: PrivilegeRing) -> Seq<u8> {
    encode_utf8(approval_text(event_id, agent_did, requested_ring))
}

/// The bytes an approver signs to approve a request.
pub fn approval_payload(event_id: u128, agent_did: &str, requested_ring: PrivilegeRing) -> (r: Vec<u8>)
    ensures
        r@ == approval_bytes(event_id, agent_did@, requested_ring),
{
    let mut text = uuid_to_text(event_id);
    text.append(":");
    proof {
        reveal_strlit(":");
    }
    text.append(agent_did);
    text.append(":");
    let name = requested_ring.name();
    text.append(name.as_str());
    assert(text@ =~= approval_text(event_id, agent_did@, requested_ring));
    text.as_str().as_bytes_vec()
}

/// Why only a System-ring agent may approve.
pub open spec fn cause_not_system() -> Seq<char> {
    "Only System-ring agents can approve escalation"@
}

/// Why a bad approval signature is refused.
pub open spec fn cause_bad_signature() -> Seq<char> {
    "Approval signature invalid"@
}

/// Why a request for a ring that is not more privileged is refused.
pub open spec fn cause_not_more_privileged() -> Seq<char> {
    "Requested ring must be more privileged"@
}

/// The decision on a pending request, given what the registry answered
/// for the approver's ring and attestation and the instant of the check.
/// Registry failures and missing entries are errors; a non-System approver,
/// a bad signature or a ring that is not more privileged give a denial
/// event; otherwise the request is approved.
pub open spec fn approval_outcome(
    event_id: u128,
    request: EscalationRequestView,
    approver_did: Seq<char>,
    signature: Seq<u8>,
    registry_pubkey: Seq<char>,
    ring_lookup: Result<Option<PrivilegeRing>, Seq<char>>,
    attestation_lookup: Result<Option<SignedAttestationView>, Seq<char>>,
    now: Timestamp,
) -> Result<EscalationEventView, Seq<char>> {
    match ring_lookup {
        Err(e) => Err(e),
        Ok(None) => Err("Approver DID not in registry"@),
        Ok(Some(ring)) => if ring != PrivilegeRing::System {
            Ok(
                decision_event(
                    event_id,
                    request,
                    approver_did,
                    EscalationOutcomeView::Denied { cause: cause_not_system() },
                    now,
                ),
            )
        } else {
            match attestation_lookup {
                Err(e) => Err(e),
                Ok(None) => Err("Approver attestation not found"@),
                Ok(Some(a)) => match attestation_error(a, registry_pubkey, now) {
                    Some(e) => Err("Registry attestation verification failed: "@ + e),
                    None => if !accepts_b64_key(
                        a.claim.public_key_b64,
                        approval_bytes(event_id, request.agent_did, request.requested_ring),
                        signature,
                    ) {
                        Ok(
                            decision_event(
                                event_id,
                                request,
                                approver_did,
                                EscalationOutcomeView::Denied { cause: cause_bad_signature() },
                                now,
                            ),
                        )
                    } else if request.requested_ring.level() >= request.current_ring.level() {
                        Ok(
                            decision_event(
                                event_id,
                                request,
                                approver_did,
                                EscalationOutcomeView::Denied { cause: cause_not_more_privileged() },
                                now,
                            ),
                        )
                    } else {
                        Ok(
                            decision_event(
                                event_id,
                                request,
                                approver_did,
                                EscalationOutcomeView::Approved,
                                now,
                            ),
                        )
                    },
                },
            }
        },
    }
}

/// The view of a decision result.
pub open spec fn event_result_view(r: Result<EscalationEvent, String>) -> Result<EscalationEventView, Seq<char>> {
    match r {
        Ok(e) => Ok(e@),
        Err(e) => Err(e@),
    }
}

/// The message of an unknown request identifier.
pub open spec fn not_found_message() -> Seq<char> {
    "Escalation request not found"@
}

/// Pending escalation requests, and the registry key that approvers'
/// attestations are checked against.
pub struct EscalationManager {
    pending: IdMap<EscalationRequest>,
    registry_pubkey: String,
}

/// The view of pending requests.
pub open spec fn requests_view(m: Map<u128, EscalationRequest>) -> Map<u128, EscalationRequestView> {
    m.map_values(|r: EscalationRequest| r@)
}

/// The event recording a decision on `request`.
fn make_event(
    event_id: u128,
    request: &EscalationRequest,
    approver_did: &str,
    outcome: EscalationOutcome,
    now: Timestamp,
) -> (r: EscalationEvent)
    ensures
        r@ == decision_event(event_id, request@, approver_did@, outcome@, now),
{
    EscalationEvent {
        event_id,
        agent_did: request.agent_did.clone(),
        approver_did: owned(approver_did),
        from_ring: request.current_ring,
        to_ring: request.requested_ring,
        outcome,
        reason: request.reason.clone(),
        timestamp: now,
    }
}

impl EscalationManager {
    /// A manager with no pending requests.
    pub fn new(registry_pubkey: String) -> (r: EscalationManager)
        ensures
            r.pending_view() == Map::<u128, EscalationRequestView>::empty(),
            r.registry_key() == registry_pubkey@,
    {
        let r = EscalationManager { pending: IdMap::new(), registry_pubkey };
        assert(r.pending_view() =~= Map::<u128, EscalationRequestView>::empty());
        r
    }

    /// Pending requests by identifier.
    pub closed spec fn pending_view(&self) -> Map<u128, EscalationRequestView> {
        requests_view(self.pending@)
    }

    /// The registry key (base64 text) that attestations are checked against.
    pub closed spec fn registry_key(&self) -> Seq<char> {
        self.registry_pubkey@
    }

    /// Records a request under a fresh random identifier, which it returns.
    pub fn request_escalation(&mut self, request: EscalationRequest) -> (r: u128)
        ensures
            final(self).pending_view() == old(self).pending_view().insert(r, request@),
            final(self).registry_key() == old(self).registry_key(),
    {
        let event_id = new_v4_id();
        self.pending.insert(event_id, request);
        assert(self.pending_view() =~= old(self).pending_view().insert(event_id, request@));
        event_id
    }

    /// Removes and returns a pending request.
    fn take_pending(&mut self, event_id: u128) -> (r: Option<EscalationRequest>)
        ensures
            final(self).pending_view() == old(self).pending_view().remove(event_id),
            final(self).registry_key() == old(self).registry_key(),
            r is Some <==> old(self).pending_view().contains_key(event_id),
            r matches Some(req) ==> req@ == old(self).pending_view()[event_id],
    {
        let r = self.pending.remove(event_id);
        assert(self.pending_view() =~= old(self).pending_view().remove(event_id));
        r
    }

    /// The decision on `request` (identifier `event_id`) by `approver_did`
    /// with `signature`, given the registry's answers for the approver's
    /// ring and attestation and the instant `now`.
    pub fn decide_approval(
        &self,
        event_id: u128,
        request: &EscalationRequest,
        approver_did: &str,
        signature: &[u8],
        ring_lookup: Result<Option<PrivilegeRing>, String>,
        attestation_lookup: Result<Option<SignedAttestation>, String>,
        now: Timestamp,
    ) -> (r: Result<EscalationEvent, String>)
        ensures
            event_result_view(r) == approval_outcome(
                event_id,
                request@,
                approver_did@,
                signature@,
                self.registry_key(),
                ring_lookup_view(ring_lookup),
                lookup_view(attestation_lookup),
                now,
            ),
    {
        let ring = match ring_lookup {
            Err(e) => {
                return Err(e);
            },
            Ok(None) => {
                return Err(owned("Approver DID not in registry"));
            },
            Ok(Some(ring)) => ring,
        };
        if ring != PrivilegeRing::System {
            let cause = owned("Only System-ring agents can approve escalation");
            return Ok(
                make_event(event_id, request, approver_did, EscalationOutcome::Denied { cause }, now),
            );
        }
        let attestation = match attestation_lookup {
            Err(e) => {
                return Err(e);
            },
            Ok(None) => {
                return Err(owned("Approver attestation not found"));
            },
            Ok(Some(a)) => a,
        };
        match attestation.verify_at(self.registry_pubkey.as_str(), now) {
            Err(e) => {
                return Err(concat2("Registry attestation verification failed: ", e.as_str()));
            },
            Ok(()) => {},
        }
        let payload = approval_payload(event_id, request.agent_did.as_str(), request.requested_ring);
        if !verify_with_b64_key(attestation.claim.public_key_b64.as_str(), payload.as_slice(), signature) {
            let cause = owned("Approval signature invalid");
            return Ok(
                make_event(event_id, request, approver_did, EscalationOutcome::Denied { cause }, now),
            );
        }
        if request.current_ring.at_most(&request.requested_ring) {
            let cause = owned("Requested ring must be more privileged");
            return Ok(
                make_event(event_id, request, approver_did, EscalationOutcome::Denied { cause }, now),
            );
        }
        Ok(make_event(event_id, request, approver_did, EscalationOutcome::Approved, now))
    }

    /// Decides a pending request: the request leaves the pending set
    /// whatever the outcome; the approver's ring and attestation are asked
    /// of the registry (the attestation only for a System-ring approver)
    /// and checked now.
    pub fn approve<R: AgentRegistry>(
        &mut self,
        event_id: u128,
        approver_did: &str,
        signature: &[u8],
        registry: &R,
    ) -> (r: Result<EscalationEvent, String>)
        ensures
            final(self).pending_view() == old(self).pending_view().remove(event_id),
            final(self).registry_key() == old(self).registry_key(),
            !old(self).pending_view().contains_key(event_id) ==> (r matches Err(e) && e@
                == not_found_message()),
            old(self).pending_view().contains_key(event_id) ==> exists|
                ring_lookup: Result<Option<PrivilegeRing>, Seq<char>>,
                attestation_lookup: Result<Option<SignedAttestationView>, Seq<char>>,
                now: Timestamp,
            |
                registry.ring_answer(approver_did@, ring_lookup) && (ring_lookup == Ok::<
                    Option<PrivilegeRing>,
                    Seq<char>,
                >(Some(PrivilegeRing::System)) ==> registry.attestation_answer(
                    approver_did@,
                    attestation_lookup,
                )) && now.valid() && event_result_view(r) == approval_outcome(
                    event_id,
                    old(self).pending_view()[event_id],
                    approver_did@,
                    signature@,
                    old(self).registry_key(),
                    ring_lookup,
                    attestation_lookup,
                    now,
                ),
    {
        let request = match self.take_pending(event_id) {
            Some(r) => r,
            None => {
                return Err(owned("Escalation request not found"));
            },
        };
        let ring_lookup = registry.get_ring(approver_did);
        let is_system = match &ring_lookup {
            Ok(Some(ring)) => *ring == PrivilegeRing::System,
            _ => false,
        };
        let attestation_lookup = if is_system {
            registry.get_attestation(approver_did)
        } else {
            Ok(None)
        };
        let now = utc_now();
        self.decide_approval(
            event_id,
            &request,
            approver_did,
            signature,
            ring_lookup,
            attestation_lookup,
            now,
        )
    }

    /// Denies a pending request explicitly, with the given cause.
    pub fn deny_at(&mut self, event_id: u128, approver_did: &str, cause: String, now: Timestamp) -> (r:
        Result<EscalationEvent, String>)
        ensures
            final(self).pending_view() == old(self).pending_view().remove(event_id),
            final(self).registry_key() == old(self).registry_key(),
            !old(self).pending_view().contains_key(event_id) ==> (r matches Err(e) && e@
                == not_found_message()),
            old(self).pending_view().contains_key(event_id) ==> (r matches Ok(ev) && ev@
                == decision_event(
                event_id,
                old(self).pending_view()[event_id],
                approver_did@,
                EscalationOutcomeView::Denied { cause: cause@ },
                now,
            )),
    {
        let request = match self.take_pending(event_id) {
            Some(r) => r,
            None => {
                return Err(owned("Escalation request not found"));
            },
        };
        Ok(make_event(event_id, &request, approver_did, EscalationOutcome::Denied { cause }, now))
    }

    /// Denies a pending request explicitly, now.
    pub fn deny(&mut self, event_id: u128, approver_did: &str, cause: String) -> (r: Result<
        EscalationEvent,
        String,
    >)
        ensures
            final(self).pending_view() == old(self).pending_view().remove(event_id),
            final(self).registry_key() == old(self).registry_key(),
            !old(self).pending_view().contains_key(event_id) ==> (r matches Err(e) && e@
                == not_found_message()),
            old(self).pending_view().contains_key(event_id) ==> exists|now: Timestamp|
                now.valid() && (r matches Ok(ev) && ev@ == decision_event(
                    event_id,
                    old(self).pending_view()[event_id],
                    approver_did@,
                    EscalationOutcomeView::Denied { cause: cause@ },
                    now,
                )),
    {
        let now = utc_now();
        self.deny_at(event_id, approver_did, cause, now)
    }

    /// Copies of the pending requests with their identifiers, each pending
    /// request once.
    pub fn pending_requests(&self) -> (r: Vec<(u128, EscalationRequest)>)
        ensures
            r@.len() == self.pending_view().len(),
            forall|i: int, j: int|
                0 <= i < r@.len() && 0 <= j < r@.len() && i != j ==> (#[trigger] r@[i]).0 != (
                #[trigger] r@[j]).0,
            forall|i: int|
                0 <= i < r@.len() ==> #[trigger] self.pending_view().contains_key(r@[i].0)
                    && self.pending_view()[r@[i].0] == r@[i].1@,
            forall|id: u128|
                #[trigger] self.pending_view().contains_key(id) ==> exists|i: int|
                    0 <= i < r@.len() && r@[i].0 == id,
    {
        let pairs = self.pending.as_pairs();
        let n = self.pending.len();
        proof {
            self.pending.lemma_view_of_pairs();
            assert(self.pending_view().dom() =~= self.pending@.dom());
        }
        let mut out: Vec<(u128, EscalationRequest)> = Vec::new();
        let mut i: usize = 0;
        while i < n
            invariant
                n == pairs@.len(),
                pairs@ == self.pending.pairs(),
                crate::idmap::ids_unique(pairs@),
                self.pending@ == crate::idmap::id_entries_map(pairs@),
                i <= n,
                out@.len() == i,
                forall|j: int| 0 <= j < i ==> (#[trigger] out@[j]).0 == pairs@[j].0 && out@[j].1@
                    == pairs@[j].1@,
            decreases n - i,
        {
            let (id, req) = &pairs[i];
            out.push((*id, req.duplicate()));
            i = i + 1;
        }
        proof {
            self.pending.lemma_view_of_pairs();
            assert forall|j: int| 0 <= j < out@.len() implies #[trigger] self.pending_view().contains_key(
                out@[j].0,
            ) && self.pending_view()[out@[j].0] == out@[j].1@ by {
                crate::idmap::lemma_id_entry_in_map(pairs@, j);
            }
            assert forall|id: u128| #[trigger]
                self.pending_view().contains_key(id) implies exists|j: int|
                0 <= j < out@.len() && out@[j].0 == id by {
                let j = crate::idmap::id_index(pairs@, id);
                assert(out@[j].0 == id);
            }
            assert forall|a: int, b: int|
                0 <= a < out@.len() && 0 <= b < out@.len() && a != b implies (#[trigger] out@[a]).0
                != (#[trigger] out@[b]).0 by {
                assert(out@[a].0 == pairs@[a].0);
                assert(out@[b].0 == pairs@[b].0);
            }
        }
        out
    }
}

/// The approver is System-ring, its attestation is accepted at `now`, its
/// signature over the approval payload is valid under the attested key, and
/// the requested ring is more privileged than the current one.
pub open spec fn approval_authorized(
    event_id: u128,
    request: EscalationRequestView,
    signature: Seq<u8>,
    registry_pubkey: Seq<char>,
    ring_lookup: Result<Option<PrivilegeRing>, Seq<char>>,
    attestation_lookup: Result<Option<SignedAttestationView>, Seq<char>>,
    now: Timestamp,
) -> bool {
    &&& ring_lookup == Ok::<Option<PrivilegeRing>, Seq<char>>(Some(PrivilegeRing::System))
    &&& attestation_lookup matches Ok(Some(a))
    &&& attestation_error(a, registry_pubkey, now) is None
    &&& accepts_b64_key(
        a.claim.public_key_b64,
        approval_bytes(event_id, request.agent_did, request.requested_ring),
        signature,
    )
    &&& request.requested_ring.level() < request.current_ring.level()
}

/// A pending request approved by a System-ring approver whose attestation
/// is accepted, with a valid signature over the approval payload, for a
/// more privileged ring, is approved; and an approval is only ever given in
/// that case.
pub proof fn lemma_approval_granted_exactly_when_authorized(
    event_id: u128,
    request: EscalationRequestView,
    approver_did: Seq<char>,
    signature: Seq<u8>,
    registry_pubkey: Seq<char>,
    ring_lookup: Result<Option<PrivilegeRing>, Seq<char>>,
    attestation_lookup: Result<Option<SignedAttestationView>, Seq<char>>,
    now: Timestamp,
)
    ensures
        ({
            let out = approval_outcome(
                event_id,
                request,
                approver_did,
                signature,
                registry_pubkey,
                ring_lookup,
                attestation_lookup,
                now,
            );
            (out matches Ok(ev) && ev.outcome == EscalationOutcomeView::Approved)
                <==> approval_authorized(
                event_id,
                request,
                signature,
                registry_pubkey,
                ring_lookup,
                attestation_lookup,
                now,
            )
        }),
{
}

/// Every decision event on a request carries the request's agent, rings
/// and reason, the approver, and the request's identifier.
pub proof fn lemma_decision_describes_request(
    event_id: u128,
    request: EscalationRequestView,
    approver_did: Seq<char>,
    signature: Seq<u8>,
    registry_pubkey: Seq<char>,
    ring_lookup: Result<Option<PrivilegeRing>, Seq<char>>,
    attestation_lookup: Result<Option<SignedAttestationView>, Seq<char>>,
    now: Timestamp,
)
    ensures
        approval_outcome(
            event_id,
            request,
            approver_did,
            signature,
            registry_pubkey,
            ring_lookup,
            attestation_lookup,
            now,
        ) matches Ok(ev) ==> ev.event_id == event_id && ev.agent_did == request.agent_did
            && ev.approver_did == approver_did && ev.from_ring == request.current_ring && ev.to_ring
            == request.requested_ring && ev.reason == request.reason,
{
}

} // verus!
