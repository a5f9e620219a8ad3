//! The wire form of the mesh's messages: enums as numbers with 0 for
//! unknown, instants as seconds and nanoseconds, and identifiers as text;
//! and the conversions between the wire form and the library's types.
use vstd::prelude::*;
use crate::attestation::{AttestationClaim, SignedAttestation};
use crate::audit::DataCategory;
use crate::clock::Timestamp;
use crate::codec::{uuid_text, uuid_to_text};
use crate::escalation::{EscalationEvent, EscalationOutcome, EscalationRequest};
use crate::identity::{strings_view, AgentDID, AgentIdentity};
use crate::ring::PrivilegeRing;
use crate::text::{concat2, owned};

verus! {

/// The wire number of a ring.
pub open spec fn ring_number(r: PrivilegeRing) -> i32 {
    match r {
        PrivilegeRing::System => 1,
        PrivilegeRing::Trusted => 2,
        PrivilegeRing::Standard => 3,
        PrivilegeRing::Sandboxed => 4,
    }
}

/// The wire number of a data category.
pub open spec fn category_number(c: DataCategory) -> i32 {
    match c {
        DataCategory::Unknown => 0,
        DataCategory::PersonalData => 1,
        DataCategory::FinancialRecord => 2,
        DataCategory::AuditLog => 3,
        DataCategory::SystemConfig => 4,
    }
}

/// The wire number of a ring.
pub fn to_proto_ring(ring: PrivilegeRing) -> (r: i32)
    ensures
        r == ring_number(ring),
{
    match ring {
        PrivilegeRing::System => 1,
        PrivilegeRing::Trusted => 2,
        PrivilegeRing::Standard => 3,
        PrivilegeRing::Sandboxed => 4,
    }
}

/// The ring with a wire number; any other number is refused.
pub fn from_proto_ring(ring: i32) -> (r: Result<PrivilegeRing, String>)
    ensures
        r matches Ok(x) ==> ring_number(x) == ring,
        r is Err <==> !(1 <= ring <= 4),
        r matches Err(e) ==> e@ == "Unknown PrivilegeRing"@,
{
    if ring == 1 {
        Ok(PrivilegeRing::System)
    } else if ring == 2 {
        Ok(PrivilegeRing::Trusted)
    } else if ring == 3 {
        Ok(PrivilegeRing::Standard)
    } else if ring == 4 {
        Ok(PrivilegeRing::Sandboxed)
    } else {
        Err(owned("Unknown PrivilegeRing"))
    }
}

/// The wire number of a data category.
pub fn to_proto_category(cat: DataCategory) -> (r: i32)
    ensures
        r == category_number(cat),
{
    match cat {
        DataCategory::PersonalData => 1,
        DataCategory::FinancialRecord => 2,
        DataCategory::AuditLog => 3,
        DataCategory::SystemConfig => 4,
        DataCategory::Unknown => 0,
    }
}

/// The data category with a wire number; any other number is `Unknown`.
pub fn from_proto_category(cat: i32) -> (r: DataCategory)
    ensures
        0 <= cat <= 4 ==> category_number(r) == cat,
        !(0 <= cat <= 4) ==> r == DataCategory::Unknown,
{
    if cat == 1 {
        DataCategory::PersonalData
    } else if cat == 2 {
        DataCategory::FinancialRecord
    } else if cat == 3 {
        DataCategory::AuditLog
    } else if cat == 4 {
        DataCategory::SystemConfig
    } else {
        DataCategory::Unknown
    }
}

/// An instant on the wire.
#[derive(Clone, Copy, Debug, PartialEq, Eq)]
pub struct WireTimestamp {
    pub seconds: i64,
    pub nanos: i32,
}

/// An instant in wire form.
pub fn to_proto_timestamp(t: Timestamp) -> (r: WireTimestamp)
    requires
        t.valid(),
    ensures
        r.seconds == t.secs,
        r.nanos == t.nanos,
{
    WireTimestamp { seconds: t.secs, nanos: t.nanos as i32 }
}

/// The instant of a wire timestamp, when it is a representable date-time.
pub fn from_proto_timestamp(ts: WireTimestamp) -> (r: Result<Timestamp, String>)
    ensures
        r matches Ok(t) ==> t.valid() && t.secs == ts.seconds && t.nanos == ts.nanos,
        r is Err <==> !(ts.nanos >= 0 && (Timestamp { secs: ts.seconds, nanos: ts.nanos as u32 }).valid()),
        r matches Err(e) ==> e@ == "Invalid timestamp"@,
{
    if ts.nanos < 0 {
        return Err(owned("Invalid timestamp"));
    }
    match Timestamp::from_parts(ts.seconds, ts.nanos as u32) {
        Some(t) => Ok(t),
        None => Err(owned("Invalid timestamp")),
    }
}

/// A DID on the wire.
#[derive(Debug)]
pub struct WireDid {
    pub method: String,
    pub unique_id: String,
}

/// A DID in wire form.
pub fn to_proto_did(did: AgentDID) -> (r: WireDid)
    ensures
        r.method@ == did.method@,
        r.unique_id@ == did.unique_id@,
{
    WireDid { method: did.method, unique_id: did.unique_id }
}

/// The DID of its wire form.
pub fn from_proto_did(did: WireDid) -> (r: AgentDID)
    ensures
        r.method@ == did.method@,
        r.unique_id@ == did.unique_id@,
{
    AgentDID { method: did.method, unique_id: did.unique_id }
}

/// An identity on the wire, with the ring it is registered in.
#[derive(Debug)]
pub struct WireIdentity {
    pub did: Option<WireDid>,
    pub name: String,
    pub public_key_b64: String,
    pub sponsor_email: String,
    pub capabilities: Vec<String>,
    pub ring: i32,
}

/// An identity in wire form; the private key, status, parent and
/// delegation depth are not sent.
pub fn to_proto_identity(id: AgentIdentity, ring: PrivilegeRing) -> (r: WireIdentity)
    ensures
        r.did matches Some(d) && d.method@ == id.did.method@ && d.unique_id@ == id.did.unique_id@,
        r.name@ == id.name@,
        r.public_key_b64@ == id.public_key@,
        r.sponsor_email@ == id.sponsor_email@,
        strings_view(r.capabilities@) == strings_view(id.capabilities@),
        r.ring == ring_number(ring),
{
    WireIdentity {
        did: Some(to_proto_did(id.did)),
        name: id.name,
        public_key_b64: id.public_key,
        sponsor_email: id.sponsor_email,
        capabilities: id.capabilities,
        ring: to_proto_ring(ring),
    }
}

/// The identity of its wire form: active, with no parent, no delegation
/// and no private key. An identity without a DID is refused.
pub fn from_proto_identity(id: WireIdentity) -> (r: Result<AgentIdentity, String>)
    ensures
        r is Ok <==> id.did is Some,
        r matches Err(e) ==> e@ == "Missing DID"@,
        r matches Ok(x) ==> id.did matches Some(d) && x.did.method@ == d.method@
            && x.did.unique_id@ == d.unique_id@ && x.name@ == id.name@ && x.public_key@
            == id.public_key_b64@ && x.sponsor_email@ == id.sponsor_email@ && strings_view(
            x.capabilities@,
        ) == strings_view(id.capabilities@) && x.status@ == "active"@ && x.parent_did is None
            && x.delegation_depth == 0 && x.private_key is None,
{
    let did = match id.did {
        Some(d) => from_proto_did(d),
        None => {
            return Err(owned("Missing DID"));
        },
    };
    Ok(
        AgentIdentity {
            did,
            name: id.name,
            public_key: id.public_key_b64,
            sponsor_email: id.sponsor_email,
            capabilities: id.capabilities,
            status: owned("active"),
            parent_did: None,
            delegation_depth: 0,
            private_key: None,
        },
    )
}

/// An attestation claim on the wire.
#[derive(Debug)]
pub struct WireClaim {
    pub subject_did: String,
    pub public_key_b64: String,
    pub issued_at: Option<WireTimestamp>,
    pub expires_at: Option<WireTimestamp>,
}

/// A signed attestation on the wire.
#[derive(Debug)]
pub struct WireAttestation {
    pub claim: Option<WireClaim>,
    pub registry_did: String,
    pub signature_b64: String,
}

/// An attestation in wire form.
pub fn to_proto_attestation(sa: SignedAttestation) -> (r: WireAttestation)
    requires
        sa.claim.issued_at.valid(),
        sa.claim.expires_at.valid(),
    ensures
        r.claim matches Some(c) && c.subject_did@ == sa.claim.subject_did@ && c.public_key_b64@
            == sa.claim.public_key_b64@ && c.issued_at == Some(
            WireTimestamp {
                seconds: sa.claim.issued_at.secs,
                nanos: sa.claim.issued_at.nanos as i32,
            },
        ) && c.expires_at == Some(
            WireTimestamp {
                seconds: sa.claim.expires_at.secs,
                nanos: sa.claim.expires_at.nanos as i32,
            },
        ),
        r.registry_did@ == sa.registry_did@,
        r.signature_b64@ == sa.signature_b64@,
{
    let c = sa.claim;
    WireAttestation {
        claim: Some(
            WireClaim {
                subject_did: c.subject_did,
                public_key_b64: c.public_key_b64,
                issued_at: Some(to_proto_timestamp(c.issued_at)),
                expires_at: Some(to_proto_timestamp(c.expires_at)),
            },
        ),
        registry_did: sa.registry_did,
        signature_b64: sa.signature_b64,
    }
}

/// The outcome of converting an optional wire instant: a missing one is
/// refused with `missing`, an invalid one as an invalid timestamp.
pub open spec fn wire_time_result(t: Option<WireTimestamp>, missing: Seq<char>) -> Result<
    Timestamp,
    Seq<char>,
> {
    match t {
        None => Err(missing),
        Some(w) => if w.nanos >= 0 && (Timestamp { secs: w.seconds, nanos: w.nanos as u32 }).valid() {
            Ok(Timestamp { secs: w.seconds, nanos: w.nanos as u32 })
        } else {
            Err("Invalid timestamp"@)
        },
    }
}

fn required_time(t: Option<WireTimestamp>, missing: &str) -> (r: Result<Timestamp, String>)
    ensures
        match wire_time_result(t, missing@) {
            Ok(x) => r == Ok::<Timestamp, String>(x),
            Err(e) => r matches Err(m) && m@ == e,
        },
{
    match t {
        None => Err(owned(missing)),
        Some(w) => from_proto_timestamp(w),
    }
}

/// The attestation of its wire form. A missing claim, a missing or
/// invalid instant are refused, in that order of the fields.
pub fn from_proto_attestation(sa: WireAttestation) -> (r: Result<SignedAttestation, String>)
    ensures
        sa.claim is None ==> (r matches Err(e) && e@ == "Missing claim"@),
        sa.claim matches Some(c) ==> match wire_time_result(c.issued_at, "Missing issued_at"@) {
            Err(e) => r matches Err(m) && m@ == e,
            Ok(i) => match wire_time_result(c.expires_at, "Missing expires_at"@) {
                Err(e) => r matches Err(m) && m@ == e,
                Ok(x) => r matches Ok(a) && a.claim.subject_did@ == c.subject_did@
                    && a.claim.public_key_b64@ == c.public_key_b64@ && a.claim.issued_at == i
                    && a.claim.expires_at == x && a.registry_did@ == sa.registry_did@
                    && a.signature_b64@ == sa.signature_b64@,
            },
        },
{
    let c = match sa.claim {
        Some(c) => c,
        None => {
            return Err(owned("Missing claim"));
        },
    };
    let issued_at = match required_time(c.issued_at, "Missing issued_at") {
        Ok(t) => t,
        Err(e) => {
            return Err(e);
        },
    };
    let expires_at = match required_time(c.expires_at, "Missing expires_at") {
        Ok(t) => t,
        Err(e) => {
            return Err(e);
        },
    };
    Ok(
        SignedAttestation {
            claim: AttestationClaim {
                subject_did: c.subject_did,
                public_key_b64: c.public_key_b64,
                issued_at,
                expires_at,
            },
            registry_did: sa.registry_did,
            signature_b64: sa.signature_b64,
        },
    )
}

/// An escalation request on the wire.
#[derive(Debug)]
pub struct WireEscalationRequest {
    pub agent_did: String,
    pub current_ring: i32,
    pub requested_ring: i32,
    pub reason: String,
    pub timestamp: Option<WireTimestamp>,
}

/// An escalation request in wire form.
pub fn to_proto_escalation_request(req: EscalationRequest) -> (r: WireEscalationRequest)
    requires
        req.timestamp.valid(),
    ensures
        r.agent_did@ == req.agent_did@,
        r.current_ring == ring_number(req.current_ring),
        r.requested_ring == ring_number(req.requested_ring),
        r.reason@ == req.reason@,
        r.timestamp == Some(
            WireTimestamp { seconds: req.timestamp.secs, nanos: req.timestamp.nanos as i32 },
        ),
{
    WireEscalationRequest {
        agent_did: req.agent_did,
        current_ring: to_proto_ring(req.current_ring),
        requested_ring: to_proto_ring(req.requested_ring),
        reason: req.reason,
        timestamp: Some(to_proto_timestamp(req.timestamp)),
    }
}

/// The escalation request of its wire form. Unknown ring numbers, then a
/// missing or invalid instant, are refused.
pub fn from_proto_escalation_request(req: WireEscalationRequest) -> (r: Result<
    EscalationRequest,
    String,
>)
    ensures
        !(1 <= req.current_ring <= 4) ==> (r matches Err(e) && e@ == "Unknown PrivilegeRing"@),
        1 <= req.current_ring <= 4 && !(1 <= req.requested_ring <= 4) ==> (r matches Err(e)
            && e@ == "Unknown PrivilegeRing"@),
        1 <= req.current_ring <= 4 && 1 <= req.requested_ring <= 4 ==> match wire_time_result(
            req.timestamp,
            "Missing timestamp"@,
        ) {
            Err(e) => r matches Err(m) && m@ == e,
            Ok(t) => r matches Ok(x) && x.agent_did@ == req.agent_did@ && ring_number(
                x.current_ring,
            ) == req.current_ring && ring_number(x.requested_ring) == req.requested_ring
                && x.reason@ == req.reason@ && x.timestamp == t,
        },
{
    let current_ring = match from_proto_ring(req.current_ring) {
        Ok(x) => x,
        Err(e) => {
            return Err(e);
        },
    };
    let requested_ring = match from_proto_ring(req.requested_ring) {
        Ok(x) => x,
        Err(e) => {
            return Err(e);
        },
    };
    let timestamp = match required_time(req.timestamp, "Missing timestamp") {
        Ok(t) => t,
        Err(e) => {
            return Err(e);
        },
    };
    Ok(
        EscalationRequest {
            agent_did: req.agent_did,
            current_ring,
            requested_ring,
            reason: req.reason,
            timestamp,
        },
    )
}

/// An escalation decision on the wire.
#[derive(Debug)]
pub struct WireEscalationEvent {
    pub event_id: String,
    pub agent_did: String,
    pub approver_did: String,
    pub from_ring: i32,
    pub to_ring: i32,
    pub outcome: String,
    pub reason: String,
    pub timestamp: Option<WireTimestamp>,
}

/// The text of an escalation outcome on the wire.
pub open spec fn outcome_text(cause: Option<Seq<char>>) -> Seq<char> {
    match cause {
        None => "Approved"@,
        Some(c) => "Denied: "@ + c,
    }
}

/// An escalation decision in wire form: the id as UUID text and the
/// outcome as `Approved` or `Denied: <cause>`.
pub fn to_proto_escalation_event(event: EscalationEvent) -> (r: WireEscalationEvent)
    requires
        event.timestamp.valid(),
    ensures
        r.event_id@ == uuid_text(event.event_id),
        r.agent_did@ == event.agent_did@,
        r.approver_did@ == event.approver_did@,
        r.from_ring == ring_number(event.from_ring),
        r.to_ring == ring_number(event.to_ring),
        r.outcome@ == outcome_text(
            match event.outcome {
                EscalationOutcome::Approved => None,
                EscalationOutcome::Denied { cause } => Some(cause@),
            },
        ),
        r.reason@ == event.reason@,
        r.timestamp == Some(
            WireTimestamp { seconds: event.timestamp.secs, nanos: event.timestamp.nanos as i32 },
        ),
{
    let outcome = match &event.outcome {
        EscalationOutcome::Approved => owned("Approved"),
        EscalationOutcome::Denied { cause } => concat2("Denied: ", cause.as_str()),
    };
    WireEscalationEvent {
        event_id: uuid_to_text(event.event_id),
        agent_did: event.agent_did,
        approver_did: event.approver_did,
        from_ring: to_proto_ring(event.from_ring),
        to_ring: to_proto_ring(event.to_ring),
        outcome,
        reason: event.reason,
        timestamp: Some(to_proto_timestamp(event.timestamp)),
    }
}

/// Converting a ring to its wire number and back gives the ring.
pub proof fn lemma_ring_number_round_trip(r: PrivilegeRing)
    ensures
        1 <= ring_number(r) <= 4,
        forall|x: PrivilegeRing| ring_number(x) == ring_number(r) ==> x == r,
{
}

/// Converting a category to its wire number and back gives the category.
pub proof fn lemma_category_number_round_trip(c: DataCategory)
    ensures
        0 <= category_number(c) <= 4,
        forall|x: DataCategory| category_number(x) == category_number(c) ==> x == c,
{
}

} // verus!
