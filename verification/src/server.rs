//! The daemon's decisions on its requests: the request bodies it accepts,
//! who may read the shadow report, the compliance-checked execution of
//! an action, and the records the daemon adds to the action log.
use vstd::prelude::*;
use crate::audit::{ActionLogRecord, ActionLogRecordView, ActionOutcome, ActionOutcomeView, DataCategory};
use crate::clock::{utc_now, Timestamp};
use crate::codec::{base64_decode, is_b64_text, new_v4_id};
use crate::compliance::{
    all_compliant, lemma_outcome_permitted_iff_compliant, outcome_for_results, outcome_of_verdicts,
    results_view, verdicts, ActionRecord, ComplianceInput, ComplianceInputView, ComplianceResult,
    ComplianceResultView, ComplianceRule, ComplianceVerifier,
};
use crate::gateway::{clock_instant, history_view, is_error, GatewayError};
use crate::identity::{b64_decoded, is_b64_key, is_mesh_did, parse_did, AgentDID, AgentIdentity};
use crate::ring::PrivilegeRing;
use crate::text::{owned, str_eq};
use crate::attestation::SignedAttestation;
use crate::crypto::{ed25519_signature, sign_message};
use crate::codec::lemma_b64_roundtrip;

verus! {

/// A request to register an agent in a ring.
#[derive(Debug)]
pub struct RegisterRequest {
    pub identity: AgentIdentity,
    pub ring: PrivilegeRing,
}

/// An approval of an escalation request: the approver and its base64
/// signature over the approval payload.
#[derive(Debug)]
pub struct ApproveRequest {
    pub approver_did: String,
    pub signature: String,
}

/// An agent's report of its presence.
#[derive(Debug)]
pub struct PresenceReport {
    pub name: String,
    pub address: String,
}

/// A request to execute an action on data of a category.
#[derive(Debug)]
pub struct ExecuteRequest {
    pub action: String,
    pub resource_category: DataCategory,
    pub jurisdiction: Option<String>,
}

/// The answer to an execution request: whether it complied, and every
/// rule's verdict.
#[derive(Debug)]
pub struct ExecuteResponse {
    pub success: bool,
    pub results: Vec<ComplianceResult>,
}

fn error(status: u16, message: &str) -> (r: GatewayError)
    ensures
        is_error(r, status, message@),
{
    GatewayError { status, message: owned(message) }
}

/// The DID to report as seen passively when a request fails signature
/// verification because its signer is not registered: the header's DID
/// when it is a mesh DID, and nothing for any other failure.
pub fn unregistered_presence(did_header: &str, failure: &str) -> (r: Option<AgentDID>)
    ensures
        r is Some <==> failure@ == "Agent not registered"@ && is_mesh_did(did_header@),
        r matches Some(d) ==> d@.method == crate::identity::mesh_method() && d@.unique_id
            == did_header@.skip(9),
{
    if !str_eq(failure, "Agent not registered") {
        return None;
    }
    match parse_did(did_header) {
        Ok(d) => Some(d),
        Err(_) => None,
    }
}

/// Access for System-ring agents only, decided by the registry's answer
/// for the caller: an error is a server error (500), an unknown caller is
/// refused with `not_registered` (401), another ring with `forbidden`
/// (403).
pub fn system_ring_access(
    lookup: Result<Option<PrivilegeRing>, String>,
    not_registered: &str,
    forbidden: &str,
) -> (r: Result<(), GatewayError>)
    ensures
        lookup matches Ok(Some(x)) ==> (x == PrivilegeRing::System <==> r is Ok),
        lookup matches Ok(Some(x)) && x != PrivilegeRing::System ==> (r matches Err(e) && is_error(
            e,
            403,
            forbidden@,
        )),
        lookup matches Ok(None) ==> (r matches Err(e) && is_error(e, 401, not_registered@)),
        lookup matches Err(m) ==> (r matches Err(e) && is_error(e, 500, m@)),
{
    match lookup {
        Err(m) => Err(GatewayError { status: 500, message: m }),
        Ok(None) => Err(error(401, not_registered)),
        Ok(Some(ring)) => {
            if ring == PrivilegeRing::System {
                Ok(())
            } else {
                Err(error(403, forbidden))
            }
        },
    }
}

/// Only System-ring agents may read the shadow report (see
/// `system_ring_access`).
pub fn shadow_report_access(lookup: Result<Option<PrivilegeRing>, String>) -> (r: Result<
    (),
    GatewayError,
>)
    ensures
        lookup matches Ok(Some(x)) ==> (x == PrivilegeRing::System <==> r is Ok),
        lookup matches Ok(Some(x)) && x != PrivilegeRing::System ==> (r matches Err(e) && is_error(
            e,
            403,
            "Only System-ring agents can query shadows"@,
        )),
        lookup matches Ok(None) ==> (r matches Err(e) && is_error(e, 401, "Not registered"@)),
        lookup matches Err(m) ==> (r matches Err(e) && is_error(e, 500, m@)),
{
    system_ring_access(lookup, "Not registered", "Only System-ring agents can query shadows")
}

/// The DID of an agent reporting its presence, from its
/// `X-AGT-Agent-DID` header: a missing header is unauthorized, a DID that
/// is not a mesh DID is a bad request.
pub fn presence_did(header: Option<String>) -> (r: Result<AgentDID, GatewayError>)
    ensures
        header is None ==> (r matches Err(e) && is_error(e, 401, "Missing X-AGT-Agent-DID"@)),
        header matches Some(h) ==> (r is Ok <==> is_mesh_did(h@)),
        header is Some && r is Ok ==> r->Ok_0@.method == crate::identity::mesh_method()
            && r->Ok_0@.unique_id == header->Some_0@.skip(9),
        header is Some && r is Err ==> is_error(r->Err_0, 400, crate::identity::invalid_did_message()),
{
    match header {
        None => Err(error(401, "Missing X-AGT-Agent-DID")),
        Some(h) => match parse_did(h.as_str()) {
            Ok(d) => Ok(d),
            Err(m) => Err(GatewayError { status: 400, message: m }),
        },
    }
}

/// A stored signing key with the registry's attestation of its agent.
#[derive(Debug)]
pub struct AttestedKeyResponse {
    pub key_b64: String,
    pub attestation: SignedAttestation,
}

/// The answer to a request for an agent's key, from the key store's and
/// the registry's answers: an error of either is a server error, an agent
/// not in the registry is not found, and otherwise the key (if stored)
/// is sent as base64 text with the attestation.
pub fn attested_key_reply(
    key: Result<Option<[u8; 32]>, String>,
    attestation: Result<Option<SignedAttestation>, String>,
) -> (r: Result<Option<AttestedKeyResponse>, GatewayError>)
    ensures
        key matches Err(m) ==> (r matches Err(e) && is_error(e, 500, m@)),
        key is Ok && attestation is Err ==> (r matches Err(e) && is_error(
            e,
            500,
            attestation->Err_0@,
        )),
        key is Ok && attestation == Ok::<Option<SignedAttestation>, String>(None) ==> (r matches Err(
            e,
        ) && is_error(e, 404, "Agent not in registry"@)),
        key == Ok::<Option<[u8; 32]>, String>(None) && attestation is Ok && attestation->Ok_0 is Some
            ==> r matches Ok(None),
        key is Ok && key->Ok_0 is Some && attestation is Ok && attestation->Ok_0 is Some ==> (r matches Ok(
            Some(x),
        ) && x.key_b64@ == crate::codec::b64_encode(key->Ok_0->Some_0@) && x.attestation@
            == attestation->Ok_0->Some_0@),
{
    let k = match key {
        Err(m) => {
            return Err(GatewayError { status: 500, message: m });
        },
        Ok(k) => k,
    };
    let a = match attestation {
        Err(m) => {
            return Err(GatewayError { status: 500, message: m });
        },
        Ok(None) => {
            return Err(error(404, "Agent not in registry"));
        },
        Ok(Some(a)) => a,
    };
    match k {
        Some(bytes) => Ok(
            Some(
                AttestedKeyResponse {
                    key_b64: crate::codec::base64_encode(bytes.as_slice()),
                    attestation: a,
                },
            ),
        ),
        None => Ok(None),
    }
}

/// The base64 text of the Ed25519 signature of a request body under a
/// secret key: the value of a signed request's `X-AGT-Signature` header.
pub fn request_signature_b64(secret: &[u8; 32], body: &[u8]) -> (r: String)
    ensures
        r@ == crate::codec::b64_encode(ed25519_signature(secret@, body@)@),
{
    let sig = sign_message(secret, body);
    crate::codec::base64_encode(sig.as_slice())
}

/// The signature of an approval, from its base64 text; text that is not
/// base64 is a bad request, answered with the decoder's message.
pub fn approval_signature(req: &ApproveRequest) -> (r: Result<Vec<u8>, GatewayError>)
    ensures
        r is Ok <==> is_b64_text(req.signature@),
        r matches Ok(sig) ==> sig@ == b64_decoded(req.signature@),
        r matches Err(e) ==> e.status == 400,
{
    match base64_decode(req.signature.as_str()) {
        Ok(sig) => {
            proof {
                lemma_b64_roundtrip(b64_decoded(req.signature@), sig@);
            }
            Ok(sig)
        },
        Err(e) => Err(GatewayError { status: 400, message: crate::codec::decode_error_text(&e) }),
    }
}

/// A signing key sent as base64 text: text that is not base64, or does
/// not hold exactly 32 bytes, is a bad request.
pub fn signing_key_from_text(key_b64: &str) -> (r: Result<[u8; 32], GatewayError>)
    ensures
        r is Ok <==> is_b64_key(key_b64@),
        r matches Ok(k) ==> k@ == b64_decoded(key_b64@),
        !is_b64_text(key_b64@) ==> (r matches Err(e) && is_error(e, 400, "Invalid Base64"@)),
        is_b64_text(key_b64@) && !is_b64_key(key_b64@) ==> (r matches Err(e) && is_error(
            e,
            400,
            "Invalid key length"@,
        )),
{
    match base64_decode(key_b64) {
        Err(_) => Err(error(400, "Invalid Base64")),
        Ok(v) => {
            proof {
                lemma_b64_roundtrip(b64_decoded(key_b64@), v@);
            }
            if v.len() == 32 {
                Ok(crate::identity::bytes_to_array32(&v))
            } else {
                Err(error(400, "Invalid key length"))
            }
        },
    }
}

/// The compliance input of an execution request.
pub open spec fn execute_input(
    did: Seq<char>,
    ring: PrivilegeRing,
    history: Seq<crate::compliance::ActionRecordView>,
    action: Seq<char>,
    category: DataCategory,
    jurisdiction: Option<Seq<char>>,
) -> ComplianceInputView {
    ComplianceInputView {
        agent_did: did,
        agent_ring: ring,
        agent_capabilities: Seq::empty(),
        action,
        resource_category: category,
        action_history: history,
        jurisdiction,
    }
}

/// The logged outcome of an execution request with these verdicts:
/// permitted when they all comply, otherwise denied with the first
/// violation.
pub open spec fn execute_outcome(results: Seq<ComplianceResultView>) -> ActionOutcomeView {
    if all_compliant(results) {
        ActionOutcomeView::Permitted
    } else {
        outcome_of_verdicts(results)
    }
}

/// Executes a request of `did` in `ring` with its action history, at
/// `now`: every rule's verdict is answered, the request succeeds when
/// they all comply, and the returned record (identifier `record_id`)
/// is to be appended to the action log whatever the outcome.
pub fn execute_request_at<R: ComplianceRule>(
    verifier: &ComplianceVerifier<R>,
    did: &str,
    ring: PrivilegeRing,
    history: Vec<ActionRecord>,
    req: &ExecuteRequest,
    now: Timestamp,
    record_id: u128,
) -> (r: (ExecuteResponse, ActionLogRecord))
    ensures
        ({
            let input = execute_input(
                did@,
                ring,
                history_view(history@),
                req.action@,
                req.resource_category,
                crate::identity::opt_string_view(req.jurisdiction),
            );
            let v = verdicts(verifier.rules@, input, now);
            &&& results_view(r.0.results@) == v
            &&& r.0.success == all_compliant(v)
            &&& r.1@ == (ActionLogRecordView {
                record_id,
                agent_did: did@,
                action: req.action@,
                resource_category: req.resource_category,
                timestamp: now,
                outcome: execute_outcome(v),
                prev_hash: Seq::empty(),
            })
        }),
{
    let jurisdiction = match &req.jurisdiction {
        Some(j) => Some(j.clone()),
        None => None,
    };
    let input = ComplianceInput {
        agent_did: owned(did),
        agent_ring: ring,
        agent_capabilities: Vec::new(),
        action: req.action.clone(),
        resource_category: req.resource_category,
        action_history: history,
        jurisdiction,
    };
    assert(input@.agent_capabilities =~= Seq::<Seq<char>>::empty());
    let results = verifier.evaluate_at(&input, now);
    let compliant = verifier.is_compliant_at(&input, now);
    let outcome = if compliant {
        ActionOutcome::Permitted
    } else {
        match outcome_for_results(&results) {
            ActionOutcome::Permitted => ActionOutcome::Denied {
                rule: owned("Unknown"),
                reason: owned("Access denied"),
            },
            other => other,
        }
    };
    proof {
        lemma_outcome_permitted_iff_compliant(results_view(results@));
    }
    let record = ActionLogRecord {
        record_id,
        agent_did: owned(did),
        action: req.action.clone(),
        resource_category: req.resource_category,
        timestamp: now,
        outcome,
        prev_hash: String::new(),
    };
    assert(record@.prev_hash =~= Seq::<char>::empty());
    (ExecuteResponse { success: compliant, results }, record)
}

/// Executes a request now, under a fresh random record identifier (see
/// `execute_request_at`).
pub fn execute_request<R: ComplianceRule>(
    verifier: &ComplianceVerifier<R>,
    did: &str,
    ring: PrivilegeRing,
    history: Vec<ActionRecord>,
    req: &ExecuteRequest,
) -> (r: (ExecuteResponse, ActionLogRecord))
    ensures
        exists|now: Timestamp, id: u128|
            clock_instant(now) && #[trigger] execute_matches(
                verifier.rules@,
                did@,
                ring,
                history_view(history@),
                req.action@,
                req.resource_category,
                crate::identity::opt_string_view(req.jurisdiction),
                now,
                id,
                r.0.success,
                results_view(r.0.results@),
                r.1@,
            ),
{
    let ghost hv = history_view(history@);
    let now = utc_now();
    let id = new_v4_id();
    let r = execute_request_at(verifier, did, ring, history, req, now, id);
    assert(execute_matches(
        verifier.rules@,
        did@,
        ring,
        hv,
        req.action@,
        req.resource_category,
        crate::identity::opt_string_view(req.jurisdiction),
        now,
        id,
        r.0.success,
        results_view(r.0.results@),
        r.1@,
    ));
    r
}

/// The answer and record of an execution request at `now` under record
/// identifier `id`, as `execute_request_at` gives them.
pub open spec fn execute_matches<R: ComplianceRule>(
    rules: Seq<R>,
    did: Seq<char>,
    ring: PrivilegeRing,
    history: Seq<crate::compliance::ActionRecordView>,
    action: Seq<char>,
    category: DataCategory,
    jurisdiction: Option<Seq<char>>,
    now: Timestamp,
    id: u128,
    success: bool,
    results: Seq<ComplianceResultView>,
    record: ActionLogRecordView,
) -> bool {
    let v = verdicts(rules, execute_input(did, ring, history, action, category, jurisdiction), now);
    &&& results == v
    &&& success == all_compliant(v)
    &&& record == (ActionLogRecordView {
        record_id: id,
        agent_did: did,
        action,
        resource_category: category,
        timestamp: now,
        outcome: execute_outcome(v),
        prev_hash: Seq::empty(),
    })
}

/// The log record of a shadow-agent alert.
pub open spec fn discovery_alert_view(
    record_id: u128,
    did: Seq<char>,
    event_json: Seq<char>,
    now: Timestamp,
) -> ActionLogRecordView {
    ActionLogRecordView {
        record_id,
        agent_did: did,
        action: "discovery_alert"@,
        resource_category: DataCategory::Unknown,
        timestamp: now,
        outcome: ActionOutcomeView::DiscoveryEvent { event_json },
        prev_hash: Seq::empty(),
    }
}

/// The log record of a shadow-agent alert about `did`, carrying the
/// event's JSON text.
pub fn discovery_alert_record_at(record_id: u128, did: &str, event_json: String, now: Timestamp) -> (r:
    ActionLogRecord)
    ensures
        r@ == discovery_alert_view(record_id, did@, event_json@, now),
{
    let r = ActionLogRecord {
        record_id,
        agent_did: owned(did),
        action: owned("discovery_alert"),
        resource_category: DataCategory::Unknown,
        timestamp: now,
        outcome: ActionOutcome::DiscoveryEvent { event_json },
        prev_hash: String::new(),
    };
    assert(r@.prev_hash =~= Seq::<char>::empty());
    r
}

/// The log record of a shadow-agent alert, under a fresh random
/// identifier, now.
pub fn discovery_alert_record(did: &str, event_json: String) -> (r: ActionLogRecord)
    ensures
        exists|id: u128, now: Timestamp|
            clock_instant(now) && r@ == discovery_alert_view(id, did@, event_json@, now),
{
    let id = new_v4_id();
    let now = utc_now();
    discovery_alert_record_at(id, did, event_json, now)
}

/// The JSON texts of the discovery events among `records`, in order.
pub open spec fn discovery_events(records: Seq<ActionLogRecordView>) -> Seq<Seq<char>>
    decreases records.len(),
{
    if records.len() == 0 {
        Seq::empty()
    } else {
        let rest = discovery_events(records.drop_last());
        match records.last().outcome {
            ActionOutcomeView::DiscoveryEvent { event_json } => rest.push(event_json),
            _ => rest,
        }
    }
}

/// The JSON texts of all the discovery events among `records`, in order,
/// whatever their kind. A watcher of shadow alerts is replayed those of
/// them that are shadow alerts, which only parsing the text can tell.
pub fn discovery_event_texts(records: &Vec<ActionLogRecord>) -> (r: Vec<String>)
    ensures
        crate::identity::strings_view(r@) == discovery_events(
            crate::action_log::records_view(records@),
        ),
{
    let ghost all = crate::action_log::records_view(records@);
    let mut out: Vec<String> = Vec::new();
    let mut i: usize = 0;
    while i < records.len()
        invariant
            i <= records@.len(),
            all == crate::action_log::records_view(records@),
            crate::identity::strings_view(out@) == discovery_events(all.take(i as int)),
        decreases records@.len() - i,
    {
        assert(all.take(i + 1).drop_last() =~= all.take(i as int));
        assert(all.take(i + 1).last() == records@[i as int]@);
        match &records[i].outcome {
            ActionOutcome::DiscoveryEvent { event_json } => {
                out.push(event_json.clone());
                assert(crate::identity::strings_view(out@) =~= discovery_events(
                    all.take(i as int),
                ).push(event_json@));
            },
            _ => {},
        }
        i = i + 1;
    }
    assert(all.take(records@.len() as int) =~= all);
    out
}

/// The answer to a request for an agent's policy: its JSON text when it
/// has one, and otherwise an empty text with "Policy not found"; the
/// request succeeds either way.
#[derive(Debug)]
pub struct PolicyReply {
    pub success: bool,
    pub policy_json: String,
    pub error: String,
}

/// The answer to a request for an agent's policy, from the policy's JSON
/// text if the agent has one.
pub fn policy_reply(policy_json: Option<String>) -> (r: PolicyReply)
    ensures
        r.success,
        policy_json matches Some(j) ==> r.policy_json@ == j@ && r.error@.len() == 0,
        policy_json is None ==> r.policy_json@.len() == 0 && r.error@ == "Policy not found"@,
{
    match policy_json {
        Some(j) => PolicyReply { success: true, policy_json: j, error: String::new() },
        None => PolicyReply {
            success: true,
            policy_json: String::new(),
            error: owned("Policy not found"),
        },
    }
}

/// An execution request is logged whatever its outcome, and it succeeds
/// exactly when its record is logged as permitted.
pub proof fn lemma_execute_success_iff_permitted(results: Seq<ComplianceResultView>)
    ensures
        all_compliant(results) <==> execute_outcome(results) == ActionOutcomeView::Permitted,
        !all_compliant(results) ==> execute_outcome(results) is Denied,
{
    lemma_outcome_permitted_iff_compliant(results);
    if !all_compliant(results) {
        lemma_violation_gives_denied(results);
    }
}

proof fn lemma_violation_gives_denied(results: Seq<ComplianceResultView>)
    requires
        !all_compliant(results),
    ensures
        outcome_of_verdicts(results) is Denied,
    decreases results.len(),
{
    if results.len() > 0 && !(results[0] is Violation) {
        let j = choose|j: int| 0 <= j < results.len() && (#[trigger] results[j] is Violation);
        assert(results.drop_first()[j - 1] == results[j]);
        lemma_violation_gives_denied(results.drop_first());
    }
}

} // verus!
