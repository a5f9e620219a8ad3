use agt::gateway::govern_tool_call_at;
use agt::identity::AgentIdentity;
use agt::policy_store::{MemoryPolicyStore, PolicyStore};
use agt::registry::{AgentRegistry, MemoryAgentRegistry};
use agt::audit::{ActionOutcome, DataCategory};
use agt::circuit_breaker::{CircuitBreaker, CircuitState};
use agt::clock::Timestamp;
use agt::compliance::{
    ActionRecord, BuiltinRule, ComplianceInput, ComplianceResult, ComplianceRule, ComplianceVerifier,
    GdprDataExportRule, SoxAuditImmutabilityRule,
};
use agt::gateway::{
    authenticate_headers, decide_tool_call, denial_record_at, permitted_record_at, policy_rate,
    require_ring, require_tool_name, RateLimiter, ToolCallStep,
};
use agt::governance::ToolArgs;
use agt::policy_store::McpPolicy;
use agt::ring::PrivilegeRing;
use agt::saga::SagaOrchestrator;
use agt::server::{
    attested_key_reply, discovery_alert_record_at, discovery_event_texts, execute_request_at,
    policy_reply, presence_did, shadow_report_access, signing_key_from_text, unregistered_presence,
    ApproveRequest, ExecuteRequest,
};
use agt::wire::{
    from_proto_category, from_proto_escalation_request, from_proto_ring, from_proto_timestamp,
    to_proto_category, to_proto_escalation_event, to_proto_ring, WireEscalationRequest, WireTimestamp,
};
use base64::Engine as _;
use std::time::Duration;
use agt::attestation::{AttestationClaim, SignedAttestation};

fn ts(secs: i64) -> Timestamp {
    Timestamp { secs, nanos: 0 }
}

fn b64(bytes: &[u8]) -> String {
    base64::engine::general_purpose::STANDARD.encode(bytes)
}

// ---- circuit breaker and saga ----

#[test]
fn circuit_opens_at_threshold_and_recovers() {
    let mut cb = CircuitBreaker::new(2, Duration::from_secs(3600));
    assert!(cb.is_allowed());
    cb.record_failure();
    assert_eq!(cb.current_state(), CircuitState::Closed);
    cb.record_failure();
    assert_eq!(cb.current_state(), CircuitState::Open);
    assert!(!cb.is_allowed());
    cb.record_success();
    assert_eq!(cb.current_state(), CircuitState::Closed);
    assert_eq!(cb.failure_count(), 0);
    assert!(cb.is_allowed());
}

#[test]
fn open_circuit_half_opens_after_timeout() {
    let mut cb = CircuitBreaker::new(1, Duration::from_secs(0));
    cb.record_failure();
    assert_eq!(cb.current_state(), CircuitState::Open);
    assert!(cb.is_allowed());
    assert_eq!(cb.current_state(), CircuitState::HalfOpen);
    assert!(cb.is_allowed());
}

#[test]
fn allow_after_compares_elapsed_with_reset_timeout() {
    let mut cb = CircuitBreaker::with_timeout_nanos(1, 10_000_000_000);
    assert!(cb.allow_after(0));
    cb.record_failure();
    assert_eq!(cb.current_state(), CircuitState::Open);
    assert!(!cb.allow_after(9_999_999_999));
    assert_eq!(cb.current_state(), CircuitState::Open);
    assert!(cb.allow_after(10_000_000_000));
    assert_eq!(cb.current_state(), CircuitState::HalfOpen);
}

#[test]
fn is_governed_method_only_tools_call() {
    assert!(agt::gateway::is_governed_method("tools/call"));
    assert!(!agt::gateway::is_governed_method("tools/list"));
    assert!(!agt::gateway::is_governed_method("Tools/Call"));
}

#[test]
fn saga_completes() {
    let saga = SagaOrchestrator::new();
    assert!(saga.execute_saga(vec!["a".to_string(), "b".to_string()]).is_ok());
}

// ---- compliance ----

fn input(action: &str, category: DataCategory, caps: &[&str], jurisdiction: Option<&str>, history: Vec<ActionRecord>) -> ComplianceInput {
    ComplianceInput {
        agent_did: "agent-1".to_string(),
        agent_ring: PrivilegeRing::Standard,
        agent_capabilities: caps.iter().map(|s| s.to_string()).collect(),
        action: action.to_string(),
        resource_category: category,
        action_history: history,
        jurisdiction: jurisdiction.map(|s| s.to_string()),
    }
}

#[test]
fn gdpr_rule_verdicts() {
    let rule = GdprDataExportRule;
    assert_eq!(rule.name(), "GDPR-001");
    assert!(matches!(rule.evaluate(&input("read", DataCategory::PersonalData, &[], None, vec![])), ComplianceResult::NotApplicable));
    assert!(matches!(rule.evaluate(&input("data_export", DataCategory::PersonalData, &[], Some("US"), vec![])), ComplianceResult::NotApplicable));
    assert!(matches!(rule.evaluate(&input("data_export", DataCategory::PersonalData, &["gdpr_data_processor"], None, vec![])), ComplianceResult::Compliant));
    match rule.evaluate(&input("data_export", DataCategory::PersonalData, &[], Some("EU"), vec![])) {
        ComplianceResult::Violation { rule, reason } => {
            assert_eq!(rule, "GDPR-001");
            assert_eq!(reason, "Agent lacks gdpr_data_processor capability for PersonalData export");
        }
        _ => panic!("expected a violation"),
    }
}

#[test]
fn sox_rule_blocks_audit_read_after_recent_write() {
    let rule = SoxAuditImmutabilityRule { isolation_window_secs: 86400 };
    let now = ts(1_700_000_000);
    let recent = ActionRecord { action: "write_ledger".to_string(), timestamp: ts(1_700_000_000 - 100), resource_category: DataCategory::FinancialRecord };
    let old = ActionRecord { action: "write_ledger".to_string(), timestamp: ts(1_700_000_000 - 90_000), resource_category: DataCategory::FinancialRecord };
    match rule.evaluate_at(&input("read", DataCategory::AuditLog, &[], None, vec![recent]), now) {
        ComplianceResult::Violation { rule, reason } => {
            assert_eq!(rule, "SOX-001");
            let window = format!("{:?}", chrono::Duration::hours(24));
            assert_eq!(reason, format!("Agent has recent write history within window ({}); audit log read denied", window));
        }
        _ => panic!("expected a violation"),
    }
    assert!(matches!(rule.evaluate_at(&input("read", DataCategory::AuditLog, &[], None, vec![old]), now), ComplianceResult::Compliant));
    assert!(matches!(rule.evaluate_at(&input("write", DataCategory::AuditLog, &[], None, vec![]), now), ComplianceResult::NotApplicable));
}

#[test]
fn default_policy_evaluates_both_rules() {
    let v = ComplianceVerifier::default_policy();
    let results = v.evaluate(&input("data_export", DataCategory::PersonalData, &[], None, vec![]));
    assert_eq!(results.len(), 2);
    assert!(!v.is_compliant(&input("data_export", DataCategory::PersonalData, &[], None, vec![])));
    assert!(v.is_compliant(&input("read", DataCategory::SystemConfig, &[], None, vec![])));
    assert!(matches!(v.rules[0], BuiltinRule::Gdpr(_)));
}

// ---- gateway ----

#[test]
fn header_authentication() {
    let e = authenticate_headers(None, Some("x".to_string())).unwrap_err();
    assert_eq!((e.status, e.message.as_str()), (401, "Missing X-AGT-Agent-DID"));
    let e = authenticate_headers(Some("d".to_string()), None).unwrap_err();
    assert_eq!((e.status, e.message.as_str()), (401, "Missing X-AGT-Signature"));
    let e = authenticate_headers(Some("d".to_string()), Some("%%".to_string())).unwrap_err();
    assert_eq!((e.status, e.message.as_str()), (400, "Invalid Base64 in signature"));
    let (did, sig) = authenticate_headers(Some("d".to_string()), Some(b64(b"sig"))).unwrap();
    assert_eq!(did, "d");
    assert_eq!(sig, b"sig".to_vec());
}

#[test]
fn rate_limiter_spacing() {
    let mut rl = RateLimiter::new();
    // 10 calls a second: 100 ms apart
    assert!(rl.check_at("a", 10, ts(100)));
    assert!(!rl.check_at("a", 10, Timestamp { secs: 100, nanos: 99_999_999 }));
    assert!(rl.check_at("a", 10, Timestamp { secs: 100, nanos: 100_000_000 }));
    // another agent is independent
    assert!(rl.check_at("b", 10, Timestamp { secs: 100, nanos: 100_000_001 }));
    // a rate of zero counts as one call a second
    assert!(rl.check_at("c", 0, ts(200)));
    assert!(!rl.check_at("c", 0, Timestamp { secs: 200, nanos: 999_999_999 }));
    assert!(rl.check_at("c", 0, ts(201)));
    // a rate above i32::MAX wraps to a negative interval: never limited
    assert!(rl.check_at("d", u32::MAX, ts(300)));
    assert!(rl.check_at("d", u32::MAX, ts(300)));
    assert!(rl.check("e", 1));
    assert!(!rl.check("e", 1));
}

#[test]
fn rate_interval_matches_chrono_division() {
    for rps in [1u32, 3, 7, 10, 1000, 2_000_000_000, 3_000_000_000, u32::MAX] {
        let d = chrono::Duration::seconds(1) / rps.max(1) as i32;
        let interval_nanos = d.num_nanoseconds().unwrap();
        let mut rl = RateLimiter::new();
        assert!(rl.check_at("a", rps, ts(1000)));
        // a call exactly `interval` later is allowed, one nanosecond earlier is not
        let base: i128 = 1000 * 1_000_000_000;
        let at = |n: i128| Timestamp { secs: (n.div_euclid(1_000_000_000)) as i64, nanos: n.rem_euclid(1_000_000_000) as u32 };
        if interval_nanos > 0 {
            let mut rl2 = RateLimiter::new();
            rl2.check_at("a", rps, ts(1000));
            assert!(!rl2.check_at("a", rps, at(base + interval_nanos as i128 - 1)));
            assert!(rl2.check_at("a", rps, at(base + interval_nanos as i128)));
        } else {
            assert!(rl.check_at("a", rps, ts(1000)));
        }
    }
}

#[test]
fn tool_call_lookups() {
    assert_eq!(require_tool_name(Some("t".to_string())).unwrap(), "t");
    let e = require_tool_name(None).unwrap_err();
    assert_eq!((e.status, e.message.as_str()), (400, "Missing tool name in tools/call"));
    assert_eq!(require_ring(Ok(Some(PrivilegeRing::Trusted)), "Agent not registered").unwrap(), PrivilegeRing::Trusted);
    let e = require_ring(Ok(None), "Agent not registered").unwrap_err();
    assert_eq!((e.status, e.message.as_str()), (401, "Agent not registered"));
    let e = require_ring(Err("db".to_string()), "Agent not registered").unwrap_err();
    assert_eq!((e.status, e.message.as_str()), (500, "db"));
    assert_eq!(policy_rate(&Ok(None)).unwrap(), 0);
    let p = McpPolicy { allowed_tools: vec![], denylist: vec![], allow_unknown_tools: false, max_requests_per_second: 7 };
    assert_eq!(policy_rate(&Ok(Some(p))).unwrap(), 7);
    assert_eq!(policy_rate(&Err("x".to_string())).unwrap_err().status, 500);
}

#[test]
fn gateway_tool_decisions() {
    let open = McpPolicy { allowed_tools: vec![], denylist: vec!["t".to_string()], allow_unknown_tools: true, max_requests_per_second: 1 };
    match decide_tool_call("did:mesh:a", PrivilegeRing::Standard, "t", &ToolArgs::new(), &Ok(Some(open)), ts(5)) {
        ToolCallStep::CheckCompliance { category } => assert_eq!(category, DataCategory::Unknown),
        other => panic!("unexpected {:?}", other),
    }
    let closed = McpPolicy::default();
    match decide_tool_call("did:mesh:a", PrivilegeRing::System, "t", &ToolArgs::new(), &Ok(Some(closed)), ts(5)) {
        ToolCallStep::Refuse { reason } => assert_eq!(reason, "Tool not registered in AGT mesh (fail-closed)"),
        other => panic!("unexpected {:?}", other),
    }
    match decide_tool_call("did:mesh:a", PrivilegeRing::System, "t", &ToolArgs::new(), &Err("down".to_string()), ts(5)) {
        ToolCallStep::Refuse { reason } => assert_eq!(reason, "Tool not registered in AGT mesh (fail-closed)"),
        other => panic!("unexpected {:?}", other),
    }
}

#[test]
fn gateway_records() {
    let r = denial_record_at(9, "did:mesh:a", "tool", "why", DataCategory::Unknown, ts(1));
    assert_eq!(r.record_id, 9);
    assert_eq!(r.action, "tool");
    assert_eq!(r.prev_hash, "");
    match r.outcome {
        ActionOutcome::Denied { rule, reason } => {
            assert_eq!(rule, "Governance");
            assert_eq!(reason, "why");
        }
        _ => panic!("expected a denial"),
    }
    let p = permitted_record_at(3, "did:mesh:a", "tool", DataCategory::AuditLog, ts(2));
    assert!(p.outcome.is_permitted());
    assert_eq!(p.resource_category, DataCategory::AuditLog);
}

#[test]
fn compliance_gate_refuses_violation() {
    let v = ComplianceVerifier::default_policy();
    let refused = agt::gateway::compliance_gate_at(&v, "did:mesh:a", PrivilegeRing::Standard, "data_export", DataCategory::PersonalData, vec![], ts(10), 4);
    let rec = refused.unwrap();
    match rec.outcome {
        ActionOutcome::Denied { reason, .. } => assert_eq!(reason, "Compliance violation detected"),
        _ => panic!("expected a denial"),
    }
    assert!(agt::gateway::compliance_gate_at(&v, "did:mesh:a", PrivilegeRing::Standard, "read", DataCategory::Unknown, vec![], ts(10), 4).is_none());
}

// ---- daemon ----

#[test]
fn request_body_types() {
    let a = ApproveRequest { approver_did: "did:mesh:admin".to_string(), signature: b64(b"xy") };
    assert_eq!(agt::server::approval_signature(&a).unwrap(), b"xy".to_vec());
    let bad = ApproveRequest { approver_did: "d".to_string(), signature: "*".to_string() };
    assert_eq!(agt::server::approval_signature(&bad).unwrap_err().status, 400);
    let p = agt::server::PresenceReport { name: "n".to_string(), address: "a".to_string() };
    assert_eq!(p.name, "n");
}

#[test]
fn presence_and_shadow_access() {
    assert_eq!(unregistered_presence("did:mesh:x", "Agent not registered").unwrap().unique_id, "x");
    assert!(unregistered_presence("did:mesh:x", "Invalid signature").is_none());
    assert!(unregistered_presence("bogus", "Agent not registered").is_none());
    assert!(shadow_report_access(Ok(Some(PrivilegeRing::System))).is_ok());
    let e = shadow_report_access(Ok(Some(PrivilegeRing::Trusted))).unwrap_err();
    assert_eq!((e.status, e.message.as_str()), (403, "Only System-ring agents can query shadows"));
    let e = shadow_report_access(Ok(None)).unwrap_err();
    assert_eq!((e.status, e.message.as_str()), (401, "Not registered"));
    assert_eq!(presence_did(Some("did:mesh:q".to_string())).unwrap().unique_id, "q");
    let e = presence_did(Some("did:x".to_string())).unwrap_err();
    assert_eq!((e.status, e.message.as_str()), (400, "Invalid DID format"));
    assert_eq!(presence_did(None).unwrap_err().status, 401);
}

#[test]
fn signing_key_text() {
    assert_eq!(signing_key_from_text(&b64(&[1u8; 32])).unwrap(), [1u8; 32]);
    let e = signing_key_from_text(&b64(&[1u8; 31])).unwrap_err();
    assert_eq!((e.status, e.message.as_str()), (400, "Invalid key length"));
    let e = signing_key_from_text("@@").unwrap_err();
    assert_eq!((e.status, e.message.as_str()), (400, "Invalid Base64"));
}

#[test]
fn attested_key_replies() {
    let att = || SignedAttestation {
        claim: AttestationClaim { subject_did: "d".to_string(), public_key_b64: "k".to_string(), issued_at: ts(0), expires_at: ts(1) },
        registry_did: "r".to_string(),
        signature_b64: "s".to_string(),
    };
    let r = attested_key_reply(Ok(Some([2u8; 32])), Ok(Some(att()))).unwrap().unwrap();
    assert_eq!(r.key_b64, b64(&[2u8; 32]));
    assert!(attested_key_reply(Ok(None), Ok(Some(att()))).unwrap().is_none());
    let e = attested_key_reply(Ok(None), Ok(None)).unwrap_err();
    assert_eq!((e.status, e.message.as_str()), (404, "Agent not in registry"));
    assert_eq!(attested_key_reply(Err("k".to_string()), Ok(None)).unwrap_err().message, "k");
}

#[test]
fn execute_request_logs_outcome() {
    let v = ComplianceVerifier::default_policy();
    let req = ExecuteRequest { action: "data_export".to_string(), resource_category: DataCategory::PersonalData, jurisdiction: None };
    let (resp, rec) = execute_request_at(&v, "did:mesh:a", PrivilegeRing::Standard, vec![], &req, ts(50), 1);
    assert!(!resp.success);
    assert_eq!(resp.results.len(), 2);
    match rec.outcome {
        ActionOutcome::Denied { rule, .. } => assert_eq!(rule, "GDPR-001"),
        _ => panic!("expected a denial"),
    }
    let us = ExecuteRequest { action: "data_export".to_string(), resource_category: DataCategory::PersonalData, jurisdiction: Some("US".to_string()) };
    let (resp, rec) = execute_request_at(&v, "did:mesh:a", PrivilegeRing::Standard, vec![], &us, ts(50), 2);
    assert!(resp.success);
    assert!(rec.outcome.is_permitted());
    assert_eq!(rec.record_id, 2);
}

#[test]
fn discovery_alerts_round_trip_through_log() {
    let mut log = agt::action_log::FileActionLog::new();
    log.append(discovery_alert_record_at(1, "did:mesh:s", "{\"Shadow\":1}".to_string(), ts(10)));
    log.append(denial_record_at(2, "did:mesh:s", "t", "r", DataCategory::Unknown, ts(11)));
    log.append(discovery_alert_record_at(3, "did:mesh:s", "{\"Shadow\":2}".to_string(), ts(12)));
    let texts = discovery_event_texts(log.appended());
    assert_eq!(texts, vec!["{\"Shadow\":1}".to_string(), "{\"Shadow\":2}".to_string()]);
    assert_eq!(log.appended()[0].action, "discovery_alert");
}

#[test]
fn policy_replies() {
    let r = policy_reply(Some("{}".to_string()));
    assert!(r.success);
    assert_eq!(r.policy_json, "{}");
    assert_eq!(r.error, "");
    let r = policy_reply(None);
    assert!(r.success);
    assert_eq!(r.policy_json, "");
    assert_eq!(r.error, "Policy not found");
}

// ---- wire ----

#[test]
fn ring_and_category_numbers() {
    for ring in [PrivilegeRing::System, PrivilegeRing::Trusted, PrivilegeRing::Standard, PrivilegeRing::Sandboxed] {
        assert_eq!(from_proto_ring(to_proto_ring(ring)).unwrap(), ring);
    }
    assert_eq!(to_proto_ring(PrivilegeRing::System), 1);
    assert_eq!(from_proto_ring(0).unwrap_err(), "Unknown PrivilegeRing");
    assert_eq!(from_proto_ring(5).unwrap_err(), "Unknown PrivilegeRing");
    for c in [DataCategory::PersonalData, DataCategory::FinancialRecord, DataCategory::AuditLog, DataCategory::SystemConfig, DataCategory::Unknown] {
        assert_eq!(from_proto_category(to_proto_category(c)), c);
    }
    assert_eq!(to_proto_category(DataCategory::Unknown), 0);
    assert_eq!(from_proto_category(-3), DataCategory::Unknown);
}

#[test]
fn wire_timestamps() {
    assert_eq!(from_proto_timestamp(WireTimestamp { seconds: 5, nanos: 7 }).unwrap(), Timestamp { secs: 5, nanos: 7 });
    assert_eq!(from_proto_timestamp(WireTimestamp { seconds: 5, nanos: -1 }).unwrap_err(), "Invalid timestamp");
    assert!(from_proto_timestamp(WireTimestamp { seconds: 59, nanos: 1_500_000_000 }).is_ok());
    assert!(from_proto_timestamp(WireTimestamp { seconds: i64::MAX, nanos: 0 }).is_err());
}

#[test]
fn wire_escalation_messages() {
    let req = WireEscalationRequest { agent_did: "d".to_string(), current_ring: 3, requested_ring: 2, reason: "r".to_string(), timestamp: Some(WireTimestamp { seconds: 1, nanos: 0 }) };
    let r = from_proto_escalation_request(req).unwrap();
    assert_eq!(r.current_ring, PrivilegeRing::Standard);
    assert_eq!(r.requested_ring, PrivilegeRing::Trusted);
    let missing = WireEscalationRequest { agent_did: "d".to_string(), current_ring: 3, requested_ring: 2, reason: "r".to_string(), timestamp: None };
    assert_eq!(from_proto_escalation_request(missing).unwrap_err(), "Missing timestamp");
    let bad_ring = WireEscalationRequest { agent_did: "d".to_string(), current_ring: 9, requested_ring: 2, reason: "r".to_string(), timestamp: None };
    assert_eq!(from_proto_escalation_request(bad_ring).unwrap_err(), "Unknown PrivilegeRing");

    let mut manager = agt::escalation::EscalationManager::new("k".to_string());
    let id = manager.request_escalation(r);
    let ev = manager.deny(id, "did:mesh:admin", "no".to_string()).unwrap();
    let w = to_proto_escalation_event(ev);
    assert_eq!(w.outcome, "Denied: no");
    assert_eq!(w.event_id, uuid::Uuid::from_u128(id).to_string());
    assert_eq!(w.from_ring, 3);
    assert_eq!(w.to_ring, 2);
}

#[test]
fn readme_circuit_breaker_opens_after_three_failures() {
    let mut breaker = CircuitBreaker::new(3, Duration::from_secs(5));
    breaker.record_failure();
    breaker.record_failure();
    breaker.record_failure();
    assert!(!breaker.is_allowed());
}

#[test]
fn verifier_over_one_rule_kind() {
    let v = ComplianceVerifier::new(vec![GdprDataExportRule]);
    let export = input("data_export", DataCategory::PersonalData, &[], None, vec![]);
    let results = v.evaluate_at(&export, ts(1_700_000_000));
    assert_eq!(results.len(), 1);
    assert!(results[0].is_violation());
    assert!(!v.is_compliant(&export));
    let builtin = BuiltinRule::Sox(SoxAuditImmutabilityRule { isolation_window_secs: 60 });
    assert_eq!(builtin.name(), "SOX-001");
}

#[test]
fn govern_tool_call_checks_in_order() {
    let mut reg = MemoryAgentRegistry::new([5u8; 32], "did:mesh:registry".to_string());
    let id = AgentIdentity::create("n".to_string(), "e".to_string(), vec![], None);
    reg.register(&id, PrivilegeRing::Standard).unwrap();
    let did = id.did.to_did_string();
    let mut store = MemoryPolicyStore::new();
    let mut limiter = RateLimiter::new();
    let args = ToolArgs::new();
    let t0 = Timestamp { secs: 1_700_000_000, nanos: 0 };

    let e = govern_tool_call_at(&mut limiter, &reg, &store, &did, None, &args, t0).err().unwrap();
    assert_eq!((e.status, e.message.as_str()), (400, "Missing tool name in tools/call"));
    let e = govern_tool_call_at(&mut limiter, &reg, &store, "did:mesh:nobody", Some("t".to_string()), &args, t0).err().unwrap();
    assert_eq!((e.status, e.message.as_str()), (401, "Agent not registered"));

    // no policy: rate of zero counts as one call a second, and the call is refused
    match govern_tool_call_at(&mut limiter, &reg, &store, &did, Some("t".to_string()), &args, t0) {
        Ok((tool, ring, ToolCallStep::Refuse { reason })) => {
            assert_eq!(tool, "t");
            assert_eq!(ring, PrivilegeRing::Standard);
            assert_eq!(reason, "Tool not registered in AGT mesh (fail-closed)");
        }
        _ => panic!("expected a refusal"),
    }
    let e = govern_tool_call_at(&mut limiter, &reg, &store, &did, Some("t".to_string()), &args, t0).err().unwrap();
    assert_eq!((e.status, e.message.as_str()), (429, "Rate limit exceeded"));

    store
        .save_policy(&did, McpPolicy { allowed_tools: vec![], denylist: vec![], allow_unknown_tools: true, max_requests_per_second: 10 })
        .unwrap();
    let t1 = Timestamp { secs: 1_700_000_001, nanos: 0 };
    match govern_tool_call_at(&mut limiter, &reg, &store, &did, Some("t".to_string()), &args, t1) {
        Ok((_, _, ToolCallStep::CheckCompliance { category })) => assert_eq!(category, DataCategory::Unknown),
        _ => panic!("expected the compliance check"),
    }
}

#[test]
fn new_breaker_holds_timeout_as_nanoseconds() {
    let mut cb = CircuitBreaker::new(1, Duration::from_millis(1500));
    cb.record_failure();
    assert!(!cb.allow_after(1_499_999_999));
    assert_eq!(cb.current_state(), CircuitState::Open);
    assert!(cb.allow_after(1_500_000_000));
    assert_eq!(cb.current_state(), CircuitState::HalfOpen);
}
