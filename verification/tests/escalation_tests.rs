use agt::clock::Timestamp;
use agt::escalation::{approval_payload, EscalationManager, EscalationOutcome, EscalationRequest};
use agt::identity::AgentIdentity;
use agt::registry::{AgentRegistry, MemoryAgentRegistry};
use agt::ring::PrivilegeRing;
use base64::Engine as _;
use rand::RngCore;

fn generate_signing_key() -> [u8; 32] {
    let mut bytes = [0u8; 32];
    rand::thread_rng().fill_bytes(&mut bytes);
    bytes
}

fn public_key_b64(secret: &[u8; 32]) -> String {
    let key = ed25519_dalek::SigningKey::from_bytes(secret);
    base64::engine::general_purpose::STANDARD.encode(key.verifying_key().to_bytes())
}

fn signed_test_request() -> EscalationRequest {
    EscalationRequest {
        agent_did: "did:mesh:agent-1".to_string(),
        current_ring: PrivilegeRing::Standard,
        requested_ring: PrivilegeRing::Trusted,
        reason: "Signed test".to_string(),
        timestamp: now(),
    }
}

#[test]
fn test_escalation_signed_approval() {
    let registry_key = generate_signing_key();
    let registry_pubkey = public_key_b64(&registry_key);

    let mut registry = MemoryAgentRegistry::new(registry_key, "did:mesh:registry".to_string());

    // 1. Setup Approver (System ring)
    let approver = AgentIdentity::create("admin".to_string(), "admin@mesh".to_string(), vec![], None);
    registry.register(&approver, PrivilegeRing::System).unwrap();

    let mut manager = EscalationManager::new(registry_pubkey);

    let request = signed_test_request();
    let agent_did = request.agent_did.clone();
    let requested_ring = request.requested_ring;
    let id = manager.request_escalation(request);

    // 2. Sign approval
    let payload = approval_payload(id, &agent_did, requested_ring);
    let signature = approver.sign(&payload).unwrap();

    // 3. Approve with valid signature
    let result = manager.approve(id, &approver.did.to_did_string(), &signature, &registry).unwrap();
    assert!(matches!(result.outcome, EscalationOutcome::Approved));
}

#[test]
fn approval_by_non_system_ring_is_denied() {
    let registry_key = generate_signing_key();
    let registry_pubkey = public_key_b64(&registry_key);
    let mut registry = MemoryAgentRegistry::new(registry_key, "did:mesh:registry".to_string());
    let approver = AgentIdentity::create("bob".to_string(), "bob@mesh".to_string(), vec![], None);
    registry.register(&approver, PrivilegeRing::Standard).unwrap();
    let mut manager = EscalationManager::new(registry_pubkey);
    let id = manager.request_escalation(signed_test_request());
    let payload = approval_payload(id, "did:mesh:agent-1", PrivilegeRing::Trusted);
    let signature = approver.sign(&payload).unwrap();
    let event = manager.approve(id, &approver.did.to_did_string(), &signature, &registry).unwrap();
    match event.outcome {
        EscalationOutcome::Denied { cause } => assert_eq!(cause, "Only System-ring agents can approve escalation"),
        _ => panic!("expected a denial"),
    }
    // the request left the pending set whatever the outcome
    assert!(manager.pending_requests().is_empty());
}

#[test]
fn approval_with_wrong_signature_is_denied() {
    let registry_key = generate_signing_key();
    let registry_pubkey = public_key_b64(&registry_key);
    let mut registry = MemoryAgentRegistry::new(registry_key, "did:mesh:registry".to_string());
    let approver = AgentIdentity::create("admin".to_string(), "admin@mesh".to_string(), vec![], None);
    registry.register(&approver, PrivilegeRing::System).unwrap();
    let mut manager = EscalationManager::new(registry_pubkey);
    let id = manager.request_escalation(signed_test_request());
    // signature over a payload for another ring
    let payload = approval_payload(id, "did:mesh:agent-1", PrivilegeRing::System);
    let signature = approver.sign(&payload).unwrap();
    let event = manager.approve(id, &approver.did.to_did_string(), &signature, &registry).unwrap();
    match event.outcome {
        EscalationOutcome::Denied { cause } => assert_eq!(cause, "Approval signature invalid"),
        _ => panic!("expected a denial"),
    }
}

#[test]
fn approving_unknown_request_is_not_found() {
    let registry = MemoryAgentRegistry::new(generate_signing_key(), "did:mesh:registry".to_string());
    let mut manager = EscalationManager::new("key".to_string());
    let r = manager.approve(42, "did:mesh:x", &[0u8; 64], &registry);
    assert_eq!(r.unwrap_err(), "Escalation request not found");
}

#[test]
fn deny_records_cause() {
    let mut manager = EscalationManager::new("key".to_string());
    let id = manager.request_escalation(signed_test_request());
    assert_eq!(manager.pending_requests().len(), 1);
    let event = manager.deny(id, "did:mesh:admin", "too risky".to_string()).unwrap();
    match event.outcome {
        EscalationOutcome::Denied { cause } => assert_eq!(cause, "too risky"),
        _ => panic!("expected a denial"),
    }
    assert_eq!(event.from_ring, PrivilegeRing::Standard);
    assert_eq!(event.to_ring, PrivilegeRing::Trusted);
    assert!(manager.pending_requests().is_empty());
    assert!(manager.deny(id, "did:mesh:admin", "again".to_string()).is_err());
}

fn now() -> Timestamp {
    let t = chrono::Utc::now();
    Timestamp { secs: t.timestamp(), nanos: t.timestamp_subsec_nanos() }
}

#[test]
fn approval_by_unregistered_approver_is_an_error() {
    let registry = MemoryAgentRegistry::new(generate_signing_key(), "did:mesh:registry".to_string());
    let mut manager = EscalationManager::new("key".to_string());
    let id = manager.request_escalation(signed_test_request());
    let r = manager.approve(id, "did:mesh:nobody", &[0u8; 64], &registry);
    assert_eq!(r.unwrap_err(), "Approver DID not in registry");
}
