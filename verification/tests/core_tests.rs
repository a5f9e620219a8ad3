use agt::attestation::{AttestationClaim, SignedAttestation};
use agt::audit::{ActionLogRecord, ActionOutcome, DataCategory};
use agt::clock::{Timestamp, MAX_TIMESTAMP_SECS, MIN_TIMESTAMP_SECS};
use agt::identity::{decode_key32, parse_did, AgentDID, AgentIdentity};
use base64::Engine as _;
use sha2::Digest;
use agt::keystore::{KeyStore, MemoryKeyStore};
use agt::registry::{check_request_signature, verify_request_signature, AgentRegistry, MemoryAgentRegistry};
use agt::ring::{Enforcer, PrivilegeRing};
use ed25519_dalek::Signer;

fn now() -> Timestamp {
    let t = chrono::Utc::now();
    Timestamp { secs: t.timestamp(), nanos: t.timestamp_subsec_nanos() }
}

fn b64(bytes: &[u8]) -> String {
    base64::engine::general_purpose::STANDARD.encode(bytes)
}

fn dalek_public_b64(secret: &[u8; 32]) -> String {
    b64(&ed25519_dalek::SigningKey::from_bytes(secret).verifying_key().to_bytes())
}

#[test]
fn policy_file_is_named_by_sha256_hex() {
    let store = agt::policy_store::FilePolicyStore::new("/tmp/policies".to_string());
    assert_eq!(
        store.get_path("did:mesh:test-agent"),
        "/tmp/policies/6a7c5f4e3fb714061b0de556fb67257128268f2d970315aebf084c77c12e662e.json"
    );
}

#[test]
fn key_text_decoding() {
    let key = [9u8; 32];
    assert_eq!(decode_key32(&b64(&key)), Some(key));
    assert_eq!(decode_key32(&b64(b"short")), None);
    assert_eq!(decode_key32("aGVsbG8"), None);
    assert_eq!(decode_key32("!!!!"), None);
}

#[test]
fn request_signature_header_is_dalek_signature() {
    let secret = [7u8; 32];
    let expected = b64(&ed25519_dalek::SigningKey::from_bytes(&secret).sign(b"payload").to_bytes());
    assert_eq!(agt::server::request_signature_b64(&secret, b"payload"), expected);
}

#[test]
fn timestamp_validity_bounds_match_chrono() {
    assert!(chrono::DateTime::from_timestamp(MAX_TIMESTAMP_SECS, 0).is_some());
    assert!(chrono::DateTime::from_timestamp(MAX_TIMESTAMP_SECS + 1, 0).is_none());
    assert!(chrono::DateTime::from_timestamp(MIN_TIMESTAMP_SECS, 0).is_some());
    assert!(chrono::DateTime::from_timestamp(MIN_TIMESTAMP_SECS - 1, 0).is_none());
    assert!(Timestamp::from_parts(MAX_TIMESTAMP_SECS, 0).is_some());
    assert!(Timestamp::from_parts(MAX_TIMESTAMP_SECS + 1, 0).is_none());
    assert!(Timestamp::from_parts(59, 1_500_000_000).is_some());
    assert!(Timestamp::from_parts(58, 1_500_000_000).is_none());
    assert!(Timestamp::from_parts(59, 2_000_000_000).is_none());
    assert!(now().is_valid());
}

#[test]
fn rfc3339_text_matches_serde_of_chrono() {
    for (s, n) in [(0i64, 0u32), (1_700_000_000, 123_000_000), (1_700_000_000, 5)] {
        let dt = chrono::DateTime::from_timestamp(s, n).unwrap();
        let serde_text = serde_json::to_string(&dt).unwrap();
        let claim = AttestationClaim {
            subject_did: String::new(),
            public_key_b64: String::new(),
            issued_at: Timestamp { secs: s, nanos: n },
            expires_at: Timestamp { secs: s, nanos: n },
        };
        let text = SignedAttestation::canonical_text(&claim);
        let expected = format!(
            "{{\"subject_did\":\"\",\"public_key_b64\":\"\",\"issued_at\":{},\"expires_at\":{}}}",
            serde_text, serde_text
        );
        assert_eq!(text, expected);
    }
}

#[test]
fn data_category_names_and_parsing() {
    assert_eq!(DataCategory::from_str("PII"), Ok(DataCategory::PersonalData));
    assert_eq!(DataCategory::from_str("financial_record"), Ok(DataCategory::FinancialRecord));
    assert_eq!(DataCategory::from_str("AuditLog"), Ok(DataCategory::AuditLog));
    assert_eq!(DataCategory::from_str("system_config"), Ok(DataCategory::SystemConfig));
    assert_eq!(DataCategory::from_str("unknown"), Ok(DataCategory::Unknown));
    assert_eq!(DataCategory::from_str("Weird"), Err("Unknown data category: Weird".to_string()));
    assert_eq!(DataCategory::SystemConfig.name(), "SystemConfig");
    // the name is lower-cased by Unicode rules before it is matched
    assert_eq!(DataCategory::from_str("AUDİT_LOG").is_err(), true);
    assert_eq!(DataCategory::from_str("SYSTEMCONFIG"), Ok(DataCategory::SystemConfig));
}

#[test]
fn record_canonical_text_is_serde_layout() {
    let r = ActionLogRecord {
        record_id: 0,
        agent_did: "agent-1".to_string(),
        action: "read".to_string(),
        resource_category: DataCategory::PersonalData,
        timestamp: Timestamp { secs: 0, nanos: 0 },
        outcome: ActionOutcome::Denied { rule: "R\"1".to_string(), reason: "no".to_string() },
        prev_hash: "x".to_string(),
    };
    assert_eq!(
        r.canonical_text(),
        "{\"record_id\":\"00000000-0000-0000-0000-000000000000\",\"agent_did\":\"agent-1\",\"action\":\"read\",\"resource_category\":\"PersonalData\",\"timestamp\":\"1970-01-01T00:00:00Z\",\"outcome\":{\"Denied\":{\"rule\":\"R\\\"1\",\"reason\":\"no\"}}}"
    );
    let digest = sha2::Sha256::digest(r.canonical_text().as_bytes());
    assert_eq!(r.compute_hash(), hex::encode(digest));
    assert_eq!(r.canonical_bytes(), r.canonical_text().into_bytes());
}

#[test]
fn did_text_and_parsing() {
    let d = AgentDID { method: "mesh".to_string(), unique_id: "abc".to_string() };
    assert_eq!(d.to_did_string(), "did:mesh:abc");
    let p = parse_did("did:mesh:abc").unwrap();
    assert_eq!(p.unique_id, "abc");
    assert_eq!(parse_did("did:web:abc").unwrap_err(), "Invalid DID format");
    assert!(parse_did("did:mesh:a:b").is_err());
    assert!(AgentDID::from_str("did:mesh").is_err());
}

#[test]
fn identity_signs_and_verifies() {
    let id = AgentIdentity::create("n".to_string(), "e@x".to_string(), vec!["c".to_string()], None);
    assert!(id.did.to_did_string().starts_with("did:mesh:"));
    assert_eq!(id.did.unique_id.len(), 32);
    let sig = id.sign(b"msg").unwrap();
    assert!(id.verify_signature(b"msg", &sig));
    assert!(!id.verify_signature(b"msg2", &sig));
}

#[test]
fn identity_from_secret_is_deterministic() {
    let a = AgentIdentity::from_secret_key([1u8; 32], "a".to_string(), "e".to_string(), vec![], None);
    let b = AgentIdentity::from_secret_key([1u8; 32], "b".to_string(), "f".to_string(), vec![], None);
    assert_eq!(a.did.to_did_string(), b.did.to_did_string());
    assert_eq!(a.public_key, dalek_public_b64(&[1u8; 32]));
}

#[test]
fn create_in_store_saves_key() {
    let mut store = MemoryKeyStore::new();
    let id = AgentIdentity::create_in_store("n".to_string(), "e".to_string(), vec![], None, &mut store).unwrap();
    let key = store.load_key(&id.did.to_did_string()).unwrap().unwrap();
    assert_eq!(dalek_public_b64(&key), id.public_key);
    store.delete_key(&id.did.to_did_string()).unwrap();
    assert!(store.load_key(&id.did.to_did_string()).unwrap().is_none());
}

#[test]
fn enforcer_ring_order() {
    assert!(Enforcer::can_execute("a", PrivilegeRing::System, PrivilegeRing::Standard, "x"));
    assert!(Enforcer::can_execute("a", PrivilegeRing::Standard, PrivilegeRing::Standard, "x"));
    assert!(!Enforcer::can_execute("a", PrivilegeRing::Sandboxed, PrivilegeRing::Trusted, "x"));
    let ev = Enforcer::deny_event("a", PrivilegeRing::Sandboxed, PrivilegeRing::Trusted, "x").unwrap();
    assert_eq!(ev.action, "x");
    assert!(Enforcer::deny_event("a", PrivilegeRing::System, PrivilegeRing::Trusted, "x").is_none());
    assert_eq!(PrivilegeRing::Trusted.name(), "Trusted");
}

fn registry_with(secret: [u8; 32]) -> (MemoryAgentRegistry, AgentIdentity) {
    let mut reg = MemoryAgentRegistry::new(secret, "did:mesh:registry".to_string());
    let id = AgentIdentity::create("n".to_string(), "e".to_string(), vec![], None);
    reg.register(&id, PrivilegeRing::Standard).unwrap();
    (reg, id)
}

#[test]
fn registry_attestation_verifies_until_expiry() {
    let secret = [3u8; 32];
    let (reg, id) = registry_with(secret);
    let did = id.did.to_did_string();
    assert_eq!(reg.get_ring(&did).unwrap(), Some(PrivilegeRing::Standard));
    assert!(reg.is_registered(&did).unwrap());
    assert!(!reg.is_registered("did:mesh:nobody").unwrap());
    let now = Timestamp { secs: 1_700_000_000, nanos: 0 };
    let att = reg.get_attestation_at(&did, now).unwrap();
    assert_eq!(att.claim.expires_at.secs, 1_700_000_000 + 86_400);
    let key = reg.public_key_b64();
    assert_eq!(att.verify_at(&key, now), Ok(()));
    let later = Timestamp { secs: 1_700_000_000 + 86_401, nanos: 0 };
    assert_eq!(att.verify_at(&key, later), Err("Attestation expired".to_string()));
    let other = MemoryAgentRegistry::new([4u8; 32], "x".to_string()).public_key_b64();
    assert_eq!(att.verify_at(&other, now), Err("Attestation signature invalid".to_string()));
    assert_eq!(att.verify_at("not base64", now), Err("Invalid registry public key".to_string()));
    assert!(reg.get_attestation_at("did:mesh:nobody", now).is_none());
}

#[test]
fn attestation_bad_signature_encoding() {
    let claim = AttestationClaim {
        subject_did: "d".to_string(),
        public_key_b64: "k".to_string(),
        issued_at: Timestamp { secs: 0, nanos: 0 },
        expires_at: Timestamp { secs: 10, nanos: 0 },
    };
    let key = MemoryAgentRegistry::new([4u8; 32], "x".to_string()).public_key_b64();
    let sa = SignedAttestation { claim, registry_did: "r".to_string(), signature_b64: "%%".to_string() };
    assert_eq!(sa.verify_at(&key, Timestamp { secs: 1, nanos: 0 }), Err("Invalid attestation signature encoding".to_string()));
    let sa2 = SignedAttestation { signature_b64: b64(b"short"), ..sa };
    assert_eq!(sa2.verify_at(&key, Timestamp { secs: 1, nanos: 0 }), Err("Invalid attestation signature length".to_string()));
    assert_eq!(
        SignedAttestation::canonical_text(&sa2.claim),
        "{\"subject_did\":\"d\",\"public_key_b64\":\"k\",\"issued_at\":\"1970-01-01T00:00:00Z\",\"expires_at\":\"1970-01-01T00:00:10Z\"}"
    );
}

#[test]
fn request_signature_checks() {
    let secret = [5u8; 32];
    let (reg, id) = registry_with(secret);
    let did = id.did.to_did_string();
    let key = reg.public_key_b64();
    let body = b"{\"x\":1}";
    let sig = id.sign(body).unwrap();
    assert_eq!(verify_request_signature(&did, &sig, body, &reg, &key), Ok(()));
    assert_eq!(
        verify_request_signature(&did, &sig, b"tampered", &reg, &key),
        Err("Invalid signature".to_string())
    );
    assert_eq!(
        verify_request_signature("did:mesh:nobody", &sig, body, &reg, &key),
        Err("Agent not registered".to_string())
    );
    let r = check_request_signature(Err("down".to_string()), &key, now(), body, &sig);
    assert_eq!(r, Err("down".to_string()));
    let bad = verify_request_signature(&did, &sig, body, &reg, "AAAA");
    assert_eq!(bad, Err("Registry attestation verification failed: Invalid registry public key".to_string()));
}

#[test]
fn canonical_text_escapes_strings_as_serde_json() {
    let tricky = "a\"b\\c\n\t\r\u{8}\u{c}\u{1}\u{1f}é/\u{7f}";
    let r = ActionLogRecord {
        record_id: 1,
        agent_did: tricky.to_string(),
        action: "x".to_string(),
        resource_category: DataCategory::Unknown,
        timestamp: Timestamp { secs: 0, nanos: 0 },
        outcome: ActionOutcome::DiscoveryEvent { event_json: tricky.to_string() },
        prev_hash: String::new(),
    };
    let quoted = serde_json::to_string(tricky).unwrap();
    let expected = format!(
        "{{\"record_id\":\"00000000-0000-0000-0000-000000000001\",\"agent_did\":{},\"action\":\"x\",\"resource_category\":\"Unknown\",\"timestamp\":\"1970-01-01T00:00:00Z\",\"outcome\":{{\"DiscoveryEvent\":{{\"event_json\":{}}}}}}}",
        quoted, quoted
    );
    assert_eq!(r.canonical_text(), expected);
}

#[test]
fn every_category_name_parses_back_in_any_case() {
    let all = [
        DataCategory::PersonalData,
        DataCategory::FinancialRecord,
        DataCategory::AuditLog,
        DataCategory::SystemConfig,
        DataCategory::Unknown,
    ];
    for c in all {
        assert_eq!(DataCategory::from_str(&c.name()), Ok(c));
        assert_eq!(DataCategory::from_str(&c.name().to_uppercase()), Ok(c));
        assert_eq!(DataCategory::from_str(&c.name().to_lowercase()), Ok(c));
    }
    assert_eq!(DataCategory::from_str("sox"), Ok(DataCategory::FinancialRecord));
    assert_eq!(DataCategory::from_str("Audit_Log"), Ok(DataCategory::AuditLog));
    assert_eq!(DataCategory::from_str("pii"), Ok(DataCategory::PersonalData));
    assert_eq!(DataCategory::from_str("personal data"), Err("Unknown data category: personal data".to_string()));
}

#[test]
fn record_hash_is_sixty_four_lower_hex_digits() {
    let r = ActionLogRecord {
        record_id: 7,
        agent_did: "did:mesh:a".to_string(),
        action: "read".to_string(),
        resource_category: DataCategory::AuditLog,
        timestamp: Timestamp { secs: 1_700_000_000, nanos: 5 },
        outcome: ActionOutcome::Permitted,
        prev_hash: "genesis".to_string(),
    };
    let h = r.compute_hash();
    assert_eq!(h.len(), 64);
    assert!(h.chars().all(|c| c.is_ascii_digit() || ('a'..='f').contains(&c)));
    assert_ne!(h, "genesis");
    assert_eq!(h, r.compute_hash());
}

#[test]
fn create_in_store_key_loads_back_under_did_text() {
    let mut store = MemoryKeyStore::new();
    let id = AgentIdentity::create_in_store("n".to_string(), "e".to_string(), vec![], None, &mut store).unwrap();
    let did_text = id.did.to_did_string();
    assert_eq!(store.load_key(&did_text), Ok(id.private_key));
    assert_eq!(store.load_key("did:mesh:other"), Ok(None));
}
