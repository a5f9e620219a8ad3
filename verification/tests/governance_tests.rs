use agt::audit::DataCategory;
use agt::governance::{ClassificationRule, EnforcementDecision, McpTool, PolicyEnforcer, ToolArgs};
use agt::policy_store::{McpPolicy, MemoryPolicyStore, PolicyStore};
use agt::ring::PrivilegeRing;
use agt::policy_store::policy_file_key;

fn secret_tool() -> McpTool {
    McpTool {
        name: "read_secret".to_string(),
        description: "Reads sensitive data".to_string(),
        required_ring: PrivilegeRing::Trusted,
        default_category: DataCategory::PersonalData,
        classification_rules: vec![],
    }
}

#[test]
fn test_policy_enforcement_v2() {
    let mut enforcer = PolicyEnforcer::new(None);
    let agent_did = "agent-1";

    enforcer.register_tool(secret_tool());

    // Register policy
    enforcer
        .set_policy(
            agent_did,
            McpPolicy {
                allowed_tools: vec!["read_secret".to_string()],
                denylist: vec![],
                allow_unknown_tools: false,
                max_requests_per_second: 10,
            },
        )
        .unwrap();

    // An insufficient ring asks for escalation
    let decision = enforcer.evaluate(agent_did, PrivilegeRing::Standard, "read_secret", &ToolArgs::new());
    assert_eq!(decision, EnforcementDecision::EscalateRequired { requested_ring: PrivilegeRing::Trusted });

    // A sufficient ring is allowed
    let decision2 = enforcer.evaluate(agent_did, PrivilegeRing::Trusted, "read_secret", &ToolArgs::new());
    assert_eq!(decision2, EnforcementDecision::Allow);
}

fn args(name: &str, value: &str) -> ToolArgs {
    let mut a = ToolArgs::new();
    a.set(name.to_string(), value.to_string());
    a
}

#[test]
fn test_argument_aware_classification() {
    let mut enforcer = PolicyEnforcer::new(None);

    enforcer.register_tool(McpTool {
        name: "export".to_string(),
        description: "Export data".to_string(),
        required_ring: PrivilegeRing::Standard,
        default_category: DataCategory::SystemConfig,
        classification_rules: vec![ClassificationRule {
            param_name: "target".to_string(),
            pattern: "user_pii".to_string(),
            override_category: DataCategory::PersonalData,
        }],
    });

    // The default category
    let category = enforcer.classify("export", &args("target", "logs"));
    assert_eq!(category, DataCategory::SystemConfig);

    // The overriding category
    let category2 = enforcer.classify("export", &args("target", "user_pii_table"));
    assert_eq!(category2, DataCategory::PersonalData);
}

#[test]
fn classify_unknown_tool_is_unknown() {
    let enforcer = PolicyEnforcer::new(None);
    assert_eq!(enforcer.classify("nope", &ToolArgs::new()), DataCategory::Unknown);
}

#[test]
fn classify_first_applying_rule_wins() {
    let mut enforcer = PolicyEnforcer::new(None);
    enforcer.register_tool(McpTool {
        name: "t".to_string(),
        description: String::new(),
        required_ring: PrivilegeRing::Standard,
        default_category: DataCategory::Unknown,
        classification_rules: vec![
            ClassificationRule {
                param_name: "missing".to_string(),
                pattern: "".to_string(),
                override_category: DataCategory::AuditLog,
            },
            ClassificationRule {
                param_name: "q".to_string(),
                pattern: "fin".to_string(),
                override_category: DataCategory::FinancialRecord,
            },
            ClassificationRule {
                param_name: "q".to_string(),
                pattern: "".to_string(),
                override_category: DataCategory::PersonalData,
            },
        ],
    });
    assert_eq!(enforcer.classify("t", &args("q", "finance")), DataCategory::FinancialRecord);
    assert_eq!(enforcer.classify("t", &args("q", "other")), DataCategory::PersonalData);
    assert_eq!(enforcer.classify("t", &ToolArgs::new()), DataCategory::Unknown);
}

fn enforcer_with_policy(policy: Option<McpPolicy>) -> PolicyEnforcer<MemoryPolicyStore> {
    let mut enforcer = PolicyEnforcer::new(None);
    enforcer.register_tool(secret_tool());
    if let Some(p) = policy {
        enforcer.set_policy("agent-1", p).unwrap();
    }
    enforcer
}

fn policy(allowed: &[&str], denied: &[&str], unknown: bool) -> McpPolicy {
    McpPolicy {
        allowed_tools: allowed.iter().map(|s| s.to_string()).collect(),
        denylist: denied.iter().map(|s| s.to_string()).collect(),
        allow_unknown_tools: unknown,
        max_requests_per_second: 10,
    }
}

#[test]
fn unregistered_tool_fails_closed() {
    let enforcer = enforcer_with_policy(Some(policy(&[], &[], false)));
    assert_eq!(
        enforcer.evaluate("agent-1", PrivilegeRing::System, "other", &ToolArgs::new()),
        EnforcementDecision::Deny { reason: "Tool not registered in AGT mesh (fail-closed)".to_string() }
    );
    let open = enforcer_with_policy(Some(policy(&[], &[], true)));
    assert_eq!(
        open.evaluate("agent-1", PrivilegeRing::Sandboxed, "other", &ToolArgs::new()),
        EnforcementDecision::Allow
    );
}

#[test]
fn denylisted_tool_is_denied() {
    let enforcer = enforcer_with_policy(Some(policy(&["read_secret"], &["read_secret"], true)));
    assert_eq!(
        enforcer.evaluate("agent-1", PrivilegeRing::System, "read_secret", &ToolArgs::new()),
        EnforcementDecision::Deny { reason: "Tool explicitly denied by policy".to_string() }
    );
}

#[test]
fn tool_outside_allowlist_is_denied() {
    let enforcer = enforcer_with_policy(Some(policy(&["something_else"], &[], false)));
    assert_eq!(
        enforcer.evaluate("agent-1", PrivilegeRing::Trusted, "read_secret", &ToolArgs::new()),
        EnforcementDecision::Deny { reason: "Tool not in agent allowlist".to_string() }
    );
    let empty_allowlist = enforcer_with_policy(Some(policy(&[], &[], false)));
    assert_eq!(
        empty_allowlist.evaluate("agent-1", PrivilegeRing::Trusted, "read_secret", &ToolArgs::new()),
        EnforcementDecision::Allow
    );
}

#[test]
fn missing_policy_is_denied() {
    let enforcer = enforcer_with_policy(None);
    assert_eq!(
        enforcer.evaluate("agent-1", PrivilegeRing::System, "read_secret", &ToolArgs::new()),
        EnforcementDecision::Deny { reason: "No policy registered for agent".to_string() }
    );
    assert!(!enforcer.can_call_tool("agent-1", PrivilegeRing::System, "read_secret"));
}

#[test]
fn store_error_is_reported_in_denial() {
    let mut enforcer = PolicyEnforcer::new(None);
    enforcer.register_tool(secret_tool());
    let loaded: Result<Option<McpPolicy>, String> = Err("disk full".to_string());
    assert_eq!(
        enforcer.decide(PrivilegeRing::Trusted, "read_secret", &loaded),
        EnforcementDecision::Deny { reason: "Policy store error: disk full".to_string() }
    );
}

#[test]
fn can_call_tool_matches_evaluate() {
    let enforcer = enforcer_with_policy(Some(policy(&["read_secret"], &[], false)));
    assert!(enforcer.can_call_tool("agent-1", PrivilegeRing::Trusted, "read_secret"));
    assert!(!enforcer.can_call_tool("agent-1", PrivilegeRing::Standard, "read_secret"));
}

#[test]
fn get_tool_returns_registered_tool() {
    let enforcer = enforcer_with_policy(None);
    assert_eq!(enforcer.get_tool("read_secret").unwrap().required_ring, PrivilegeRing::Trusted);
    assert!(enforcer.get_tool("x").is_none());
}

#[test]
fn memory_policy_store_round_trip() {
    let mut store = MemoryPolicyStore::new();
    store.save_policy("did:mesh:a", policy(&["t1"], &["t2"], false)).unwrap();
    let loaded = store.load_policy("did:mesh:a").unwrap().unwrap();
    assert_eq!(loaded.allowed_tools, vec!["t1".to_string()]);
    assert_eq!(loaded.denylist, vec!["t2".to_string()]);
    assert!(store.load_policy("did:mesh:b").unwrap().is_none());
    assert_eq!(store.list_policies().unwrap().len(), 1);
    store.delete_policy("did:mesh:a").unwrap();
    assert!(store.load_policy("did:mesh:a").unwrap().is_none());
}

#[test]
fn default_policy_values() {
    let p = McpPolicy::default();
    assert!(p.allowed_tools.is_empty());
    assert!(p.denylist.is_empty());
    assert!(!p.allow_unknown_tools);
    assert_eq!(p.max_requests_per_second, 0);
    assert_eq!(agt::policy_store::default_rps(), 10);
}

#[test]
fn file_policy_store_paths() {
    let store = agt::policy_store::FilePolicyStore::new("/tmp/policies".to_string());
    let path = store.get_path("did:mesh:test-agent");
    assert!(path.starts_with("/tmp/policies/"));
    assert!(path.ends_with(".json"));
    // hex SHA-256 of the DID
    assert_eq!(path.len(), "/tmp/policies/".len() + 64 + 5);
    let empty = agt::policy_store::FilePolicyStore::new(String::new());
    assert_eq!(empty.get_path("x").len(), 69);
    let tmp = store.temp_path("did:mesh:test-agent");
    assert_eq!(&tmp[..tmp.len() - 4], &path[..path.len() - 5]);
    assert!(tmp.ends_with(".tmp"));
}

#[test]
fn policy_file_keys() {
    assert_eq!(policy_file_key("abc.json"), Some("abc".to_string()));
    assert_eq!(policy_file_key(".json"), None);
    assert_eq!(policy_file_key("abc.tmp"), None);
    assert_eq!(policy_file_key("a.b.json"), Some("a.b".to_string()));
}
