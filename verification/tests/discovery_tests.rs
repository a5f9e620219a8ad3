use agt::discovery::DiscoveryManager;
use agt::identity::AgentDID;

#[test]
fn test_shadow_agent_detection() {
    let mut manager = DiscoveryManager::new();
    let did = AgentDID { method: "mesh".to_string(), unique_id: "test-shadow".to_string() };

    manager.report_presence(did.duplicate(), "ShadowBot".to_string(), "127.0.0.1:8080".to_string());

    let shadow_agents = manager.detect_shadow_agents();
    assert_eq!(shadow_agents.len(), 1);
    assert_eq!(shadow_agents[0].name, "ShadowBot");

    manager.register_agent(&did.to_did_string());
    let shadow_agents_after = manager.detect_shadow_agents();
    assert_eq!(shadow_agents_after.len(), 0);
}

#[test]
fn repeated_presence_updates_address_and_keeps_name() {
    let mut manager = DiscoveryManager::new();
    let did = AgentDID { method: "mesh".to_string(), unique_id: "a".to_string() };
    manager.report_presence(did.duplicate(), "First".to_string(), "10.0.0.1:1".to_string());
    manager.report_presence(did.duplicate(), "Second".to_string(), "10.0.0.2:2".to_string());
    let shadows = manager.detect_shadow_agents();
    assert_eq!(shadows.len(), 1);
    assert_eq!(shadows[0].name, "First");
    assert_eq!(shadows[0].transport_address, "10.0.0.2:2");
    assert!(!shadows[0].last_seen.is_before(&shadows[0].first_seen));
}

#[test]
fn registering_unseen_agent_changes_nothing() {
    let mut manager = DiscoveryManager::new();
    manager.register_agent("did:mesh:ghost");
    assert!(manager.detect_shadow_agents().is_empty());
    let did = AgentDID { method: "mesh".to_string(), unique_id: "ghost".to_string() };
    manager.report_presence(did, "G".to_string(), "x".to_string());
    // registration before the first report is not remembered
    assert_eq!(manager.detect_shadow_agents().len(), 1);
}

#[test]
fn shadows_come_in_order_first_seen() {
    let mut manager = DiscoveryManager::new();
    for (id, name) in [("b", "B"), ("a", "A"), ("c", "C")] {
        let did = AgentDID { method: "mesh".to_string(), unique_id: id.to_string() };
        manager.report_presence(did, name.to_string(), "addr".to_string());
    }
    manager.register_agent("did:mesh:a");
    let names: Vec<String> = manager.detect_shadow_agents().into_iter().map(|a| a.name).collect();
    assert_eq!(names, vec!["B".to_string(), "C".to_string()]);
}

#[test]
fn repeated_reports_give_one_shadow_per_did() {
    let mut manager = DiscoveryManager::new();
    let a = AgentDID { method: "mesh".to_string(), unique_id: "a".to_string() };
    let b = AgentDID { method: "mesh".to_string(), unique_id: "b".to_string() };
    for _ in 0..3 {
        manager.report_presence(a.duplicate(), "A".to_string(), "x".to_string());
        manager.report_presence(b.duplicate(), "B".to_string(), "y".to_string());
    }
    let shadows = manager.detect_shadow_agents();
    assert_eq!(shadows.len(), 2);
    assert_eq!(shadows[0].did.to_did_string(), "did:mesh:a");
    assert_eq!(shadows[1].did.to_did_string(), "did:mesh:b");
}
