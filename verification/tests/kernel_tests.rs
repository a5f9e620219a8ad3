use agt::kernel::{ExecutionContext, KernelPolicy, MemoryBackend, StateBackend, StatelessKernel};

fn read_only_policies() -> Vec<(String, KernelPolicy)> {
    vec![(
        "read_only".to_string(),
        KernelPolicy { blocked_actions: vec!["file_write".to_string()] },
    )]
}

fn test_context() -> ExecutionContext {
    ExecutionContext {
        agent_id: "test-agent".to_string(),
        policies: vec!["read_only".to_string()],
        history: vec![],
        state_ref: None,
        metadata: vec![],
    }
}

#[test]
fn test_stateless_kernel_execution() {
    let mut kernel = StatelessKernel::new(None, Some(read_only_policies()));
    let context = test_context();

    // Allowed action
    let result = kernel.execute("read_file".to_string(), vec![], context.clone()).unwrap();
    assert!(result.success);
    let expected: serde_json::Value = serde_json::from_str(r#"{"status": "executed"}"#).unwrap();
    let data: serde_json::Value = serde_json::from_str(result.data.as_deref().unwrap()).unwrap();
    assert_eq!(Some(data), Some(expected));

    // Blocked action
    let result_blocked = kernel.execute("file_write".to_string(), vec![], context).unwrap();
    assert!(!result_blocked.success);
    assert_eq!(result_blocked.signal, Some("SIGKILL".to_string()));
}

#[test]
fn kernel_blocked_action_names_first_blocking_policy() {
    let policies = vec![
        ("audit".to_string(), KernelPolicy { blocked_actions: vec!["delete".to_string()] }),
        ("strict".to_string(), KernelPolicy { blocked_actions: vec!["delete".to_string(), "write".to_string()] }),
    ];
    let kernel = StatelessKernel::new(None, Some(policies));
    let names = vec!["missing".to_string(), "strict".to_string(), "audit".to_string()];
    assert_eq!(
        kernel.check_policies("delete", &names),
        Err("Action 'delete' blocked by policy 'strict'".to_string())
    );
    assert_eq!(kernel.check_policies("read", &names), Ok(()));
}

#[test]
fn kernel_later_policy_of_same_name_wins() {
    let policies = vec![
        ("p".to_string(), KernelPolicy { blocked_actions: vec!["a".to_string()] }),
        ("p".to_string(), KernelPolicy { blocked_actions: vec!["b".to_string()] }),
    ];
    let kernel = StatelessKernel::new(None, Some(policies));
    let names = vec!["p".to_string()];
    assert_eq!(kernel.check_policies("a", &names), Ok(()));
    assert!(kernel.check_policies("b", &names).is_err());
}

#[test]
fn kernel_success_keeps_context() {
    let mut kernel = StatelessKernel::new(None, None);
    let mut context = test_context();
    context.metadata = vec![("k".to_string(), "1".to_string())];
    let result = kernel.execute("anything".to_string(), vec![], context).unwrap();
    let updated = result.updated_context.unwrap();
    assert_eq!(updated.agent_id, "test-agent");
    assert_eq!(updated.policies, vec!["read_only".to_string()]);
    assert_eq!(updated.metadata, vec![("k".to_string(), "1".to_string())]);
    assert_eq!(updated.state_ref, None);
    assert!(result.error.is_none());
    assert!(result.signal.is_none());
}

#[test]
fn kernel_blocked_result_carries_message() {
    let mut kernel = StatelessKernel::new(None, Some(read_only_policies()));
    let result = kernel.execute("file_write".to_string(), vec![], test_context()).unwrap();
    assert_eq!(result.error, Some("Action 'file_write' blocked by policy 'read_only'".to_string()));
    assert!(result.data.is_none());
    assert!(result.updated_context.is_none());
}

#[test]
fn kernel_loads_state_from_backend() {
    let mut backend = MemoryBackend::new();
    backend.set("state:test-agent", vec![("x".to_string(), "1".to_string())], None).unwrap();
    let mut kernel = StatelessKernel::new(Some(backend), None);
    let mut context = test_context();
    context.state_ref = Some("state:test-agent".to_string());
    let result = kernel.execute("read_file".to_string(), vec![], context).unwrap();
    assert!(result.success);
    assert_eq!(result.updated_context.unwrap().state_ref, Some("state:test-agent".to_string()));
}

#[test]
fn memory_backend_read_back_and_delete() {
    let mut backend = MemoryBackend::new();
    assert_eq!(backend.get("k").unwrap(), None);
    backend.set("k", vec![("a".to_string(), "\"b\"".to_string())], None).unwrap();
    assert_eq!(backend.get("k").unwrap(), Some(vec![("a".to_string(), "\"b\"".to_string())]));
    backend.delete("k").unwrap();
    assert_eq!(backend.get("k").unwrap(), None);
}

#[test]
fn memory_backend_zero_ttl_expires() {
    let mut backend = MemoryBackend::new();
    backend.set("k", vec![], Some(0)).unwrap();
    assert_eq!(backend.get("k").unwrap(), None);
    // the expired entry was removed
    assert_eq!(backend.get("k").unwrap(), None);
}

#[test]
fn memory_backend_long_ttl_keeps_entry() {
    let mut backend = MemoryBackend::new();
    backend.set("k", vec![], Some(3600)).unwrap();
    assert_eq!(backend.get("k").unwrap(), Some(vec![]));
}

#[test]
fn set_member_replaces_or_appends() {
    let mut obj = vec![("a".to_string(), "1".to_string())];
    agt::kernel::set_member(&mut obj, "b".to_string(), "2".to_string());
    agt::kernel::set_member(&mut obj, "a".to_string(), "3".to_string());
    assert_eq!(obj, vec![("a".to_string(), "3".to_string()), ("b".to_string(), "2".to_string())]);
}

#[test]
fn readme_kernel_blocks_sandbox_action() {
    let policies = vec![(
        "sandbox_policy".to_string(),
        KernelPolicy { blocked_actions: vec!["execute_shell".to_string(), "file_delete".to_string()] },
    )];
    let mut kernel = StatelessKernel::new(None, Some(policies));
    let context = ExecutionContext {
        agent_id: "agent-123".to_string(),
        policies: vec!["sandbox_policy".to_string()],
        history: vec![],
        state_ref: None,
        metadata: vec![],
    };
    let result = kernel.execute("execute_shell".to_string(), vec![], context).unwrap();
    assert!(!result.success);
    assert_eq!(result.error, Some("Action 'execute_shell' blocked by policy 'sandbox_policy'".to_string()));
}

#[test]
fn run_loaded_passes_backend_error_on() {
    let mut kernel = StatelessKernel::new(None, Some(read_only_policies()));
    let r = kernel.run_loaded("read_file".to_string(), vec![], test_context(), Err("backend down".to_string()));
    assert_eq!(r.err(), Some("backend down".to_string()));
}

#[test]
fn run_loaded_with_state_runs_the_action() {
    let mut kernel = StatelessKernel::new(None, Some(read_only_policies()));
    let state = vec![("x".to_string(), "1".to_string())];
    let r = kernel.run_loaded("read_file".to_string(), vec![], test_context(), Ok(Some(state))).unwrap();
    assert!(r.success);
    assert_eq!(r.data, Some("{\"status\":\"executed\"}".to_string()));
    let blocked = kernel.run_loaded("file_write".to_string(), vec![], test_context(), Ok(None)).unwrap();
    assert_eq!(blocked.error, Some("Action 'file_write' blocked by policy 'read_only'".to_string()));
}

#[test]
fn execute_with_absent_state_succeeds_and_leaves_backend() {
    let mut backend = MemoryBackend::new();
    backend.set("state:other", vec![("y".to_string(), "2".to_string())], None).unwrap();
    let mut kernel = StatelessKernel::new(Some(backend), None);
    let mut context = test_context();
    context.state_ref = Some("state:missing".to_string());
    let result = kernel.execute("read_file".to_string(), vec![], context).unwrap();
    assert!(result.success);
    assert_eq!(result.updated_context.unwrap().state_ref, Some("state:missing".to_string()));
}

#[test]
fn memory_backend_entry_lives_until_its_expiry() {
    let mut backend = MemoryBackend::new();
    backend.set_at("k", vec![("a".to_string(), "1".to_string())], Some(2), 1_000).unwrap();
    backend.set_at("p", vec![], None, 1_000).unwrap();
    // expiry at 1_000 + 2 * 10^9 nanoseconds
    assert_eq!(backend.get_at("k", 2_000_000_999), Some(vec![("a".to_string(), "1".to_string())]));
    assert_eq!(backend.get_at("p", u128::MAX), Some(vec![]));
    assert_eq!(backend.get_at("k", 2_000_001_000), None);
    // removed once expired, even looked up earlier again
    assert_eq!(backend.get_at("k", 0), None);
    assert_eq!(backend.get_at("missing", 0), None);
}

#[test]
fn memory_backend_refuses_expiry_beyond_clock() {
    let mut backend = MemoryBackend::new();
    assert_eq!(backend.set_at("k", vec![], Some(1), u128::MAX - 5), Err("TTL out of range".to_string()));
    assert_eq!(backend.get_at("k", 0), None);
    assert!(backend.set_at("k", vec![], None, u128::MAX).is_ok());
}
