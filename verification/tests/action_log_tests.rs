use agt::action_log::{records_times_valid, FileActionLog};
use agt::audit::{ActionLogRecord, ActionOutcome, DataCategory};
use agt::clock::Timestamp;

fn record(action: &str, category: DataCategory) -> ActionLogRecord {
    ActionLogRecord {
        record_id: uuid::Uuid::new_v4().as_u128(),
        agent_did: "agent-1".to_string(),
        action: action.to_string(),
        resource_category: category,
        timestamp: now(),
        outcome: ActionOutcome::Permitted,
        prev_hash: "".to_string(),
    }
}

#[test]
fn test_action_log_hash_chain() {
    let mut log = FileActionLog::new();

    let record1 = record("read", DataCategory::PersonalData);
    log.append(record1);
    let hash1 = log.last_hash();
    assert_ne!(hash1, "genesis");

    let record2 = record("write", DataCategory::FinancialRecord);
    log.append(record2);

    let violations = FileActionLog::verify_chain(log.appended());
    assert!(violations.is_empty());

    // Reopening from the checkpoint continues the chain after the last
    // record written.
    let checkpoint = log.last_hash();
    let mut log_reopened = FileActionLog::resume(Some(checkpoint));
    let written = log.appended();
    assert_eq!(log_reopened.last_hash(), written[written.len() - 1].compute_hash());
    assert_eq!(log_reopened.last_hash(), log.last_hash());
    let record3 = log_reopened.append(record("read", DataCategory::AuditLog));
    assert_eq!(record3.prev_hash, written[1].compute_hash());
}

#[test]
fn append_links_records() {
    let mut log = FileActionLog::new();
    let first = log.append(record("read", DataCategory::AuditLog));
    assert_eq!(first.prev_hash, "genesis");
    let second = log.append(record("write", DataCategory::AuditLog));
    assert_eq!(second.prev_hash, first.compute_hash());
    assert_eq!(log.last_hash(), second.compute_hash());
    assert_eq!(first.compute_hash().len(), 64);
}

#[test]
fn tampered_chain_reports_violation() {
    let mut log = FileActionLog::new();
    log.append(record("read", DataCategory::AuditLog));
    log.append(record("write", DataCategory::AuditLog));
    let mut records: Vec<ActionLogRecord> = log.appended().iter().map(|r| r.duplicate()).collect();
    records[1].prev_hash = "bogus".to_string();
    let violations = FileActionLog::verify_chain(&records);
    assert_eq!(violations.len(), 1);
    assert_eq!(violations[0].index, 1);
    assert_eq!(violations[0].actual_prev_hash, "bogus");
    assert_eq!(violations[0].expected_prev_hash, records[0].compute_hash());
}

#[test]
fn resume_without_checkpoint_starts_at_genesis() {
    assert_eq!(FileActionLog::resume(None).last_hash(), "genesis");
}

#[test]
fn history_keeps_permitted_actions_of_agent() {
    let mut log = FileActionLog::new();
    log.append(record("read", DataCategory::PersonalData));
    let mut denied = record("write", DataCategory::FinancialRecord);
    denied.outcome = ActionOutcome::Denied { rule: "R".to_string(), reason: "no".to_string() };
    log.append(denied);
    let mut other = record("update", DataCategory::AuditLog);
    other.agent_did = "agent-2".to_string();
    log.append(other);
    let history = FileActionLog::load_history(log.appended(), "agent-1");
    assert_eq!(history.len(), 1);
    assert_eq!(history[0].action, "read");
}

#[test]
fn replay_since_filters_by_time() {
    let mut log = FileActionLog::new();
    let mut old = record("read", DataCategory::PersonalData);
    old.timestamp = Timestamp { secs: 1_000, nanos: 0 };
    log.append(old);
    log.append(record("write", DataCategory::PersonalData));
    let since = Timestamp { secs: 2_000, nanos: 0 };
    let replayed = FileActionLog::replay_since(log.appended(), since);
    assert_eq!(replayed.len(), 1);
    assert_eq!(replayed[0].action, "write");
    assert!(records_times_valid(log.appended()));
}

#[test]
fn hash_ignores_prev_hash_field() {
    let mut a = record("read", DataCategory::PersonalData);
    let h1 = a.compute_hash();
    a.prev_hash = "something".to_string();
    assert_eq!(a.compute_hash(), h1);
}

fn now() -> Timestamp {
    let t = chrono::Utc::now();
    Timestamp { secs: t.timestamp(), nanos: t.timestamp_subsec_nanos() }
}

#[test]
fn released_log_goes_on_from_its_tip() {
    let mut log = FileActionLog::new();
    let first = log.append(record("read", DataCategory::AuditLog));
    log.release_records();
    assert!(log.appended().is_empty());
    assert_eq!(log.last_hash(), first.compute_hash());
    let second = log.append(record("write", DataCategory::AuditLog));
    assert_eq!(second.prev_hash, first.compute_hash());
}
