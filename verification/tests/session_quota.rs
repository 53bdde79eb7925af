use anchorkit::errors::ErrorCode;
use anchorkit::quota_ledger::{
    Durability, LedgerAction, QuotaEntry, QuotaEvent, QuotaLedger, StorageKey, INSTANCE_TTL,
    PERSISTENT_TTL,
};
use anchorkit::session_quota::{SessionQuotaEnforcer, SessionQuotaPolicy};

fn make_ledger() -> QuotaLedger {
    QuotaLedger::new(2_000_000)
}

#[test]
fn test_default_global_policy() {
    let ledger = make_ledger();
    let policy = SessionQuotaEnforcer::get_global_policy(&ledger);
    assert_eq!(policy.max_operations, 100);
}

#[test]
fn test_set_and_get_global_policy() {
    let mut ledger = make_ledger();
    let new_policy = SessionQuotaPolicy::with_limit(50);
    SessionQuotaEnforcer::set_global_policy(&mut ledger, &new_policy);
    let read_back = SessionQuotaEnforcer::get_global_policy(&ledger);
    assert_eq!(read_back.max_operations, 50);
}

// -----------------------------------------------------------------------
// Per-session override
// -----------------------------------------------------------------------

#[test]
fn test_session_override_wins_over_global() {
    let mut ledger = make_ledger();
    let session_id = 42u64;

    SessionQuotaEnforcer::set_global_policy(&mut ledger, &SessionQuotaPolicy::with_limit(20));
    SessionQuotaEnforcer::set_session_override(
        &mut ledger,
        session_id,
        &SessionQuotaPolicy::with_limit(5),
    );

    let effective = SessionQuotaEnforcer::resolve_policy(&ledger, session_id);
    assert_eq!(effective.max_operations, 5);
}

#[test]
fn test_clear_override_reverts_to_global() {
    let mut ledger = make_ledger();
    let session_id = 7u64;

    SessionQuotaEnforcer::set_global_policy(&mut ledger, &SessionQuotaPolicy::with_limit(30));
    SessionQuotaEnforcer::set_session_override(
        &mut ledger,
        session_id,
        &SessionQuotaPolicy::with_limit(3),
    );
    SessionQuotaEnforcer::clear_session_override(&mut ledger, session_id);

    let effective = SessionQuotaEnforcer::resolve_policy(&ledger, session_id);
    assert_eq!(effective.max_operations, 30);
}

// -----------------------------------------------------------------------
// check_and_increment — normal operation
// -----------------------------------------------------------------------

#[test]
fn test_normal_operations_succeed_up_to_limit() {
    let mut ledger = make_ledger();
    let session_id = 1u64;

    SessionQuotaEnforcer::set_global_policy(&mut ledger, &SessionQuotaPolicy::with_limit(3));
    // First three ops succeed.
    SessionQuotaEnforcer::check_and_increment(&mut ledger, session_id).unwrap();
    SessionQuotaEnforcer::check_and_increment(&mut ledger, session_id).unwrap();
    SessionQuotaEnforcer::check_and_increment(&mut ledger, session_id).unwrap();

    let count = SessionQuotaEnforcer::get_operation_count(&ledger, session_id);
    assert_eq!(count, 3);
}

// -----------------------------------------------------------------------
// check_and_increment — limit exceeded
// -----------------------------------------------------------------------

#[test]
#[should_panic]
fn test_exceeding_limit_panics() {
    let mut ledger = make_ledger();
    let session_id = 2u64;

    SessionQuotaEnforcer::set_global_policy(&mut ledger, &SessionQuotaPolicy::with_limit(2));
    SessionQuotaEnforcer::check_and_increment(&mut ledger, session_id).unwrap();
    SessionQuotaEnforcer::check_and_increment(&mut ledger, session_id).unwrap();
    // Third call must panic.
    SessionQuotaEnforcer::check_and_increment(&mut ledger, session_id).unwrap();
}

// -----------------------------------------------------------------------
// check_and_increment — unlimited (max_operations == 0)
// -----------------------------------------------------------------------

#[test]
fn test_unlimited_policy_never_panics() {
    let mut ledger = make_ledger();
    let session_id = 3u64;

    SessionQuotaEnforcer::set_global_policy(&mut ledger, &SessionQuotaPolicy::with_limit(0));
    // Call many times — must not panic.
    for _ in 0..200 {
        SessionQuotaEnforcer::check_and_increment(&mut ledger, session_id).unwrap();
    }

    let count = SessionQuotaEnforcer::get_operation_count(&ledger, session_id);
    assert_eq!(count, 200);
}

// -----------------------------------------------------------------------
// reset — recovery after limit exceeded
// -----------------------------------------------------------------------

#[test]
fn test_reset_allows_operations_to_resume() {
    let mut ledger = make_ledger();
    let session_id = 4u64;

    // Fill to the limit.
    SessionQuotaEnforcer::set_global_policy(&mut ledger, &SessionQuotaPolicy::with_limit(2));
    SessionQuotaEnforcer::check_and_increment(&mut ledger, session_id).unwrap();
    SessionQuotaEnforcer::check_and_increment(&mut ledger, session_id).unwrap();

    // Reset.
    SessionQuotaEnforcer::reset(&mut ledger, session_id);

    // Should succeed again after reset.
    SessionQuotaEnforcer::check_and_increment(&mut ledger, session_id).unwrap();

    let count = SessionQuotaEnforcer::get_operation_count(&ledger, session_id);
    assert_eq!(count, 1);
}

#[test]
fn test_reset_counter_increments() {
    let mut ledger = make_ledger();
    let session_id = 5u64;

    SessionQuotaEnforcer::reset(&mut ledger, session_id);
    SessionQuotaEnforcer::reset(&mut ledger, session_id);

    let state = SessionQuotaEnforcer::get_state(&ledger, session_id);
    assert_eq!(state.reset_count, 2);
}

// -----------------------------------------------------------------------
// get_state snapshot
// -----------------------------------------------------------------------

#[test]
fn test_get_state_reflects_current_usage() {
    let mut ledger = make_ledger();
    let session_id = 6u64;

    SessionQuotaEnforcer::set_global_policy(&mut ledger, &SessionQuotaPolicy::with_limit(10));
    SessionQuotaEnforcer::check_and_increment(&mut ledger, session_id).unwrap();
    SessionQuotaEnforcer::check_and_increment(&mut ledger, session_id).unwrap();
    SessionQuotaEnforcer::check_and_increment(&mut ledger, session_id).unwrap();

    let state = SessionQuotaEnforcer::get_state(&ledger, session_id);
    assert_eq!(state.operations_used, 3);
    assert_eq!(state.operations_remaining, 7);
    assert!(!state.is_exhausted);
}

#[test]
fn test_get_state_shows_exhausted_when_at_limit() {
    let mut ledger = make_ledger();
    let session_id = 8u64;

    SessionQuotaEnforcer::set_global_policy(&mut ledger, &SessionQuotaPolicy::with_limit(2));
    SessionQuotaEnforcer::check_and_increment(&mut ledger, session_id).unwrap();
    SessionQuotaEnforcer::check_and_increment(&mut ledger, session_id).unwrap();

    let state = SessionQuotaEnforcer::get_state(&ledger, session_id);
    assert!(state.is_exhausted);
    assert_eq!(state.operations_remaining, 0);
}

#[test]
fn test_get_state_unlimited_shows_max_remaining() {
    let mut ledger = make_ledger();
    let session_id = 9u64;

    SessionQuotaEnforcer::set_global_policy(&mut ledger, &SessionQuotaPolicy::with_limit(0));
    SessionQuotaEnforcer::check_and_increment(&mut ledger, session_id).unwrap();

    let state = SessionQuotaEnforcer::get_state(&ledger, session_id);
    assert_eq!(state.operations_remaining, u64::MAX);
    assert!(!state.is_exhausted);
}

// -----------------------------------------------------------------------
// Per-session override enforced at check_and_increment level
// -----------------------------------------------------------------------

#[test]
#[should_panic]
fn test_session_override_limit_enforced() {
    let mut ledger = make_ledger();
    let session_id = 10u64;

    // Global is generous (100).
    SessionQuotaEnforcer::set_global_policy(&mut ledger, &SessionQuotaPolicy::with_limit(100));
    // Per-session override is tight (1).
    SessionQuotaEnforcer::set_session_override(
        &mut ledger,
        session_id,
        &SessionQuotaPolicy::with_limit(1),
    );
    SessionQuotaEnforcer::check_and_increment(&mut ledger, session_id).unwrap();
    // Second call must panic.
    SessionQuotaEnforcer::check_and_increment(&mut ledger, session_id).unwrap();
}

// -----------------------------------------------------------------------
// Policies
// -----------------------------------------------------------------------

#[test]
fn test_policy_constructors() {
    let default = SessionQuotaPolicy::default_policy();
    assert_eq!((default.max_operations, default.updated_at), (100, 0));
    let limited = SessionQuotaPolicy::with_limit(9);
    assert_eq!((limited.max_operations, limited.updated_at), (9, 0));
}

#[test]
fn test_written_policies_carry_the_ledger_timestamp() {
    let mut ledger = make_ledger();
    let stale = SessionQuotaPolicy { max_operations: 4, updated_at: 17 };
    SessionQuotaEnforcer::set_global_policy(&mut ledger, &stale);
    SessionQuotaEnforcer::set_session_override(&mut ledger, 1, &stale);
    let expected = SessionQuotaPolicy { max_operations: 4, updated_at: 2_000_000 };
    assert_eq!(SessionQuotaEnforcer::get_global_policy(&ledger), expected);
    assert_eq!(SessionQuotaEnforcer::get_session_override(&ledger, 1), Some(expected));
    assert_eq!(SessionQuotaEnforcer::get_session_override(&ledger, 2), None);
    assert_eq!(
        ledger.actions,
        vec![
            LedgerAction::Write { entry: QuotaEntry::GlobalPolicy { policy: expected } },
            LedgerAction::ExtendTtl { key: StorageKey::GlobalPolicy, ledgers: 518_400 },
            LedgerAction::Write {
                entry: QuotaEntry::SessionPolicy { session_id: 1, policy: expected },
            },
            LedgerAction::ExtendTtl { key: StorageKey::SessionPolicy(1), ledgers: 1_555_200 },
        ]
    );
}

#[test]
fn test_override_holds_for_its_session_only() {
    let mut ledger = make_ledger();
    SessionQuotaEnforcer::set_session_override(&mut ledger, 1, &SessionQuotaPolicy::with_limit(5));
    assert_eq!(SessionQuotaEnforcer::resolve_policy(&ledger, 1).max_operations, 5);
    assert_eq!(SessionQuotaEnforcer::resolve_policy(&ledger, 2).max_operations, 100);
    assert_eq!(SessionQuotaEnforcer::get_global_policy(&ledger).max_operations, 100);
}

#[test]
fn test_clear_without_override_asks_nothing() {
    let mut ledger = make_ledger();
    SessionQuotaEnforcer::clear_session_override(&mut ledger, 1);
    assert!(ledger.actions.is_empty());
    SessionQuotaEnforcer::set_session_override(&mut ledger, 1, &SessionQuotaPolicy::with_limit(5));
    SessionQuotaEnforcer::clear_session_override(&mut ledger, 1);
    SessionQuotaEnforcer::clear_session_override(&mut ledger, 1);
    assert_eq!(ledger.actions.len(), 3);
    assert_eq!(
        ledger.actions[2],
        LedgerAction::Delete { key: StorageKey::SessionPolicy(1) }
    );
}

// -----------------------------------------------------------------------
// Enforcement
// -----------------------------------------------------------------------

#[test]
fn test_refusal_names_the_error_and_changes_nothing() {
    let mut ledger = make_ledger();
    SessionQuotaEnforcer::set_global_policy(&mut ledger, &SessionQuotaPolicy::with_limit(1));
    assert_eq!(SessionQuotaEnforcer::check_and_increment(&mut ledger, 3), Ok(()));
    let actions = ledger.actions.clone();
    assert_eq!(
        SessionQuotaEnforcer::check_and_increment(&mut ledger, 3),
        Err(ErrorCode::SessionOperationLimitExceeded)
    );
    assert_eq!(ledger.actions, actions);
    assert_eq!(SessionQuotaEnforcer::get_operation_count(&ledger, 3), 1);
}

#[test]
fn test_admitted_operation_is_counted_kept_and_announced() {
    let mut ledger = make_ledger();
    ledger.operation_counts.insert(3, 41);
    assert_eq!(SessionQuotaEnforcer::check_and_increment(&mut ledger, 3), Ok(()));
    let key = StorageKey::OperationCount(3);
    assert_eq!(
        ledger.actions,
        vec![
            LedgerAction::Write { entry: QuotaEntry::OperationCount { session_id: 3, count: 42 } },
            LedgerAction::ExtendTtl { key, ledgers: PERSISTENT_TTL },
            LedgerAction::Publish {
                event: QuotaEvent::Used { session_id: 3, new_count: 42, max_operations: 100 },
            },
        ]
    );
}

#[test]
fn test_unlimited_operation_is_not_announced() {
    let mut ledger = make_ledger();
    SessionQuotaEnforcer::set_session_override(&mut ledger, 3, &SessionQuotaPolicy::with_limit(0));
    ledger.actions.clear();
    ledger.operation_counts.insert(3, u64::MAX - 1);
    assert_eq!(SessionQuotaEnforcer::check_and_increment(&mut ledger, 3), Ok(()));
    let key = StorageKey::OperationCount(3);
    assert_eq!(
        ledger.actions,
        vec![
            LedgerAction::Write {
                entry: QuotaEntry::OperationCount { session_id: 3, count: u64::MAX },
            },
            LedgerAction::ExtendTtl { key, ledgers: PERSISTENT_TTL },
        ]
    );
}

#[test]
fn test_largest_limit_is_enforced() {
    let mut ledger = make_ledger();
    SessionQuotaEnforcer::set_global_policy(
        &mut ledger,
        &SessionQuotaPolicy::with_limit(u64::MAX),
    );
    ledger.operation_counts.insert(3, u64::MAX - 1);
    assert_eq!(SessionQuotaEnforcer::check_and_increment(&mut ledger, 3), Ok(()));
    assert_eq!(
        SessionQuotaEnforcer::check_and_increment(&mut ledger, 3),
        Err(ErrorCode::SessionOperationLimitExceeded)
    );
}

#[test]
fn test_sessions_do_not_share_their_counters() {
    let mut ledger = make_ledger();
    SessionQuotaEnforcer::set_global_policy(&mut ledger, &SessionQuotaPolicy::with_limit(1));
    assert!(SessionQuotaEnforcer::check_and_increment(&mut ledger, 1).is_ok());
    assert!(SessionQuotaEnforcer::check_and_increment(&mut ledger, 1).is_err());
    assert!(SessionQuotaEnforcer::check_and_increment(&mut ledger, 2).is_ok());
    SessionQuotaEnforcer::reset(&mut ledger, 1);
    assert_eq!(SessionQuotaEnforcer::get_operation_count(&ledger, 1), 0);
    assert_eq!(SessionQuotaEnforcer::get_operation_count(&ledger, 2), 1);
    assert_eq!(SessionQuotaEnforcer::get_state(&ledger, 2).reset_count, 0);
}

#[test]
fn test_exactly_the_limit_is_admitted() {
    let mut ledger = make_ledger();
    let admitted = (0..250)
        .filter(|_| SessionQuotaEnforcer::check_and_increment(&mut ledger, 5).is_ok())
        .count();
    assert_eq!(admitted, 100);
    SessionQuotaEnforcer::reset(&mut ledger, 5);
    let admitted_again = (0..250)
        .filter(|_| SessionQuotaEnforcer::check_and_increment(&mut ledger, 5).is_ok())
        .count();
    assert_eq!(admitted_again, 100);
}

// -----------------------------------------------------------------------
// Reset and snapshot
// -----------------------------------------------------------------------

#[test]
fn test_reset_is_recorded_and_announced() {
    let mut ledger = make_ledger();
    ledger.operation_counts.insert(8, 77);
    ledger.reset_counts.insert(8, 6);
    SessionQuotaEnforcer::reset(&mut ledger, 8);
    let count = StorageKey::OperationCount(8);
    let resets = StorageKey::ResetCount(8);
    assert_eq!(
        ledger.actions,
        vec![
            LedgerAction::Write { entry: QuotaEntry::OperationCount { session_id: 8, count: 0 } },
            LedgerAction::ExtendTtl { key: count, ledgers: PERSISTENT_TTL },
            LedgerAction::Write { entry: QuotaEntry::ResetCount { session_id: 8, count: 7 } },
            LedgerAction::ExtendTtl { key: resets, ledgers: PERSISTENT_TTL },
            LedgerAction::Publish { event: QuotaEvent::Reset { session_id: 8, resets: 7 } },
        ]
    );
}

#[test]
fn test_reset_counter_saturates() {
    let mut ledger = make_ledger();
    ledger.reset_counts.insert(8, u32::MAX);
    SessionQuotaEnforcer::reset(&mut ledger, 8);
    assert_eq!(SessionQuotaEnforcer::get_state(&ledger, 8).reset_count, u32::MAX);
}

#[test]
fn test_snapshot_of_a_session_past_a_lowered_limit() {
    let mut ledger = make_ledger();
    ledger.operation_counts.insert(8, 20);
    SessionQuotaEnforcer::set_global_policy(&mut ledger, &SessionQuotaPolicy::with_limit(10));
    let state = SessionQuotaEnforcer::get_state(&ledger, 8);
    assert_eq!(state.session_id, 8);
    assert_eq!(state.policy.max_operations, 10);
    assert_eq!(state.operations_used, 20);
    assert_eq!(state.operations_remaining, 0);
    assert!(state.is_exhausted);
}

// -----------------------------------------------------------------------
// Storage
// -----------------------------------------------------------------------

#[test]
fn test_storage_keys() {
    let keys = [
        (StorageKey::GlobalPolicy, "SESS_QUOTA", None, Durability::Instance),
        (StorageKey::SessionPolicy(4), "SESS_QUOTA", Some(4), Durability::Persistent),
        (StorageKey::OperationCount(4), "SOPCNT", Some(4), Durability::Persistent),
        (StorageKey::ResetCount(4), "SQRST", Some(4), Durability::Persistent),
    ];
    for (key, symbol, session_id, durability) in keys {
        assert_eq!(key.symbol(), symbol);
        assert_eq!(key.session_id(), session_id);
        assert_eq!(key.durability(), durability);
    }
}

#[test]
fn test_recorded_actions_replay_to_the_contents() {
    let mut ledger = make_ledger();
    SessionQuotaEnforcer::set_global_policy(&mut ledger, &SessionQuotaPolicy::with_limit(3));
    SessionQuotaEnforcer::set_session_override(&mut ledger, 1, &SessionQuotaPolicy::with_limit(2));
    for id in [1, 1, 1, 2, 2] {
        let _ = SessionQuotaEnforcer::check_and_increment(&mut ledger, id);
    }
    SessionQuotaEnforcer::clear_session_override(&mut ledger, 1);
    SessionQuotaEnforcer::reset(&mut ledger, 2);

    let mut replayed = make_ledger();
    for action in &ledger.actions {
        replayed.perform(*action);
    }
    assert_eq!(replayed.global_policy, ledger.global_policy);
    assert_eq!(replayed.overrides, ledger.overrides);
    assert_eq!(replayed.operation_counts, ledger.operation_counts);
    assert_eq!(replayed.reset_counts, ledger.reset_counts);
    assert_eq!(replayed.actions, ledger.actions);
}

#[test]
fn test_interleaved_sessions_reach_their_own_limits() {
    let mut ledger = make_ledger();
    SessionQuotaEnforcer::set_global_policy(&mut ledger, &SessionQuotaPolicy::with_limit(2));
    let answers: Vec<bool> = [1, 2, 1, 1, 3, 2, 2, 1]
        .iter()
        .map(|id| SessionQuotaEnforcer::check_and_increment(&mut ledger, *id).is_ok())
        .collect();
    assert_eq!(answers, vec![true, true, true, false, true, true, false, false]);
}

#[test]
fn test_lifetimes() {
    assert_eq!(INSTANCE_TTL, 518_400);
    assert_eq!(PERSISTENT_TTL, 1_555_200);
}

#[test]
fn test_event_topics() {
    let used = QuotaEvent::Used { session_id: 6, new_count: 1, max_operations: 2 };
    let reset = QuotaEvent::Reset { session_id: 7, resets: 3 };
    assert_eq!(used.topics(), ("sess_qt", "used", 6));
    assert_eq!(reset.topics(), ("sess_qt", "reset", 7));
}
