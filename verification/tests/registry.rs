use solana_fork_engine::fork_manager::ForkManager;
use solana_fork_engine::fork::EngineOutcome;
use solana_fork_engine::ApiError;

#[test]
fn create_twice_returns_same_fork() {
    let mut mgr = ForkManager::new();
    let id1 = mgr.create_fork("alice".to_string(), 1000);
    let id2 = mgr.create_fork("alice".to_string(), 1100);
    assert_eq!(id1, id2);
    assert_eq!(mgr.active_fork_count(), 1);
}

#[test]
fn create_after_expiry_makes_fresh_fork() {
    let mut mgr = ForkManager::new();
    let id1 = mgr.create_fork("alice".to_string(), 1000);
    // 901 seconds later the first fork is expired, so a new one is made.
    let id2 = mgr.create_fork("alice".to_string(), 1901 + 1000);
    assert_ne!(id1, id2);
}

#[test]
fn fresh_ids_stay_unique_even_when_the_timestamp_repeats() {
    let mut mgr = ForkManager::new();
    // First fork for the user at t=0.
    let id1 = mgr.create_fork("u".to_string(), 0);
    assert_eq!(id1, "fork-u-0");
    // The binding moves to a second fork once the first has expired; the
    // first fork itself stays until a sweep.
    let id2 = mgr.create_fork("u".to_string(), 1000);
    assert_eq!(id2, "fork-u-1000");
    // Deleting the second fork drops the binding but leaves the first
    // fork in place; a create at a repeated timestamp must not reuse or
    // overwrite its id.
    assert!(mgr.delete_fork(&id2));
    let id3 = mgr.create_fork("u".to_string(), 0);
    assert_ne!(id3, id1);
    assert!(id3.starts_with("fork-u-0"));
    assert!(mgr.get_fork(&id1).is_some());
    assert!(mgr.get_fork(&id3).is_some());
}

#[test]
fn fresh_fork_id_embeds_user_and_time() {
    let mut mgr = ForkManager::new();
    let id = mgr.create_fork("alice".to_string(), 42);
    assert_eq!(id, "fork-alice-42");
}

#[test]
fn submissions_advance_counters_whether_execution_succeeds_or_fails() {
    let mut mgr = ForkManager::new();
    let id = mgr.create_fork("bob".to_string(), 0);
    let ok = EngineOutcome { success: true, error: None, updates: Vec::new() };
    let failed = EngineOutcome {
        success: false,
        error: Some("program error".to_string()),
        updates: Vec::new(),
    };
    let r1 = mgr.send_transaction(&id, "sig1".to_string(), ok).unwrap();
    assert!(r1.success);
    assert_eq!(r1.signature, "sig1");
    let r2 = mgr.send_transaction(&id, "sig2".to_string(), failed).unwrap();
    assert!(!r2.success);
    assert_eq!(r2.error.as_deref(), Some("program error"));
    let fork = mgr.get_fork(&id).unwrap();
    assert_eq!(fork.transaction_count, 2);
    assert_eq!(fork.slot, 2);
}

#[test]
fn sweep_removes_exactly_the_expired_forks_and_their_bindings() {
    let mut mgr = ForkManager::new();
    let old_id = mgr.create_fork("old".to_string(), 0);
    let young_id = mgr.create_fork("young".to_string(), 1000);
    // At 1500, the fork created at 0 is 1500s old (expired); the other is 500s old.
    let removed = mgr.cleanup_expired_forks(1500);
    assert_eq!(removed, 1);
    assert_eq!(mgr.active_fork_count(), 1);
    assert!(mgr.get_fork(&old_id).is_none());
    assert!(mgr.get_fork(&young_id).is_some());
    assert!(mgr.get_user_fork_id("old").is_none());
    assert_eq!(mgr.get_user_fork_id("young").map(|s| s.clone()), Some(young_id));
    // Sweeping again at the same instant removes nothing further.
    assert_eq!(mgr.cleanup_expired_forks(1500), 0);
}

#[test]
fn sweep_at_exact_lifetime_keeps_the_fork() {
    let mut mgr = ForkManager::new();
    let id = mgr.create_fork("edge".to_string(), 0);
    // Age == lifetime is not yet expired: expiry needs age strictly greater.
    assert_eq!(mgr.cleanup_expired_forks(900), 0);
    assert!(mgr.get_fork(&id).is_some());
    assert_eq!(mgr.cleanup_expired_forks(901), 1);
    assert!(mgr.get_fork(&id).is_none());
}

#[test]
fn delete_fork_drops_fork_and_binding_together() {
    let mut mgr = ForkManager::new();
    let id = mgr.create_fork("carol".to_string(), 0);
    assert!(mgr.delete_fork(&id));
    assert!(mgr.get_fork(&id).is_none());
    assert!(mgr.get_user_fork_id("carol").is_none());
    assert!(!mgr.delete_fork(&id));
}

#[test]
fn snapshot_create_failure_leaks_no_state() {
    let mut mgr = ForkManager::new();
    let r = mgr.create_fork_with_mainnet_sync(
        "dana".to_string(),
        100,
        Err("network unreachable".to_string()),
    );
    assert!(r.is_err());
    assert_eq!(mgr.active_fork_count(), 0);
    assert!(mgr.get_user_fork_id("dana").is_none());
    // A later plain create for the same tenant starts clean.
    let id = mgr.create_fork("dana".to_string(), 200);
    assert_eq!(id, "fork-dana-200");
    assert_eq!(mgr.active_fork_count(), 1);
}

#[test]
fn snapshot_create_stamps_origin_metadata() {
    let mut mgr = ForkManager::new();
    let r = mgr.create_fork_with_mainnet_sync(
        "erin".to_string(),
        100,
        Ok((3141, "hash-at-snapshot".to_string())),
    );
    let id = r.unwrap();
    let fork = mgr.get_fork(&id).unwrap();
    assert_eq!(fork.mainnet_slot, 3141);
    assert_eq!(fork.slot, 3141);
    assert_eq!(fork.mainnet_blockhash, "hash-at-snapshot");
    assert_eq!(fork.created_at, 100);
    assert_eq!(fork.transaction_count, 0);
}

#[test]
fn resolver_distinguishes_missing_selector_from_unknown_user() {
    let mgr = ForkManager::new();
    let none: Option<String> = None;
    let unknown = Some("ghost".to_string());
    assert_eq!(
        solana_fork_engine::utils::resolve_fork_id(&mgr, &none),
        Err(ApiError::BadRequest)
    );
    assert_eq!(
        solana_fork_engine::utils::resolve_fork_id(&mgr, &unknown),
        Err(ApiError::NotFound)
    );
}
