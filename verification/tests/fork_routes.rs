use solana_fork_engine::ApiError;
use solana_fork_engine::fork_manager::ForkManager;
use solana_fork_engine::models::requests::{CreateForkRequest, ForkInfoQuery};
use solana_fork_engine::routes::fork::{cleanup_forks, create_fork, list_forks};
use solana_fork_engine::routes::health::get_fork_info;

#[test]
fn create_fork_route_reports_the_new_fork() {
    let mut mgr = ForkManager::new();
    let resp = create_fork(&mut mgr, CreateForkRequest { user_id: Some("alice".to_string()) }, 5);
    assert!(resp.success);
    assert_eq!(resp.fork_id, "fork-alice-5");
    assert_eq!(resp.rpc_url, "http://localhost:8899/rpc/fork/fork-alice-5");
    assert!(resp.message.contains("alice"));
}

#[test]
fn anonymous_create_uses_the_anonymous_user() {
    let mut mgr = ForkManager::new();
    let resp = create_fork(&mut mgr, CreateForkRequest { user_id: None }, 5);
    assert_eq!(resp.fork_id, "fork-anonymous-5");
    assert!(mgr.get_user_fork_id("anonymous").is_some());
}

#[test]
fn list_forks_summarizes_every_live_fork() {
    let mut mgr = ForkManager::new();
    mgr.create_fork("a".to_string(), 10);
    mgr.create_fork("b".to_string(), 20);
    let infos = list_forks(&mgr, 30);
    assert_eq!(infos.len(), 2);
    let mut seen_uptimes: Vec<u64> = infos.iter().map(|i| i.uptime_seconds).collect();
    seen_uptimes.sort();
    assert_eq!(seen_uptimes, vec![10, 20]);
    for info in &infos {
        assert_eq!(info.status, "active");
        assert_eq!(info.transaction_count, 0);
    }
}

#[test]
fn cleanup_route_reports_removed_and_remaining_counts() {
    let mut mgr = ForkManager::new();
    mgr.create_fork("a".to_string(), 0);
    mgr.create_fork("b".to_string(), 1000);
    let resp = cleanup_forks(&mut mgr, 1500);
    assert!(resp.success);
    assert_eq!(resp.cleaned_count, 1);
    assert_eq!(resp.active_forks, 1);
}

#[test]
fn fork_info_resolves_by_id_or_user_and_demands_a_selector() {
    let mut mgr = ForkManager::new();
    let id = mgr.create_fork("alice".to_string(), 100);
    let by_id = get_fork_info(
        &mgr,
        ForkInfoQuery { fork_id: Some(id.clone()), user_id: None },
        150,
    )
    .unwrap();
    assert_eq!(by_id.fork_id, id);
    assert_eq!(by_id.created_at, 100);
    assert_eq!(by_id.uptime_seconds, 50);
    let by_user = get_fork_info(
        &mgr,
        ForkInfoQuery { fork_id: None, user_id: Some("alice".to_string()) },
        150,
    )
    .unwrap();
    assert_eq!(by_user.fork_id, id);
    let neither = get_fork_info(&mgr, ForkInfoQuery { fork_id: None, user_id: None }, 150);
    assert_eq!(neither.err(), Some(ApiError::BadRequest));
    let unknown = get_fork_info(
        &mgr,
        ForkInfoQuery { fork_id: Some("fork-x-1".to_string()), user_id: None },
        150,
    );
    assert_eq!(unknown.err(), Some(ApiError::NotFound));
}
