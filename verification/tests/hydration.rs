use solana_fork_engine::ApiError;
use solana_fork_engine::account::AccountRec;
use solana_fork_engine::codec::parse_pubkey;
use solana_fork_engine::fork_manager::ForkManager;
use solana_fork_engine::models::requests::{
    CreateMainnetForkRequest, LoadAccountRequest, LoadAccountsRequest, LoadTokenAccountsRequest,
};
use solana_fork_engine::routes::mainnet::{self, FetchedAccount};

const ADDR_1: &str = "So11111111111111111111111111111111111111112";
const ADDR_2: &str = "SysvarC1ock11111111111111111111111111111111";
const OWNER: &str = "SysvarRent111111111111111111111111111111111";

fn rec(lamports: u64, data: Vec<u8>) -> AccountRec {
    AccountRec { lamports, owner: vec![0u8; 32], executable: false, rent_epoch: 0, data }
}

#[test]
fn batch_load_keeps_installed_prefix_when_a_fetch_fails() {
    // Scenario: addr1 fetched fine, addr2 failed on the network; addr1 is
    // installed and reported, and addr2's failure removes nothing.
    let mut mgr = ForkManager::new();
    let id = mgr.create_fork("alice".to_string(), 0);
    let fetched = vec![
        FetchedAccount { address: ADDR_1.to_string(), result: Ok(rec(77, vec![])) },
        FetchedAccount {
            address: ADDR_2.to_string(),
            result: Err("account not found on network".to_string()),
        },
    ];
    let resp = mainnet::load_accounts(
        &mut mgr,
        LoadAccountsRequest {
            fork_id: Some(id.clone()),
            user_id: None,
            addresses: vec![ADDR_1.to_string(), ADDR_2.to_string()],
            rpc_endpoint: None,
        },
        fetched,
    )
    .unwrap();
    assert!(resp.success);
    assert_eq!(resp.accounts_loaded, 1);
    assert_eq!(resp.loaded_addresses, vec![ADDR_1.to_string()]);
    let fork = mgr.get_fork(&id).unwrap();
    let a1 = parse_pubkey(ADDR_1).unwrap();
    let a2 = parse_pubkey(ADDR_2).unwrap();
    assert_eq!(fork.get_balance(&a1), 77);
    assert!(fork.get_account(&a2).is_none());
}

#[test]
fn batch_load_aborts_the_remaining_installs_after_a_failure() {
    let mut mgr = ForkManager::new();
    let id = mgr.create_fork("alice".to_string(), 0);
    let fetched = vec![
        FetchedAccount {
            address: ADDR_1.to_string(),
            result: Err("transport error".to_string()),
        },
        FetchedAccount { address: ADDR_2.to_string(), result: Ok(rec(55, vec![])) },
    ];
    let resp = mainnet::load_accounts(
        &mut mgr,
        LoadAccountsRequest {
            fork_id: Some(id.clone()),
            user_id: None,
            addresses: vec![ADDR_1.to_string(), ADDR_2.to_string()],
            rpc_endpoint: None,
        },
        fetched,
    )
    .unwrap();
    assert_eq!(resp.accounts_loaded, 0);
    assert!(resp.loaded_addresses.is_empty());
    let fork = mgr.get_fork(&id).unwrap();
    let a2 = parse_pubkey(ADDR_2).unwrap();
    // The entry after the failure was not installed.
    assert!(fork.get_account(&a2).is_none());
}

#[test]
fn load_account_reports_upstream_failure_and_installs_nothing() {
    let mut mgr = ForkManager::new();
    let id = mgr.create_fork("bob".to_string(), 0);
    let r = mainnet::load_account(
        &mut mgr,
        LoadAccountRequest {
            fork_id: Some(id.clone()),
            user_id: None,
            address: ADDR_1.to_string(),
            rpc_endpoint: None,
        },
        Err("connection refused".to_string()),
    );
    assert_eq!(r.err(), Some(ApiError::Upstream));
    let a1 = parse_pubkey(ADDR_1).unwrap();
    assert!(mgr.get_fork(&id).unwrap().get_account(&a1).is_none());
}

#[test]
fn load_account_installs_the_fetched_record() {
    let mut mgr = ForkManager::new();
    let id = mgr.create_fork("bob".to_string(), 0);
    let resp = mainnet::load_account(
        &mut mgr,
        LoadAccountRequest {
            fork_id: Some(id.clone()),
            user_id: None,
            address: ADDR_1.to_string(),
            rpc_endpoint: None,
        },
        Ok(rec(123, vec![1, 2, 3])),
    )
    .unwrap();
    assert_eq!(resp.accounts_loaded, 1);
    assert_eq!(resp.loaded_addresses, vec![ADDR_1.to_string()]);
    let a1 = parse_pubkey(ADDR_1).unwrap();
    let got = mgr.get_fork(&id).unwrap().get_account(&a1).unwrap();
    assert_eq!(got.lamports, 123);
    assert_eq!(got.data, vec![1, 2, 3]);
}

#[test]
fn token_account_load_filters_by_embedded_holder() {
    let mut mgr = ForkManager::new();
    let id = mgr.create_fork("carol".to_string(), 0);
    let owner = parse_pubkey(OWNER).unwrap();
    // A token account's holder is payload bytes 32..64.
    let mut owned_data = vec![0u8; 165];
    owned_data[32..64].copy_from_slice(&owner.bytes);
    let mut foreign_data = vec![0u8; 165];
    foreign_data[32] = 0xAA;
    let short_data = vec![0u8; 10];
    let fetched = vec![
        (ADDR_1.to_string(), rec(1, owned_data)),
        (ADDR_2.to_string(), rec(2, foreign_data)),
        (OWNER.to_string(), rec(3, short_data)),
    ];
    let resp = mainnet::load_token_accounts(
        &mut mgr,
        LoadTokenAccountsRequest {
            fork_id: Some(id.clone()),
            user_id: None,
            owner: OWNER.to_string(),
            rpc_endpoint: None,
        },
        Ok(fetched),
    )
    .unwrap();
    assert_eq!(resp.accounts_loaded, 1);
    assert_eq!(resp.loaded_addresses, vec![ADDR_1.to_string()]);
    let a1 = parse_pubkey(ADDR_1).unwrap();
    let a2 = parse_pubkey(ADDR_2).unwrap();
    assert!(mgr.get_fork(&id).unwrap().get_account(&a1).is_some());
    assert!(mgr.get_fork(&id).unwrap().get_account(&a2).is_none());
}

#[test]
fn snapshot_fork_creation_reports_metadata_and_installed_accounts() {
    let mut mgr = ForkManager::new();
    let resp = mainnet::create_mainnet_fork(
        &mut mgr,
        CreateMainnetForkRequest {
            user_id: Some("dana".to_string()),
            accounts: vec![ADDR_1.to_string()],
            rpc_endpoint: None,
        },
        "fallback-user".to_string(),
        50,
        Ok((777, "snapshot-hash".to_string())),
        vec![FetchedAccount { address: ADDR_1.to_string(), result: Ok(rec(5, vec![])) }],
    )
    .unwrap();
    assert_eq!(resp.user_id, "dana");
    assert_eq!(resp.fork_id, "fork-dana-50");
    assert_eq!(resp.created_at, "50");
    assert_eq!(resp.expires_at, "950");
    assert_eq!(resp.mainnet_slot, 777);
    assert_eq!(resp.mainnet_blockhash, "snapshot-hash");
    assert_eq!(resp.accounts_loaded, 1);
    assert_eq!(resp.loaded_addresses, vec![ADDR_1.to_string()]);
}

#[test]
fn snapshot_fork_creation_failure_leaves_registry_empty() {
    let mut mgr = ForkManager::new();
    let r = mainnet::create_mainnet_fork(
        &mut mgr,
        CreateMainnetForkRequest {
            user_id: Some("erin".to_string()),
            accounts: vec![],
            rpc_endpoint: None,
        },
        "fallback-user".to_string(),
        50,
        Err("network unreachable".to_string()),
        vec![],
    );
    assert_eq!(r.err(), Some(ApiError::Upstream));
    assert_eq!(mgr.active_fork_count(), 0);
    assert!(mgr.get_user_fork_id("erin").is_none());
}
