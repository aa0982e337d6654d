use solana_fork_engine::ApiError;
use solana_fork_engine::account::Address;
use solana_fork_engine::codec::parse_pubkey;
use solana_fork_engine::fork_manager::ForkManager;
use solana_fork_engine::models::requests::{GetBalanceRequest, SetBalanceRequest, UserQuery};
use solana_fork_engine::routes::balance;

const ADDR_A: &str = "So11111111111111111111111111111111111111112";
const ADDR_B: &str = "SysvarC1ock11111111111111111111111111111111";

fn no_user() -> UserQuery {
    UserQuery { user_id: None }
}

#[test]
fn set_then_get_returns_exactly_the_target() {
    // Scenario: create "alice", set 5 SOL on an address, read it back,
    // credit 1 SOL more, read 6 SOL.
    let mut mgr = ForkManager::new();
    let id = mgr.create_fork("alice".to_string(), 0);
    let set = balance::set_balance(
        &mut mgr,
        no_user(),
        SetBalanceRequest {
            fork_id: Some(id.clone()),
            user_id: None,
            address: ADDR_A.to_string(),
            lamports: 5_000_000_000,
        },
    )
    .unwrap();
    assert!(set.success);
    assert_eq!(set.new_balance, 5_000_000_000);
    let got = balance::get_balance(
        &mgr,
        no_user(),
        GetBalanceRequest { fork_id: Some(id.clone()), user_id: None, address: ADDR_A.to_string() },
    )
    .unwrap();
    assert_eq!(got.lamports, 5_000_000_000);
    balance::airdrop(&mut mgr, no_user(), Some(id.clone()), None, ADDR_A.to_string(), 1_000_000_000)
        .unwrap();
    let got = balance::get_balance(
        &mgr,
        no_user(),
        GetBalanceRequest { fork_id: Some(id), user_id: None, address: ADDR_A.to_string() },
    )
    .unwrap();
    assert_eq!(got.lamports, 6_000_000_000);
}

#[test]
fn set_balance_can_lower_a_balance_and_preserves_other_fields() {
    let mut mgr = ForkManager::new();
    let id = mgr.create_fork("alice".to_string(), 0);
    let addr = parse_pubkey(ADDR_A).unwrap();
    mgr.set_balance(&id, &addr, 5_000_000_000).unwrap();
    mgr.set_balance(&id, &addr, 1_000).unwrap();
    let fork = mgr.get_fork(&id).unwrap();
    assert_eq!(fork.get_balance(&addr), 1_000);
    let rec = fork.get_account(&addr).unwrap();
    assert_eq!(rec.lamports, 1_000);
    assert_eq!(rec.owner, vec![0u8; 32]);
    assert!(!rec.executable);
}

#[test]
fn add_balance_twice_accumulates() {
    let mut mgr = ForkManager::new();
    let id = mgr.create_fork("bob".to_string(), 0);
    let addr = parse_pubkey(ADDR_A).unwrap();
    mgr.set_balance(&id, &addr, 100).unwrap();
    mgr.add_balance(&id, &addr, 7).unwrap();
    mgr.add_balance(&id, &addr, 9).unwrap();
    assert_eq!(mgr.get_fork(&id).unwrap().get_balance(&addr), 116);
}

#[test]
fn add_balance_beyond_range_fails_and_changes_nothing() {
    let mut mgr = ForkManager::new();
    let id = mgr.create_fork("bob".to_string(), 0);
    let addr = parse_pubkey(ADDR_A).unwrap();
    mgr.set_balance(&id, &addr, u64::MAX).unwrap();
    assert!(mgr.add_balance(&id, &addr, 1).is_err());
    assert_eq!(mgr.get_fork(&id).unwrap().get_balance(&addr), u64::MAX);
}

#[test]
fn unqueried_address_reads_zero_not_an_error() {
    let mut mgr = ForkManager::new();
    let id = mgr.create_fork("carol".to_string(), 0);
    let addr = parse_pubkey(ADDR_B).unwrap();
    assert_eq!(mgr.get_fork(&id).unwrap().get_balance(&addr), 0);
}

#[test]
fn malformed_address_is_rejected_before_any_change() {
    let mut mgr = ForkManager::new();
    let id = mgr.create_fork("carol".to_string(), 0);
    let r = balance::set_balance(
        &mut mgr,
        no_user(),
        SetBalanceRequest {
            fork_id: Some(id),
            user_id: None,
            address: "not-an-address!!".to_string(),
            lamports: 5,
        },
    );
    assert_eq!(r.err(), Some(ApiError::BadRequest));
}

#[test]
fn unknown_fork_is_not_found() {
    let mut mgr = ForkManager::new();
    let r = balance::set_balance(
        &mut mgr,
        no_user(),
        SetBalanceRequest {
            fork_id: Some("fork-nobody-0".to_string()),
            user_id: None,
            address: ADDR_A.to_string(),
            lamports: 5,
        },
    );
    assert_eq!(r.err(), Some(ApiError::NotFound));
}

#[test]
fn get_account_reports_fields_without_payload_content() {
    let mut mgr = ForkManager::new();
    let id = mgr.create_fork("dave".to_string(), 0);
    let addr = parse_pubkey(ADDR_A).unwrap();
    let owner = parse_pubkey(ADDR_B).unwrap();
    let rec = solana_fork_engine::account::AccountRec {
        lamports: 11,
        owner: owner.bytes.clone(),
        executable: true,
        rent_epoch: 3,
        data: vec![9, 9, 9, 9],
    };
    let recs: Vec<(Address, solana_fork_engine::account::AccountRec)> = vec![(addr, rec)];
    mgr.install_accounts(&id, recs).unwrap();
    let info = balance::get_account(
        &mgr,
        no_user(),
        GetBalanceRequest { fork_id: Some(id), user_id: None, address: ADDR_A.to_string() },
    )
    .unwrap();
    assert_eq!(info.lamports, 11);
    assert_eq!(info.owner, ADDR_B);
    assert!(info.executable);
    assert_eq!(info.rent_epoch, 3);
    assert_eq!(info.data_length, 4);
}

#[test]
fn query_user_takes_precedence_over_body_user() {
    let mut mgr = ForkManager::new();
    let id_q = mgr.create_fork("query-user".to_string(), 0);
    let _id_b = mgr.create_fork("body-user".to_string(), 0);
    let got = balance::get_balance(
        &mgr,
        UserQuery { user_id: Some("query-user".to_string()) },
        GetBalanceRequest {
            fork_id: None,
            user_id: Some("body-user".to_string()),
            address: ADDR_A.to_string(),
        },
    )
    .unwrap();
    // The balance read ran against the query user's fork.
    assert_eq!(got.lamports, 0);
    let fork = mgr.get_fork(&id_q).unwrap();
    assert_eq!(fork.id, id_q);
}
