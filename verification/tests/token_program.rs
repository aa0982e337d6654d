use solana_fork_engine::ApiError;
use solana_fork_engine::account::AccountRec;
use solana_fork_engine::codec::parse_pubkey;
use solana_fork_engine::fork::EngineOutcome;
use solana_fork_engine::fork_manager::ForkManager;
use solana_fork_engine::models::program::{
    DeployProgramRequest, GetProgramRequest, LoadProgramRequest,
};
use solana_fork_engine::models::token::{GetTokenBalanceRequest, MintTokensRequest};
use solana_fork_engine::routes::program::{deploy_program, get_program_info, load_program};
use solana_fork_engine::routes::token::{get_token_balance, mint_tokens};
use solana_fork_engine::txbuild::unpack_token_account;

const MINT: &str = "So11111111111111111111111111111111111111112";
const DEST: &str = "SysvarC1ock11111111111111111111111111111111";
const HOLDER: &str = "SysvarRent111111111111111111111111111111111";

/// A minimal initialized token-account payload: mint, holder, amount, and
/// an initialized state byte.
fn token_account_data(mint: &str, holder: &str, amount: u64) -> Vec<u8> {
    let mut data = vec![0u8; 165];
    data[0..32].copy_from_slice(&parse_pubkey(mint).unwrap().bytes);
    data[32..64].copy_from_slice(&parse_pubkey(holder).unwrap().bytes);
    data[64..72].copy_from_slice(&amount.to_le_bytes());
    data[108] = 1;
    data
}

fn keypair_json(seed_byte: u8) -> String {
    let mut s = String::from("[");
    for i in 0..32 {
        if i > 0 {
            s.push(',');
        }
        s.push_str(&format!("{}", seed_byte));
    }
    s.push(']');
    s
}

#[test]
fn token_account_layout_is_decoded_exactly() {
    let data = token_account_data(MINT, HOLDER, 123_456);
    let rec = unpack_token_account(&data).unwrap();
    assert_eq!(rec.amount, 123_456);
    assert_eq!(rec.mint.bytes, parse_pubkey(MINT).unwrap().bytes);
    assert_eq!(rec.owner.bytes, parse_pubkey(HOLDER).unwrap().bytes);
    // An uninitialized record is rejected.
    let mut bad = token_account_data(MINT, HOLDER, 1);
    bad[108] = 0;
    assert!(unpack_token_account(&bad).is_none());
    // A record of the wrong size is rejected.
    assert!(unpack_token_account(&vec![0u8; 100]).is_none());
}

#[test]
fn get_token_balance_reads_the_stored_record() {
    let mut mgr = ForkManager::new();
    let id = mgr.create_fork("alice".to_string(), 0);
    let acct = parse_pubkey(DEST).unwrap();
    let rec = AccountRec {
        lamports: 1,
        owner: vec![0u8; 32],
        executable: false,
        rent_epoch: 0,
        data: token_account_data(MINT, HOLDER, 999),
    };
    mgr.install_accounts(&id, vec![(acct, rec)]).unwrap();
    let resp = get_token_balance(
        &mgr,
        GetTokenBalanceRequest { user_id: "alice".to_string(), token_account: DEST.to_string() },
    )
    .unwrap();
    assert_eq!(resp.balance, 999);
    assert_eq!(resp.mint, MINT);
    assert_eq!(resp.owner, HOLDER);
}

#[test]
fn mint_tokens_installs_updates_and_reports_the_new_balance() {
    let mut mgr = ForkManager::new();
    mgr.create_fork("alice".to_string(), 0);
    let dest = parse_pubkey(DEST).unwrap();
    let updated = AccountRec {
        lamports: 1,
        owner: vec![0u8; 32],
        executable: false,
        rent_epoch: 0,
        data: token_account_data(MINT, HOLDER, 5000),
    };
    let outcome = EngineOutcome { success: true, error: None, updates: vec![(dest, updated)] };
    let resp = mint_tokens(
        &mut mgr,
        MintTokensRequest {
            user_id: "alice".to_string(),
            mint_authority_keypair: keypair_json(5),
            mint_address: MINT.to_string(),
            destination_account: DEST.to_string(),
            amount: 5000,
        },
        outcome,
    )
    .unwrap();
    assert_eq!(resp.new_balance, 5000);
}

#[test]
fn token_ops_for_an_unbound_user_are_not_found() {
    let mut mgr = ForkManager::new();
    let outcome = EngineOutcome { success: true, error: None, updates: Vec::new() };
    let r = mint_tokens(
        &mut mgr,
        MintTokensRequest {
            user_id: "ghost".to_string(),
            mint_authority_keypair: keypair_json(5),
            mint_address: MINT.to_string(),
            destination_account: DEST.to_string(),
            amount: 1,
        },
        outcome,
    );
    assert_eq!(r.err(), Some(ApiError::NotFound));
}

#[test]
fn deploy_program_reports_the_decoded_size() {
    let mut mgr = ForkManager::new();
    mgr.create_fork("alice".to_string(), 0);
    let outcome = EngineOutcome { success: true, error: None, updates: Vec::new() };
    let resp = deploy_program(
        &mut mgr,
        DeployProgramRequest {
            user_id: "alice".to_string(),
            program_keypair: keypair_json(9),
            // "hello" encoded in base64: five bytes of program data.
            program_data: "aGVsbG8=".to_string(),
            payer_keypair: keypair_json(3),
        },
        outcome,
    )
    .unwrap();
    assert!(resp.success);
    assert_eq!(resp.deployed_size, 5);
}

#[test]
fn load_program_installs_and_describes_the_fetched_account() {
    let mut mgr = ForkManager::new();
    mgr.create_fork("alice".to_string(), 0);
    let fetched = AccountRec {
        lamports: 10,
        owner: vec![7u8; 32],
        executable: true,
        rent_epoch: 0,
        data: vec![0xDE, 0xAD, 0xBE, 0xEF],
    };
    let resp = load_program(
        &mut mgr,
        LoadProgramRequest {
            user_id: "alice".to_string(),
            program_id: MINT.to_string(),
            rpc_endpoint: None,
        },
        Ok(fetched),
    )
    .unwrap();
    assert!(resp.success);
    assert_eq!(resp.program_size, 4);
    assert!(resp.is_executable);
    let info = get_program_info(
        &mgr,
        GetProgramRequest { user_id: "alice".to_string(), program_id: MINT.to_string() },
    )
    .unwrap();
    assert_eq!(info.data_size, 4);
    assert!(info.executable);
    assert_eq!(info.lamports, 10);
}

#[test]
fn load_program_upstream_failure_installs_nothing() {
    let mut mgr = ForkManager::new();
    mgr.create_fork("alice".to_string(), 0);
    let r = load_program(
        &mut mgr,
        LoadProgramRequest {
            user_id: "alice".to_string(),
            program_id: MINT.to_string(),
            rpc_endpoint: None,
        },
        Err("connection refused".to_string()),
    );
    assert_eq!(r.err(), Some(ApiError::Upstream));
    let info = get_program_info(
        &mgr,
        GetProgramRequest { user_id: "alice".to_string(), program_id: MINT.to_string() },
    );
    assert_eq!(info.err(), Some(ApiError::NotFound));
}
