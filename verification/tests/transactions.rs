use base64::Engine;
use solana_fork_engine::ApiError;
use solana_fork_engine::codec::{keypair_pubkey, address_to_base58};
use solana_fork_engine::fork::EngineOutcome;
use solana_fork_engine::fork_manager::ForkManager;
use solana_fork_engine::models::requests::SendTransactionRequest;
use solana_fork_engine::routes::transaction::{
    decode_raw_transaction, send_transaction, transfer_sol_prepare, transfer_sol_submit,
};
use solana_fork_engine::utils::parse_keypair;

fn keypair_json(seed_byte: u8) -> String {
    let mut s = String::from("[");
    for i in 0..32 {
        if i > 0 {
            s.push(',');
        }
        s.push_str(&format!("{}", seed_byte));
        let _ = i;
    }
    s.push(']');
    s
}

#[test]
fn raw_transaction_round_trip_is_submitted_with_the_engine_verdict() {
    let mut mgr = ForkManager::new();
    let id = mgr.create_fork("alice".to_string(), 0);
    let key_json = keypair_json(3);
    let kp = parse_keypair(&key_json).unwrap();
    let from = address_to_base58(&keypair_pubkey(&kp));
    let to = "So11111111111111111111111111111111111111112".to_string();
    let (tx, fork_id) = transfer_sol_prepare(
        &mgr,
        &Some(id.clone()),
        &None,
        &from,
        &to,
        1000,
        &key_json,
    )
    .unwrap();
    assert_eq!(fork_id, id);
    // Serialize it to the wire form a caller would submit.
    let raw = bincode::serialize(&tx).unwrap();
    let encoded = base64::engine::general_purpose::STANDARD.encode(&raw);
    let outcome = EngineOutcome { success: true, error: None, updates: Vec::new() };
    let resp = send_transaction(
        &mut mgr,
        SendTransactionRequest { fork_id: Some(id.clone()), user_id: None, transaction: encoded },
        outcome,
    )
    .unwrap();
    assert!(resp.success);
    assert!(!resp.signature.is_empty());
    let fork = mgr.get_fork(&id).unwrap();
    assert_eq!(fork.transaction_count, 1);
    assert_eq!(fork.slot, 1);
}

#[test]
fn malformed_raw_transactions_are_request_errors() {
    assert_eq!(decode_raw_transaction("!!!").err(), Some(ApiError::BadRequest));
    // Valid base64 that is not a serialized transaction.
    assert_eq!(decode_raw_transaction("aGVsbG8=").err(), Some(ApiError::BadRequest));
    let mut mgr = ForkManager::new();
    let id = mgr.create_fork("alice".to_string(), 0);
    let outcome = EngineOutcome { success: true, error: None, updates: Vec::new() };
    let r = send_transaction(
        &mut mgr,
        SendTransactionRequest {
            fork_id: Some(id.clone()),
            user_id: None,
            transaction: "!!!".to_string(),
        },
        outcome,
    );
    assert_eq!(r.err(), Some(ApiError::BadRequest));
    // Counters are untouched by a rejected submission.
    assert_eq!(mgr.get_fork(&id).unwrap().transaction_count, 0);
}

#[test]
fn transfer_rejects_a_key_that_is_not_the_sender() {
    let mgr = {
        let mut m = ForkManager::new();
        m.create_fork("alice".to_string(), 0);
        m
    };
    let key_json = keypair_json(3);
    let r = transfer_sol_prepare(
        &mgr,
        &None,
        &Some("alice".to_string()),
        // Not the public key the signing key derives.
        &"So11111111111111111111111111111111111111112".to_string(),
        &"SysvarC1ock11111111111111111111111111111111".to_string(),
        5,
        &key_json,
    );
    assert_eq!(r.err(), Some(ApiError::BadRequest));
}

#[test]
fn transfer_submission_reports_parties_and_advances_counters() {
    let mut mgr = ForkManager::new();
    let id = mgr.create_fork("alice".to_string(), 0);
    let outcome = EngineOutcome {
        success: false,
        error: Some("insufficient funds".to_string()),
        updates: Vec::new(),
    };
    let resp = transfer_sol_submit(
        &mut mgr,
        id.clone(),
        "sender".to_string(),
        "receiver".to_string(),
        1234,
        "sig-xyz".to_string(),
        outcome,
    )
    .unwrap();
    // A failed execution is still a processed submission.
    assert!(!resp.success);
    assert_eq!(resp.from, "sender");
    assert_eq!(resp.to, "receiver");
    assert_eq!(resp.amount_lamports, 1234);
    assert_eq!(resp.signature, "sig-xyz");
    assert_eq!(resp.error.as_deref(), Some("insufficient funds"));
    let fork = mgr.get_fork(&id).unwrap();
    assert_eq!(fork.transaction_count, 1);
    assert_eq!(fork.slot, 1);
}

#[test]
fn engine_updates_are_installed_on_submission() {
    let mut mgr = ForkManager::new();
    let id = mgr.create_fork("alice".to_string(), 0);
    let addr = solana_fork_engine::codec::parse_pubkey(
        "So11111111111111111111111111111111111111112",
    )
    .unwrap();
    let updated = solana_fork_engine::account::AccountRec {
        lamports: 424242,
        owner: vec![0u8; 32],
        executable: false,
        rent_epoch: 0,
        data: vec![],
    };
    let outcome = EngineOutcome { success: true, error: None, updates: vec![(addr, updated)] };
    transfer_sol_submit(
        &mut mgr,
        id.clone(),
        "a".to_string(),
        "b".to_string(),
        1,
        "sig".to_string(),
        outcome,
    )
    .unwrap();
    let addr2 = solana_fork_engine::codec::parse_pubkey(
        "So11111111111111111111111111111111111111112",
    )
    .unwrap();
    assert_eq!(mgr.get_fork(&id).unwrap().get_balance(&addr2), 424242);
}
