use solana_fork_engine::codec::{
    address_to_base58, base64_decode, base64_encode, bs58_encode, keypair_pubkey, parse_pubkey,
    u64_to_string,
};
use solana_fork_engine::fork_manager::ForkManager;
use solana_fork_engine::models::requests::RpcQuery;
use solana_fork_engine::models::rpc::RpcValue;
use solana_fork_engine::routes::rpc::handle_rpc;
use solana_fork_engine::utils::parse_keypair;

const ADDR_A: &str = "So11111111111111111111111111111111111111112";

#[test]
fn address_parse_and_render_round_trip() {
    let addr = parse_pubkey(ADDR_A).unwrap();
    assert_eq!(addr.bytes.len(), 32);
    assert_eq!(address_to_base58(&addr), ADDR_A);
}

#[test]
fn malformed_addresses_are_rejected() {
    assert!(parse_pubkey("0OIl").is_none());
    assert!(parse_pubkey("").is_none());
    assert!(parse_pubkey("abc").is_none());
}

#[test]
fn base64_round_trip_and_exact_value() {
    assert_eq!(base64_decode("aGVsbG8=").unwrap(), b"hello".to_vec());
    assert_eq!(base64_encode(b"hello"), "aGVsbG8=");
    assert!(base64_decode("!!!").is_none());
}

#[test]
fn base58_encoding_of_known_bytes() {
    // The all-zero 32-byte key renders as 32 ones in base58.
    assert_eq!(bs58_encode(&[0u8; 32]), "11111111111111111111111111111111");
}

#[test]
fn decimal_rendering_is_exact() {
    assert_eq!(u64_to_string(0), "0");
    assert_eq!(u64_to_string(42), "42");
    assert_eq!(u64_to_string(u64::MAX), "18446744073709551615");
}

#[test]
fn keypair_json_forms_agree_on_the_secret_seed() {
    // A 64-byte array uses only its first 32 bytes as the secret seed, so
    // both forms must derive the same public key.
    let mut long = String::from("[");
    for i in 0..64 {
        if i > 0 {
            long.push(',');
        }
        long.push_str(&format!("{}", (i % 7) + 1));
    }
    long.push(']');
    let mut short = String::from("[");
    for i in 0..32 {
        if i > 0 {
            short.push(',');
        }
        short.push_str(&format!("{}", (i % 7) + 1));
    }
    short.push(']');
    let kp_long = parse_keypair(&long).unwrap();
    let kp_short = parse_keypair(&short).unwrap();
    assert_eq!(keypair_pubkey(&kp_long).bytes, keypair_pubkey(&kp_short).bytes);
}

#[test]
fn keypair_garbage_is_rejected() {
    assert!(parse_keypair("[1,2,3]").is_err());
    assert!(parse_keypair("definitely not a key !!!").is_err());
}

#[test]
fn rpc_version_check_and_unknown_method() {
    let mut mgr = ForkManager::new();
    let id = mgr.create_fork("alice".to_string(), 0);
    let reply = handle_rpc(
        &mgr,
        RpcQuery { user_id: None, fork_id: Some(id.clone()) },
        &"1.0".to_string(),
        7,
        &"getSlot".to_string(),
        None,
        None,
    )
    .unwrap();
    assert_eq!(reply.id, 7);
    assert!(reply.result.is_none());
    assert_eq!(reply.error.as_ref().unwrap().code, -32600);
    let reply = handle_rpc(
        &mgr,
        RpcQuery { user_id: None, fork_id: Some(id) },
        &"2.0".to_string(),
        8,
        &"getTowers".to_string(),
        None,
        None,
    )
    .unwrap();
    assert_eq!(reply.error.as_ref().unwrap().code, -32601);
}

#[test]
fn rpc_get_balance_and_slot() {
    let mut mgr = ForkManager::new();
    let id = mgr.create_fork("alice".to_string(), 0);
    let addr = parse_pubkey(ADDR_A).unwrap();
    mgr.set_balance(&id, &addr, 99).unwrap();
    let reply = handle_rpc(
        &mgr,
        RpcQuery { user_id: Some("alice".to_string()), fork_id: None },
        &"2.0".to_string(),
        1,
        &"getBalance".to_string(),
        Some(ADDR_A.to_string()),
        None,
    )
    .unwrap();
    match reply.result.unwrap() {
        RpcValue::Balance { slot, lamports } => {
            assert_eq!(slot, 0);
            assert_eq!(lamports, 99);
        },
        _ => panic!("wrong reply variant"),
    }
    let reply = handle_rpc(
        &mgr,
        RpcQuery { user_id: Some("alice".to_string()), fork_id: None },
        &"2.0".to_string(),
        2,
        &"getSlot".to_string(),
        None,
        None,
    )
    .unwrap();
    assert!(matches!(reply.result, Some(RpcValue::Slot { slot: 0 })));
}

#[test]
fn rpc_get_account_info_encodes_payload() {
    let mut mgr = ForkManager::new();
    let id = mgr.create_fork("alice".to_string(), 0);
    let addr = parse_pubkey(ADDR_A).unwrap();
    let rec = solana_fork_engine::account::AccountRec {
        lamports: 5,
        owner: vec![0u8; 32],
        executable: false,
        rent_epoch: 0,
        data: b"hello".to_vec(),
    };
    mgr.install_accounts(&id, vec![(addr, rec)]).unwrap();
    let reply = handle_rpc(
        &mgr,
        RpcQuery { user_id: None, fork_id: Some(id.clone()) },
        &"2.0".to_string(),
        3,
        &"getAccountInfo".to_string(),
        Some(ADDR_A.to_string()),
        None,
    )
    .unwrap();
    match reply.result.unwrap() {
        RpcValue::AccountInfo { slot: _, value } => {
            let enc = value.unwrap();
            assert_eq!(enc.lamports, 5);
            assert_eq!(enc.data, "aGVsbG8=");
            assert_eq!(enc.encoding, "base64");
            assert_eq!(enc.owner, "11111111111111111111111111111111");
        },
        _ => panic!("wrong reply variant"),
    }
    // Absent accounts read as a null value, not an error.
    let reply = handle_rpc(
        &mgr,
        RpcQuery { user_id: None, fork_id: Some(id) },
        &"2.0".to_string(),
        4,
        &"getAccountInfo".to_string(),
        Some("SysvarC1ock11111111111111111111111111111111".to_string()),
        None,
    )
    .unwrap();
    assert!(matches!(reply.result, Some(RpcValue::AccountInfo { value: None, .. })));
}

#[test]
fn rpc_latest_blockhash_reports_origin_hash() {
    let mut mgr = ForkManager::new();
    let id = mgr
        .create_fork_with_mainnet_sync("alice".to_string(), 0, Ok((10, "abcdef".to_string())))
        .unwrap();
    let reply = handle_rpc(
        &mgr,
        RpcQuery { user_id: None, fork_id: Some(id) },
        &"2.0".to_string(),
        5,
        &"getLatestBlockhash".to_string(),
        None,
        None,
    )
    .unwrap();
    match reply.result.unwrap() {
        RpcValue::LatestBlockhash { slot, blockhash, last_valid_block_height } => {
            assert_eq!(slot, 10);
            assert_eq!(blockhash, "abcdef");
            assert_eq!(last_valid_block_height, 160);
        },
        _ => panic!("wrong reply variant"),
    }
}
