use vstd::prelude::*;

use crate::ApiError;
use crate::codec::{
    addr_of, b58_of, b64_of, base64_encode, bs58_encode, parse_pubkey, pubkey_b58_of,
    address_to_base58, str_eq,
};
use crate::account::Address;
use crate::fork::Fork;
use crate::fork_manager::ForkManager;
use crate::ledger::Ledger;
use crate::models::requests::RpcQuery;
use crate::models::rpc::{EncodedAccount, RpcReply, RpcValue};
use crate::utils::{resolve_fork_selector, spec_selector_err, spec_selector_fork, view_opt};

verus! {

/// The ledger-call reply for a balance read.
pub open spec fn spec_balance_reply(f: crate::fork::ForkView, address: Seq<char>) -> RpcValue {
    RpcValue::Balance {
        slot: f.slot,
        lamports: Ledger::spec_balance(f.state, addr_of(address).unwrap()),
    }
}

/// The reply of an account read: the record's fields with its payload
/// encoded in base64 (or base58 when asked for), a null value for an
/// absent account, and a reported error for a missing or malformed
/// address parameter.
pub open spec fn spec_account_info_reply(
    f: crate::fork::ForkView,
    reply: RpcReply,
    address_param: Option<String>,
) -> bool {
    match address_param {
        Some(a) => if addr_of(a@) is Some {
            if f.state.contains_key(addr_of(a@).unwrap()) {
                let rec = f.state[addr_of(a@).unwrap()];
                match reply.result {
                    Some(v) => v matches RpcValue::AccountInfo { slot, value } && slot == f.slot
                        && match value {
                        Some(enc) => {
                            &&& enc.lamports == rec.lamports
                            &&& enc.owner@ == pubkey_b58_of(rec.owner)
                            &&& enc.executable == rec.executable
                            &&& enc.rent_epoch == rec.rent_epoch
                            &&& (enc.encoding@ == "base58"@ ==> enc.data@ == b58_of(rec.data))
                            &&& (enc.encoding@ != "base58"@ ==> enc.data@ == b64_of(rec.data)
                                && enc.encoding@ == "base64"@)
                        },
                        None => false,
                    },
                    None => false,
                }
            } else {
                reply.result == Some(RpcValue::AccountInfo { slot: f.slot, value: None })
                    && reply.error is None
            }
        } else {
            reply.result is None && (reply.error matches Some(err) && err.code == -32601)
        },
        None => reply.result is None && (reply.error matches Some(err) && err.code == -32601),
    }
}

/// Answer one ledger call against the selected fork. An unknown method, a
/// missing or malformed address parameter, and a version other than "2.0"
/// are reported inside the reply, as the wire protocol asks; an unknown
/// fork or user is a transport-level error.
pub fn handle_rpc(
    state: &ForkManager,
    query: RpcQuery,
    jsonrpc: &String,
    id: u64,
    method: &String,
    address_param: Option<String>,
    encoding_param: Option<String>,
) -> (r: Result<RpcReply, ApiError>)
    requires
        state.wf(),
    ensures
        r is Ok ==> r.unwrap().id == id,
        jsonrpc@ != "2.0"@ ==> r is Ok && r.unwrap().result is None && (
        r.unwrap().error matches Some(e) && e.code == -32600),
        jsonrpc@ == "2.0"@ ==> {
            let fid = view_opt(query.fork_id);
            let uid = view_opt(query.user_id);
            match spec_selector_err(state@, fid, uid) {
                Some(e) => if e == ApiError::BadRequest {
                    // Naming neither selector is reported in the reply.
                    r is Ok && r.unwrap().result is None && (r.unwrap().error matches Some(err)
                        && err.code == -32602)
                } else {
                    r == Err::<RpcReply, ApiError>(e)
                },
                None => {
                    let fork = spec_selector_fork(state@, fid, uid);
                    if state@.forks.contains_key(fork) {
                        let f = state@.forks[fork];
                        r is Ok && {
                            if method@ == "getBalance"@ {
                                match address_param {
                                    Some(a) => if addr_of(a@) is Some {
                                        r.unwrap().result == Some(spec_balance_reply(f, a@))
                                            && r.unwrap().error is None
                                    } else {
                                        r.unwrap().result is None && (r.unwrap().error matches
                                        Some(err) && err.code == -32601)
                                    },
                                    None => r.unwrap().result is None && (r.unwrap().error matches
                                    Some(err) && err.code == -32601),
                                }
                            } else if method@ == "getSlot"@ {
                                r.unwrap().result == Some(RpcValue::Slot { slot: f.slot })
                                    && r.unwrap().error is None
                            } else if method@ == "getBlockHeight"@ {
                                r.unwrap().result == Some(RpcValue::BlockHeight { height: f.slot })
                                    && r.unwrap().error is None
                            } else if method@ == "getLatestBlockhash"@ {
                                match r.unwrap().result {
                                    Some(v) => v matches RpcValue::LatestBlockhash {
                                        slot,
                                        blockhash,
                                        last_valid_block_height,
                                    } && slot == f.slot && blockhash@ == f.mainnet_blockhash
                                        && last_valid_block_height == (if f.slot + 150 <= u64::MAX {
                                        f.slot + 150
                                    } else {
                                        u64::MAX as int
                                    }),
                                    None => false,
                                }
                            } else if method@ == "getHealth"@ {
                                r.unwrap().result == Some(RpcValue::Health) && r.unwrap().error
                                    is None
                            } else if method@ == "getVersion"@ {
                                r.unwrap().result == Some(RpcValue::Version) && r.unwrap().error
                                    is None
                            } else if method@ == "getAccountInfo"@ {
                                spec_account_info_reply(f, r.unwrap(), address_param)
                            } else {
                                // An unsupported method is reported in the reply.
                                r.unwrap().result is None && (r.unwrap().error matches Some(err)
                                    && err.code == -32601)
                            }
                        }
                    } else {
                        r == Err::<RpcReply, ApiError>(ApiError::NotFound)
                    }
                },
            }
        },
{
    if !str_eq(jsonrpc.as_str(), "2.0") {
        return Ok(RpcReply::error(id, -32600, String::from_str("Invalid JSON-RPC version")));
    }
    let fork_id = match resolve_fork_selector(state, &query.fork_id, &query.user_id) {
        Ok(fid) => fid,
        Err(ApiError::BadRequest) => {
            return Ok(RpcReply::error(
                id,
                -32602,
                String::from_str("Missing fork_id or user_id parameter"),
            ));
        },
        Err(e) => {
            return Err(e);
        },
    };
    let fork = match state.get_fork(fork_id.as_str()) {
        Some(f) => f,
        None => {
            return Err(ApiError::NotFound);
        },
    };
    if str_eq(method.as_str(), "getBalance") {
        Ok(handle_get_balance(fork, id, address_param))
    } else if str_eq(method.as_str(), "getSlot") {
        Ok(RpcReply::success(id, RpcValue::Slot { slot: fork.slot }))
    } else if str_eq(method.as_str(), "getBlockHeight") {
        Ok(RpcReply::success(id, RpcValue::BlockHeight { height: fork.slot }))
    } else if str_eq(method.as_str(), "getLatestBlockhash") {
        let last_valid: u64 = match fork.slot.checked_add(150) {
            Some(v) => v,
            None => u64::MAX,
        };
        Ok(RpcReply::success(
            id,
            RpcValue::LatestBlockhash {
                slot: fork.slot,
                blockhash: fork.mainnet_blockhash.clone(),
                last_valid_block_height: last_valid,
            },
        ))
    } else if str_eq(method.as_str(), "getHealth") {
        Ok(RpcReply::success(id, RpcValue::Health))
    } else if str_eq(method.as_str(), "getVersion") {
        Ok(RpcReply::success(id, RpcValue::Version))
    } else if str_eq(method.as_str(), "getAccountInfo") {
        Ok(handle_get_account_info(fork, id, address_param, encoding_param))
    } else {
        let mut message = String::from_str("Method not supported: ");
        message.append(method.as_str());
        Ok(RpcReply::error(id, -32601, message))
    }
}

/// Answer a balance read: an absent account reads as zero.
fn handle_get_balance(fork: &Fork, id: u64, address_param: Option<String>) -> (r: RpcReply)
    requires
        fork.wf(),
    ensures
        r.id == id,
        match address_param {
            Some(a) => if addr_of(a@) is Some {
                r.result == Some(spec_balance_reply(fork@, a@)) && r.error is None
            } else {
                r.result is None && (r.error matches Some(err) && err.code == -32601)
            },
            None => r.result is None && (r.error matches Some(err) && err.code == -32601),
        },
{
    let address_str = match address_param {
        Some(a) => a,
        None => {
            return RpcReply::error(id, -32601, String::from_str("Missing address parameter"));
        },
    };
    let address = match parse_pubkey(address_str.as_str()) {
        Some(a) => a,
        None => {
            return RpcReply::error(id, -32601, String::from_str("Invalid pubkey"));
        },
    };
    let lamports = fork.get_balance(&address);
    RpcReply::success(id, RpcValue::Balance { slot: fork.slot, lamports })
}

/// Answer an account read: the record's fields with its payload encoded in
/// base64, or base58 when asked for; an absent account has a null value.
fn handle_get_account_info(
    fork: &Fork,
    id: u64,
    address_param: Option<String>,
    encoding_param: Option<String>,
) -> (r: RpcReply)
    requires
        fork.wf(),
    ensures
        r.id == id,
        spec_account_info_reply(fork@, r, address_param),
{
    let address_str = match address_param {
        Some(a) => a,
        None => {
            return RpcReply::error(id, -32601, String::from_str("Missing address parameter"));
        },
    };
    let address = match parse_pubkey(address_str.as_str()) {
        Some(a) => a,
        None => {
            return RpcReply::error(id, -32601, String::from_str("Invalid pubkey"));
        },
    };
    proof {
        reveal_strlit("base58");
        reveal_strlit("base64");
        assert("base58"@[4] == '5');
        assert("base64"@[4] == '6');
        assert("base58"@ != "base64"@);
    }
    let encoding = match encoding_param {
        Some(e) => e,
        None => String::from_str("base64"),
    };
    match fork.get_account(&address) {
        Some(rec) => {
            // Installed records always carry 32-byte owners.
            let owner_addr = Address { bytes: rec.owner };
            let wants_base58 = str_eq(encoding.as_str(), "base58");
            let encoded: String = if wants_base58 {
                bs58_encode(rec.data.as_slice())
            } else {
                base64_encode(rec.data.as_slice())
            };
            let enc_name: String = if wants_base58 {
                String::from_str("base58")
            } else {
                String::from_str("base64")
            };
            RpcReply::success(
                id,
                RpcValue::AccountInfo {
                    slot: fork.slot,
                    value: Some(
                        EncodedAccount {
                            lamports: rec.lamports,
                            owner: address_to_base58(&owner_addr),
                            executable: rec.executable,
                            rent_epoch: rec.rent_epoch,
                            data: encoded,
                            encoding: enc_name,
                        },
                    ),
                },
            )
        },
        None => RpcReply::success(id, RpcValue::AccountInfo { slot: fork.slot, value: None }),
    }
}

} // verus!
