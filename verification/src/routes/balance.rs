use vstd::prelude::*;

use crate::ApiError;
use crate::account::Address;
use crate::codec::{addr_of, parse_pubkey, pubkey_b58_of, address_to_base58};
use crate::fork::{ForkView, spec_add_balance, spec_set_balance};
use crate::fork_manager::ForkManager;
use crate::ledger::Ledger;
use crate::models::requests::{GetBalanceRequest, SetBalanceRequest, UserQuery};
use crate::models::responses::{AccountInfo, AirdropResponse, GetBalanceResponse, SetBalanceResponse};
use crate::utils::{resolve_fork_selector, spec_selector_err, spec_selector_fork, view_opt};

verus! {

/// The user selector of a balance call: the query parameter wins over the
/// request body.
pub open spec fn spec_user_choice(query: Option<Seq<char>>, body: Option<Seq<char>>) -> Option<
    Seq<char>,
> {
    match query {
        Some(u) => Some(u),
        None => body,
    }
}

/// Prefer the query's user id over the request body's.
fn choose_user(query: Option<String>, body: Option<String>) -> (r: Option<String>)
    ensures
        view_opt(r) == spec_user_choice(view_opt(query), view_opt(body)),
{
    match query {
        Some(u) => Some(u),
        None => body,
    }
}

/// Set an account balance to an exact amount: a malformed address is
/// rejected before any state changes, the fork is selected by id or user
/// binding, and on success the account holds exactly the requested
/// balance.
pub fn set_balance(state: &mut ForkManager, query: UserQuery, payload: SetBalanceRequest) -> (r:
    Result<SetBalanceResponse, ApiError>)
    requires
        old(state).wf(),
    ensures
        final(state).wf(),
        addr_of(payload.address@) is None ==> {
            &&& r == Err::<SetBalanceResponse, ApiError>(ApiError::BadRequest)
            &&& final(state)@ == old(state)@
        },
        addr_of(payload.address@) is Some ==> {
            let uid = spec_user_choice(view_opt(query.user_id), view_opt(payload.user_id));
            let fid = view_opt(payload.fork_id);
            match spec_selector_err(old(state)@, fid, uid) {
                Some(e) => r == Err::<SetBalanceResponse, ApiError>(e) && final(state)@ == old(state)@,
                None => {
                    let fork = spec_selector_fork(old(state)@, fid, uid);
                    if old(state)@.forks.contains_key(fork) {
                        &&& r is Ok
                        &&& r.unwrap().success
                        &&& r.unwrap().address@ == payload.address@
                        &&& r.unwrap().new_balance == payload.lamports
                        &&& final(state)@.forks == old(state)@.forks.insert(
                            fork,
                            ForkView {
                                state: spec_set_balance(
                                    old(state)@.forks[fork].state,
                                    addr_of(payload.address@).unwrap(),
                                    payload.lamports,
                                ),
                                ..old(state)@.forks[fork]
                            },
                        )
                        &&& final(state)@.user_forks == old(state)@.user_forks
                    } else {
                        r == Err::<SetBalanceResponse, ApiError>(ApiError::NotFound) && final(state)@ == old(state)@
                    }
                },
            }
        },
    {
        let address = match parse_pubkey(payload.address.as_str()) {
            Some(a) => a,
            None => {
                return Err(ApiError::BadRequest);
            },
        };
        let user_id = choose_user(query.user_id, payload.user_id);
        let fork_id = resolve_fork_selector(state, &payload.fork_id, &user_id)?;
        state.set_balance(fork_id.as_str(), &address, payload.lamports)?;
        Ok(SetBalanceResponse {
            success: true,
            message: String::from_str("Balance set successfully"),
            address: payload.address,
            new_balance: payload.lamports,
        })
    }

/// Credit lamports onto an account (an airdrop adds; it never overwrites):
/// the malformed-address and selection errors mirror `set_balance`, and a
/// credited balance beyond the 64-bit range is an internal error that
/// changes nothing.
pub fn airdrop(state: &mut ForkManager, query: UserQuery, fork_id: Option<String>, user_id: Option<
    String,
>, address: String, lamports: u64) -> (r: Result<AirdropResponse, ApiError>)
    requires
        old(state).wf(),
    ensures
        final(state).wf(),
        addr_of(address@) is None ==> {
            &&& r == Err::<AirdropResponse, ApiError>(ApiError::BadRequest)
            &&& final(state)@ == old(state)@
        },
        addr_of(address@) is Some ==> {
            let uid = spec_user_choice(view_opt(query.user_id), view_opt(user_id));
            let fid = view_opt(fork_id);
            match spec_selector_err(old(state)@, fid, uid) {
                Some(e) => r == Err::<AirdropResponse, ApiError>(e) && final(state)@ == old(state)@,
                None => {
                    let fork = spec_selector_fork(old(state)@, fid, uid);
                    let a = addr_of(address@).unwrap();
                    if old(state)@.forks.contains_key(fork) {
                        if Ledger::spec_balance(old(state)@.forks[fork].state, a) + lamports
                            <= u64::MAX {
                            &&& r is Ok
                            &&& r.unwrap().success
                            &&& r.unwrap().address@ == address@
                            &&& r.unwrap().amount_lamports == lamports
                            &&& final(state)@.forks == old(state)@.forks.insert(
                                fork,
                                ForkView {
                                    state: spec_add_balance(
                                        old(state)@.forks[fork].state,
                                        a,
                                        lamports,
                                    ),
                                    ..old(state)@.forks[fork]
                                },
                            )
                            &&& final(state)@.user_forks == old(state)@.user_forks
                        } else {
                            r == Err::<AirdropResponse, ApiError>(ApiError::Internal) && final(state)@ == old(state)@
                        }
                    } else {
                        r == Err::<AirdropResponse, ApiError>(ApiError::NotFound) && final(state)@ == old(state)@
                    }
                },
            }
        },
    {
        let parsed = match parse_pubkey(address.as_str()) {
            Some(a) => a,
            None => {
                return Err(ApiError::BadRequest);
            },
        };
        let user = choose_user(query.user_id, user_id);
        let selected = resolve_fork_selector(state, &fork_id, &user)?;
        state.add_balance(selected.as_str(), &parsed, lamports)?;
        Ok(AirdropResponse {
            success: true,
            message: String::from_str("Airdrop credited"),
            address,
            amount_lamports: lamports,
        })
    }

/// Read an account balance; an address never written to reads as zero.
pub fn get_balance(state: &ForkManager, query: UserQuery, payload: GetBalanceRequest) -> (r:
    Result<GetBalanceResponse, ApiError>)
    requires
        state.wf(),
    ensures
        addr_of(payload.address@) is None ==> r == Err::<GetBalanceResponse, ApiError>(
            ApiError::BadRequest,
        ),
        addr_of(payload.address@) is Some ==> {
            let uid = spec_user_choice(view_opt(query.user_id), view_opt(payload.user_id));
            let fid = view_opt(payload.fork_id);
            match spec_selector_err(state@, fid, uid) {
                Some(e) => r == Err::<GetBalanceResponse, ApiError>(e),
                None => {
                    let fork = spec_selector_fork(state@, fid, uid);
                    if state@.forks.contains_key(fork) {
                        &&& r is Ok
                        &&& r.unwrap().address@ == payload.address@
                        &&& r.unwrap().lamports == Ledger::spec_balance(
                            state@.forks[fork].state,
                            addr_of(payload.address@).unwrap(),
                        )
                    } else {
                        r == Err::<GetBalanceResponse, ApiError>(ApiError::NotFound)
                    }
                },
            }
        },
    {
        let address = match parse_pubkey(payload.address.as_str()) {
            Some(a) => a,
            None => {
                return Err(ApiError::BadRequest);
            },
        };
        let user_id = choose_user(query.user_id, payload.user_id);
        let fork_id = resolve_fork_selector(state, &payload.fork_id, &user_id)?;
        match state.get_fork(fork_id.as_str()) {
            Some(fork) => {
                let lamports = fork.get_balance(&address);
                Ok(GetBalanceResponse { address: payload.address, lamports })
            },
            None => Err(ApiError::NotFound),
        }
    }

/// Read detailed account information: everything but the payload content;
/// an absent account is not-found.
pub fn get_account(state: &ForkManager, query: UserQuery, payload: GetBalanceRequest) -> (r:
    Result<AccountInfo, ApiError>)
    requires
        state.wf(),
    ensures
        addr_of(payload.address@) is None ==> r == Err::<AccountInfo, ApiError>(
            ApiError::BadRequest,
        ),
        addr_of(payload.address@) is Some ==> {
            let uid = spec_user_choice(view_opt(query.user_id), view_opt(payload.user_id));
            let fid = view_opt(payload.fork_id);
            match spec_selector_err(state@, fid, uid) {
                Some(e) => r == Err::<AccountInfo, ApiError>(e),
                None => {
                    let fork = spec_selector_fork(state@, fid, uid);
                    let a = addr_of(payload.address@).unwrap();
                    if state@.forks.contains_key(fork) && state@.forks[fork].state.contains_key(a) {
                        let rec = state@.forks[fork].state[a];
                        &&& r is Ok
                        &&& r.unwrap().address@ == payload.address@
                        &&& r.unwrap().lamports == rec.lamports
                        &&& r.unwrap().owner@ == pubkey_b58_of(rec.owner)
                        &&& r.unwrap().executable == rec.executable
                        &&& r.unwrap().rent_epoch == rec.rent_epoch
                        &&& r.unwrap().data_length == rec.data.len()
                    } else {
                        r == Err::<AccountInfo, ApiError>(ApiError::NotFound)
                    }
                },
            }
        },
    {
        let address = match parse_pubkey(payload.address.as_str()) {
            Some(a) => a,
            None => {
                return Err(ApiError::BadRequest);
            },
        };
        let user_id = choose_user(query.user_id, payload.user_id);
        let fork_id = resolve_fork_selector(state, &payload.fork_id, &user_id)?;
        match state.get_fork(fork_id.as_str()) {
            Some(fork) => match fork.get_account(&address) {
                Some(rec) => {
                    // Installed records always carry 32-byte owners.
                    let owner_addr = Address { bytes: rec.owner };
                    Ok(AccountInfo {
                        address: payload.address,
                        lamports: rec.lamports,
                        owner: address_to_base58(&owner_addr),
                        executable: rec.executable,
                        rent_epoch: rec.rent_epoch,
                        data_length: rec.data.len(),
                    })
                },
                None => Err(ApiError::NotFound),
            },
            None => Err(ApiError::NotFound),
        }
    }

} // verus!
