use vstd::prelude::*;

use crate::ApiError;
use crate::fork_manager::ForkManager;
use crate::models::requests::ForkInfoQuery;
use crate::models::responses::ForkInfo;
use crate::utils::{resolve_fork_selector, spec_selector_err, spec_selector_fork, view_opt};

verus! {

/// Describe the fork an explicit id or a user binding selects; ages are
/// measured against the given time and clamp at zero.
pub fn get_fork_info(state: &ForkManager, params: ForkInfoQuery, now: u64) -> (r: Result<
    ForkInfo,
    ApiError,
>)
    requires
        state.wf(),
    ensures
        ({
            let fid = view_opt(params.fork_id);
            let uid = view_opt(params.user_id);
            match spec_selector_err(state@, fid, uid) {
                Some(e) => r == Err::<ForkInfo, ApiError>(e),
                None => {
                    let fork = spec_selector_fork(state@, fid, uid);
                    if state@.forks.contains_key(fork) {
                        let f = state@.forks[fork];
                        &&& r is Ok
                        &&& r.unwrap().fork_id@ == f.id
                        &&& r.unwrap().slot == f.slot
                        &&& r.unwrap().created_at == f.created_at
                        &&& r.unwrap().transaction_count == f.transaction_count
                        &&& r.unwrap().uptime_seconds == if now >= f.created_at {
                            now - f.created_at
                        } else {
                            0
                        }
                    } else {
                        r == Err::<ForkInfo, ApiError>(ApiError::NotFound)
                    }
                },
            }
        }),
    {
        let fork_id = resolve_fork_selector(state, &params.fork_id, &params.user_id)?;
        match state.get_fork(fork_id.as_str()) {
            Some(f) => {
                let uptime: u64 = if now >= f.created_at {
                    now - f.created_at
                } else {
                    0
                };
                Ok(ForkInfo {
                    fork_id: f.id.clone(),
                    status: String::from_str("active"),
                    slot: f.slot,
                    created_at: f.created_at,
                    uptime_seconds: uptime,
                    transaction_count: f.transaction_count,
                })
            },
            None => Err(ApiError::NotFound),
        }
    }

} // verus!
