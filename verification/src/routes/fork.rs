use vstd::prelude::*;

use crate::fork_manager::{ForkManager, spec_created, spec_live_bindings, spec_sweep_forks};
use crate::models::requests::CreateForkRequest;
use crate::models::responses::{CreateForkResponse, ForkInfo};

verus! {

/// The user a fork-creation request acts for: the named user, or the
/// anonymous one.
pub open spec fn spec_requested_user(user_id: Option<String>) -> Seq<char> {
    match user_id {
        Some(u) => u@,
        None => "anonymous"@,
    }
}

/// Create a fork for the requesting user (or reuse the one a live binding
/// names) and describe it.
pub fn create_fork(state: &mut ForkManager, payload: CreateForkRequest, now: u64) -> (r:
    CreateForkResponse)
    requires
        old(state).wf(),
    ensures
        final(state).wf(),
        spec_created(old(state)@, final(state)@, spec_requested_user(payload.user_id), now, r.fork_id@),
        r.success,
    {
        let user_id = match payload.user_id {
            Some(u) => u,
            None => String::from_str("anonymous"),
        };
        let mut message = String::from_str("Fork created for user: ");
        message.append(user_id.as_str());
        let fork_id = state.create_fork(user_id, now);
        let mut rpc_url = String::from_str("http://localhost:8899/rpc/fork/");
        rpc_url.append(fork_id.as_str());
        CreateForkResponse { success: true, message, fork_id, rpc_url }
    }

/// A point-in-time summary of every live fork; ages are measured against
/// the given time and clamp at zero.
pub fn list_forks(state: &ForkManager, now: u64) -> (r: Vec<ForkInfo>)
    requires
        state.wf(),
    ensures
        r@.len() == state.forks@.len(),
        forall|i: int| 0 <= i < r@.len() ==> {
            let f = (#[trigger] state.forks@[i])@;
            &&& r@[i].fork_id@ == f.id
            &&& r@[i].slot == f.slot
            &&& r@[i].created_at == f.created_at
            &&& r@[i].transaction_count == f.transaction_count
            &&& r@[i].uptime_seconds == if now >= f.created_at {
                now - f.created_at
            } else {
                0
            }
        },
    {
        let mut r: Vec<ForkInfo> = Vec::new();
        let mut i: usize = 0;
        while i < state.forks.len()
            invariant
                i <= state.forks@.len(),
                r@.len() == i,
                forall|j: int| 0 <= j < i ==> {
                    let f = (#[trigger] state.forks@[j])@;
                    &&& r@[j].fork_id@ == f.id
                    &&& r@[j].slot == f.slot
                    &&& r@[j].created_at == f.created_at
                    &&& r@[j].transaction_count == f.transaction_count
                    &&& r@[j].uptime_seconds == if now >= f.created_at {
                        now - f.created_at
                    } else {
                        0
                    }
                },
            decreases state.forks@.len() - i,
        {
            let f = &state.forks[i];
            let uptime: u64 = if now >= f.created_at {
                now - f.created_at
            } else {
                0
            };
            r.push(ForkInfo {
                fork_id: f.id.clone(),
                status: String::from_str("active"),
                slot: f.slot,
                created_at: f.created_at,
                uptime_seconds: uptime,
                transaction_count: f.transaction_count,
            });
            i = i + 1;
        }
        r
    }

/// Outcome of an expiry sweep: how many forks were removed and how many
/// remain.
pub struct CleanupForksResponse {
    pub success: bool,
    pub message: String,
    pub cleaned_count: usize,
    pub active_forks: usize,
}

/// Sweep expired forks out of the registry and report the counts.
pub fn cleanup_forks(state: &mut ForkManager, now: u64) -> (r: CleanupForksResponse)
    requires
        old(state).wf(),
    ensures
        final(state).wf(),
        final(state)@.forks == spec_sweep_forks(old(state)@.forks, now),
        final(state)@.user_forks == spec_live_bindings(
            old(state)@.user_forks,
            final(state)@.forks,
        ),
        r.success,
        r.cleaned_count == old(state)@.forks.dom().len() - final(state)@.forks.dom().len(),
        r.active_forks == final(state)@.forks.dom().len(),
    {
        let cleaned = state.cleanup_expired_forks(now);
        let active = state.active_fork_count();
        CleanupForksResponse {
            success: true,
            message: String::from_str("Cleaned up expired forks"),
            cleaned_count: cleaned,
            active_forks: active,
        }
    }

} // verus!
