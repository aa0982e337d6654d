pub mod account;
pub mod codec;
pub mod fork;
pub mod fork_manager;
pub mod ledger;
pub mod models;
pub mod txbuild;
pub mod routes;
pub mod utils;

use vstd::prelude::*;

verus! {

/// Number of lamports in one SOL.
pub const LAMPORTS_PER_SOL: u64 = 1_000_000_000;

/// The error taxonomy of the registry's operations: an unknown fork or
/// binding, a malformed request, a failed upstream fetch, or an internal
/// fault.
#[derive(PartialEq, Eq, Structural, Clone, Copy, Debug)]
pub enum ApiError {
    NotFound,
    BadRequest,
    Upstream,
    Internal,
}

/// Maximum sandbox lifetime in seconds (15 minutes).
pub const FORK_LIFETIME_SECONDS: u64 = 15 * 60;

/// A fork is expired once its age (measured from `created_at` to `now`)
/// strictly exceeds the fixed lifetime.
pub open spec fn spec_is_expired(created_at: u64, now: u64) -> bool {
    now > created_at + FORK_LIFETIME_SECONDS
}

/// Decide whether a fork created at `created_at` has expired by `now`.
pub fn is_expired(created_at: u64, now: u64) -> (r: bool)
    ensures
        r == spec_is_expired(created_at, now),
{
    now > created_at && now - created_at > FORK_LIFETIME_SECONDS
}

} // verus!
