use vstd::prelude::*;

verus! {

/// Request to create a new fork.
pub struct CreateForkRequest {
    pub user_id: Option<String>,
}

/// Request to create a fork seeded from a network snapshot, loading the
/// named accounts.
pub struct CreateMainnetForkRequest {
    pub user_id: Option<String>,
    pub accounts: Vec<String>,
    pub rpc_endpoint: Option<String>,
}

/// Request to load a single account from the network into a fork.
pub struct LoadAccountRequest {
    pub fork_id: Option<String>,
    pub user_id: Option<String>,
    pub address: String,
    pub rpc_endpoint: Option<String>,
}

/// Request to load multiple accounts from the network into a fork.
pub struct LoadAccountsRequest {
    pub fork_id: Option<String>,
    pub user_id: Option<String>,
    pub addresses: Vec<String>,
    pub rpc_endpoint: Option<String>,
}

/// Request to load every token account of an owner into a fork.
pub struct LoadTokenAccountsRequest {
    pub fork_id: Option<String>,
    pub user_id: Option<String>,
    pub owner: String,
    pub rpc_endpoint: Option<String>,
}

/// Request to set an account balance to an exact amount.
pub struct SetBalanceRequest {
    pub fork_id: Option<String>,
    pub user_id: Option<String>,
    pub address: String,
    pub lamports: u64,
}

/// Request to read an account balance.
pub struct GetBalanceRequest {
    pub fork_id: Option<String>,
    pub user_id: Option<String>,
    pub address: String,
}

/// Request to submit a raw transaction, encoded in base64.
pub struct SendTransactionRequest {
    pub fork_id: Option<String>,
    pub user_id: Option<String>,
    pub transaction: String,
}

/// Query parameters naming a caller.
pub struct UserQuery {
    pub user_id: Option<String>,
}

/// Query parameters selecting a fork by id or by its bound user.
pub struct ForkInfoQuery {
    pub fork_id: Option<String>,
    pub user_id: Option<String>,
}

/// Query parameters selecting the fork a ledger call runs against.
pub struct RpcQuery {
    pub user_id: Option<String>,
    pub fork_id: Option<String>,
}

} // verus!
