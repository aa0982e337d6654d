use vstd::prelude::*;

verus! {

/// Response after creating a fork.
pub struct CreateForkResponse {
    pub success: bool,
    pub message: String,
    pub fork_id: String,
    pub rpc_url: String,
}

/// Fork information summary.
pub struct ForkInfo {
    pub fork_id: String,
    pub status: String,
    pub slot: u64,
    pub created_at: u64,
    pub uptime_seconds: u64,
    pub transaction_count: u64,
}

/// Response after setting a balance.
pub struct SetBalanceResponse {
    pub success: bool,
    pub message: String,
    pub address: String,
    pub new_balance: u64,
}

/// Detailed account information: everything but the payload content.
pub struct AccountInfo {
    pub address: String,
    pub lamports: u64,
    pub owner: String,
    pub executable: bool,
    pub rent_epoch: u64,
    pub data_length: usize,
}

/// Response after an airdrop credited lamports onto a balance.
pub struct AirdropResponse {
    pub success: bool,
    pub message: String,
    pub address: String,
    pub amount_lamports: u64,
}

/// Response with an account balance.
pub struct GetBalanceResponse {
    pub address: String,
    pub lamports: u64,
}

/// Response after a transfer between two accounts.
pub struct TransferResponse {
    pub success: bool,
    pub signature: String,
    pub from: String,
    pub to: String,
    pub amount_lamports: u64,
    pub error: Option<String>,
}

/// Response after submitting a raw transaction.
pub struct SendTransactionResponse {
    pub success: bool,
    pub signature: String,
    pub error: Option<String>,
}

/// Execution result of one submitted transaction.
pub struct TransactionResult {
    pub success: bool,
    pub signature: String,
    pub error: Option<String>,
}

/// Response for snapshot-seeded fork creation with loaded accounts.
pub struct CreateMainnetForkResponse {
    pub fork_id: String,
    pub user_id: String,
    pub created_at: String,
    pub expires_at: String,
    pub mainnet_slot: u64,
    pub mainnet_blockhash: String,
    pub accounts_loaded: usize,
    pub loaded_addresses: Vec<String>,
}

/// Response for loading accounts; reports exactly which addresses were
/// actually installed.
pub struct LoadAccountsResponse {
    pub success: bool,
    pub accounts_loaded: usize,
    pub loaded_addresses: Vec<String>,
}

} // verus!
