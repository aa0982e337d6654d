use vstd::prelude::*;

verus! {

/// Create a new token mint.
pub struct CreateTokenRequest {
    pub user_id: String,
    pub payer_keypair: String,
    pub decimals: u8,
}

/// Response after creating a token mint.
pub struct CreateTokenResponse {
    pub mint_address: String,
    pub signature: String,
}

/// Create a token account for an owner and mint.
pub struct CreateTokenAccountRequest {
    pub user_id: String,
    pub payer_keypair: String,
    pub mint_address: String,
    pub owner_address: String,
}

/// Response after creating a token account.
pub struct CreateTokenAccountResponse {
    pub token_account: String,
    pub signature: String,
}

/// Mint tokens to an account.
pub struct MintTokensRequest {
    pub user_id: String,
    pub mint_authority_keypair: String,
    pub mint_address: String,
    pub destination_account: String,
    pub amount: u64,
}

/// Response after minting tokens.
pub struct MintTokensResponse {
    pub signature: String,
    pub new_balance: u64,
}

/// Transfer tokens between accounts.
pub struct TransferTokensRequest {
    pub user_id: String,
    pub from_keypair: String,
    pub source_account: String,
    pub destination_account: String,
    pub amount: u64,
}

/// Response after transferring tokens.
pub struct TransferTokensResponse {
    pub signature: String,
    pub source_balance: u64,
    pub destination_balance: u64,
}

/// Read a token account balance.
pub struct GetTokenBalanceRequest {
    pub user_id: String,
    pub token_account: String,
}

/// Response with a token account balance.
pub struct GetTokenBalanceResponse {
    pub token_account: String,
    pub balance: u64,
    pub mint: String,
    pub owner: String,
}

} // verus!
