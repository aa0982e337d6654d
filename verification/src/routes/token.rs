use vstd::prelude::*;

use crate::ApiError;
use crate::account::Address;
use crate::codec::{addr_of, address_to_base58, keypair_pubkey, parse_pubkey, spec_le_bytes,
    pubkey_b58_of, vtx_first_signature};
use crate::fork::{EngineOutcome, ForkView, spec_install_all, spec_updates_wf};
use crate::fork_manager::ForkManager;
use crate::models::token::{
    CreateTokenAccountRequest, CreateTokenAccountResponse, CreateTokenRequest, CreateTokenResponse,
    GetTokenBalanceRequest, GetTokenBalanceResponse, MintTokensRequest, MintTokensResponse,
    TransferTokensRequest, TransferTokensResponse,
};
use crate::txbuild::{
    create_account_instruction, initialize_account_instruction, initialize_mint_instruction,
    lemma_total_key_count_one, lemma_total_key_count_two, message_new, mint_to_instruction,
    spec_token_account_ok, spl_token_program_id, token_mint_record_len,
    token_transfer_instruction, unpack_token_account, versioned_transaction_new,
};
use crate::utils::{parse_keypair, spec_keypair_json_ok};

verus! {

/// Install the engine's post-execution records for a token operation into
/// the named fork; the token programs run outside the registry's counters.
fn install_outcome(state: &mut ForkManager, fork_id: &str, updates: Vec<(Address, crate::account::AccountRec)>) -> (r: Result<
    (),
    ApiError,
>)
    requires
        old(state).wf(),
        spec_updates_wf(updates@),
    ensures
        final(state).wf(),
        old(state)@.forks.contains_key(fork_id@) ==> {
            &&& r is Ok
            &&& final(state)@.forks == old(state)@.forks.insert(
                fork_id@,
                ForkView {
                    state: spec_install_all(old(state)@.forks[fork_id@].state, updates@),
                    ..old(state)@.forks[fork_id@]
                },
            )
            &&& final(state)@.user_forks == old(state)@.user_forks
        },
        !old(state)@.forks.contains_key(fork_id@) ==> {
            &&& r == Err::<(), ApiError>(ApiError::NotFound)
            &&& final(state)@ == old(state)@
        },
{
    match state.install_accounts(fork_id, updates) {
        Ok(_) => Ok(()),
        Err(e) => Err(e),
    }
}

/// Create a new token mint: a fresh mint account funded by the payer and
/// initialized for the requested decimals; the engine's account updates
/// are installed when it reports success.
pub fn create_token_mint(
    state: &mut ForkManager,
    payload: CreateTokenRequest,
    rent: u64,
    outcome: EngineOutcome,
) -> (r: Result<CreateTokenResponse, ApiError>)
    requires
        old(state).wf(),
        spec_updates_wf(outcome.updates@),
    ensures
        final(state).wf(),
        !old(state)@.user_forks.contains_key(payload.user_id@) ==> {
            &&& r == Err::<CreateTokenResponse, ApiError>(ApiError::NotFound)
            &&& final(state)@ == old(state)@
        },
        r is Ok ==> {
            let fork = old(state)@.user_forks[payload.user_id@];
            &&& old(state)@.user_forks.contains_key(payload.user_id@)
            &&& outcome.success
            &&& final(state)@.forks == old(state)@.forks.insert(
                fork,
                ForkView {
                    state: spec_install_all(old(state)@.forks[fork].state, outcome.updates@),
                    ..old(state)@.forks[fork]
                },
            )
            &&& final(state)@.user_forks == old(state)@.user_forks
        },
        !(r is Ok) ==> final(state)@ == old(state)@,
{
    let fork_id = match state.get_user_fork_id(payload.user_id.as_str()) {
        Some(fid) => fid.clone(),
        None => {
            return Err(ApiError::NotFound);
        },
    };
    let payer = match parse_keypair(payload.payer_keypair.as_str()) {
        Ok(kp) => kp,
        Err(_) => {
            return Err(ApiError::BadRequest);
        },
    };
    let mint_kp = crate::codec::keypair_new();
    let payer_addr = keypair_pubkey(&payer);
    let mint_addr = keypair_pubkey(&mint_kp);
    let token_program = spl_token_program_id();
    let space = token_mint_record_len();
    let ix1 = create_account_instruction(&payer_addr, &mint_addr, rent, space as u64, &token_program);
    let ix2 = match initialize_mint_instruction(&mint_addr, &payer_addr, payload.decimals) {
        Some(ix) => ix,
        None => {
            return Err(ApiError::Internal);
        },
    };
    let mut instructions: Vec<solana_instruction::Instruction> = Vec::new();
    instructions.push(ix1);
    instructions.push(ix2);
    proof {
        lemma_total_key_count_two(instructions@);
    }
    let message = message_new(instructions, &payer_addr);
    let mut signers: Vec<solana_keypair::Keypair> = Vec::new();
    signers.push(payer);
    signers.push(mint_kp);
    let vtx = match versioned_transaction_new(message, &signers) {
        Some(tx) => tx,
        None => {
            return Err(ApiError::Internal);
        },
    };
    let signature = match vtx_first_signature(&vtx) {
        Some(s) => s,
        None => {
            return Err(ApiError::Internal);
        },
    };
    if !outcome.success {
        return Err(ApiError::Internal);
    }
    install_outcome(state, fork_id.as_str(), outcome.updates)?;
    Ok(CreateTokenResponse { mint_address: address_to_base58(&mint_addr), signature })
}

/// Create a token account holding the given mint for the given owner. The
/// derived-account program is a separate collaborator; this sandbox funds
/// and initializes a plain token account at a fresh key instead.
pub fn create_token_account(
    state: &mut ForkManager,
    payload: CreateTokenAccountRequest,
    rent: u64,
    outcome: EngineOutcome,
) -> (r: Result<CreateTokenAccountResponse, ApiError>)
    requires
        old(state).wf(),
        spec_updates_wf(outcome.updates@),
    ensures
        final(state).wf(),
        !old(state)@.user_forks.contains_key(payload.user_id@) ==> {
            &&& r == Err::<CreateTokenAccountResponse, ApiError>(ApiError::NotFound)
            &&& final(state)@ == old(state)@
        },
        old(state)@.user_forks.contains_key(payload.user_id@) && spec_keypair_json_ok(
            payload.payer_keypair@,
        ) && (addr_of(payload.mint_address@) is None || addr_of(payload.owner_address@) is None)
            ==> {
            &&& r == Err::<CreateTokenAccountResponse, ApiError>(ApiError::BadRequest)
            &&& final(state)@ == old(state)@
        },
        r is Ok ==> {
            let fork = old(state)@.user_forks[payload.user_id@];
            &&& old(state)@.user_forks.contains_key(payload.user_id@)
            &&& addr_of(payload.mint_address@) is Some
            &&& addr_of(payload.owner_address@) is Some
            &&& outcome.success
            &&& exists|k: Seq<u8>| k.len() == 32 && r.unwrap().token_account@
                == #[trigger] pubkey_b58_of(k)
            &&& final(state)@.forks == old(state)@.forks.insert(
                fork,
                ForkView {
                    state: spec_install_all(old(state)@.forks[fork].state, outcome.updates@),
                    ..old(state)@.forks[fork]
                },
            )
            &&& final(state)@.user_forks == old(state)@.user_forks
        },
        !(r is Ok) ==> final(state)@ == old(state)@,
{
    let fork_id = match state.get_user_fork_id(payload.user_id.as_str()) {
        Some(fid) => fid.clone(),
        None => {
            return Err(ApiError::NotFound);
        },
    };
    let payer = match parse_keypair(payload.payer_keypair.as_str()) {
        Ok(kp) => kp,
        Err(_) => {
            return Err(ApiError::BadRequest);
        },
    };
    let mint = match parse_pubkey(payload.mint_address.as_str()) {
        Some(a) => a,
        None => {
            return Err(ApiError::BadRequest);
        },
    };
    let owner = match parse_pubkey(payload.owner_address.as_str()) {
        Some(a) => a,
        None => {
            return Err(ApiError::BadRequest);
        },
    };
    let account_kp = crate::codec::keypair_new();
    let payer_addr = keypair_pubkey(&payer);
    let account_addr = keypair_pubkey(&account_kp);
    let token_program = spl_token_program_id();
    let ix1 = create_account_instruction(&payer_addr, &account_addr, rent, 165, &token_program);
    let ix2 = match initialize_account_instruction(&account_addr, &mint, &owner) {
        Some(ix) => ix,
        None => {
            return Err(ApiError::Internal);
        },
    };
    let mut instructions: Vec<solana_instruction::Instruction> = Vec::new();
    instructions.push(ix1);
    instructions.push(ix2);
    proof {
        lemma_total_key_count_two(instructions@);
    }
    let message = message_new(instructions, &payer_addr);
    let mut signers: Vec<solana_keypair::Keypair> = Vec::new();
    signers.push(payer);
    signers.push(account_kp);
    let vtx = match versioned_transaction_new(message, &signers) {
        Some(tx) => tx,
        None => {
            return Err(ApiError::Internal);
        },
    };
    let signature = match vtx_first_signature(&vtx) {
        Some(s) => s,
        None => {
            return Err(ApiError::Internal);
        },
    };
    if !outcome.success {
        return Err(ApiError::Internal);
    }
    install_outcome(state, fork_id.as_str(), outcome.updates)?;
    Ok(CreateTokenAccountResponse { token_account: address_to_base58(&account_addr), signature })
}

/// Mint tokens to an account and report its new token balance, read back
/// from the installed post-execution record.
pub fn mint_tokens(
    state: &mut ForkManager,
    payload: MintTokensRequest,
    outcome: EngineOutcome,
) -> (r: Result<MintTokensResponse, ApiError>)
    requires
        old(state).wf(),
        spec_updates_wf(outcome.updates@),
    ensures
        final(state).wf(),
        !old(state)@.user_forks.contains_key(payload.user_id@) ==> {
            &&& r == Err::<MintTokensResponse, ApiError>(ApiError::NotFound)
            &&& final(state)@ == old(state)@
        },
        old(state)@.user_forks.contains_key(payload.user_id@) && spec_keypair_json_ok(
            payload.mint_authority_keypair@,
        ) && (addr_of(payload.mint_address@) is None || addr_of(
            payload.destination_account@,
        ) is None) ==> {
            &&& r == Err::<MintTokensResponse, ApiError>(ApiError::BadRequest)
            &&& final(state)@ == old(state)@
        },
        r is Ok ==> {
            let fork = old(state)@.user_forks[payload.user_id@];
            let dest = addr_of(payload.destination_account@).unwrap();
            let post = spec_install_all(old(state)@.forks[fork].state, outcome.updates@);
            &&& old(state)@.user_forks.contains_key(payload.user_id@)
            &&& addr_of(payload.mint_address@) is Some
            &&& addr_of(payload.destination_account@) is Some
            &&& outcome.success
            &&& final(state)@.forks == old(state)@.forks.insert(
                fork,
                ForkView { state: post, ..old(state)@.forks[fork] },
            )
            &&& final(state)@.user_forks == old(state)@.user_forks
            &&& post.contains_key(dest)
            &&& spec_token_account_ok(post[dest].data)
            &&& r.unwrap().new_balance == spec_le_bytes(post[dest].data, 64, 8)
        },
{
    let fork_id = match state.get_user_fork_id(payload.user_id.as_str()) {
        Some(fid) => fid.clone(),
        None => {
            return Err(ApiError::NotFound);
        },
    };
    let authority = match parse_keypair(payload.mint_authority_keypair.as_str()) {
        Ok(kp) => kp,
        Err(_) => {
            return Err(ApiError::BadRequest);
        },
    };
    let mint = match parse_pubkey(payload.mint_address.as_str()) {
        Some(a) => a,
        None => {
            return Err(ApiError::BadRequest);
        },
    };
    let destination = match parse_pubkey(payload.destination_account.as_str()) {
        Some(a) => a,
        None => {
            return Err(ApiError::BadRequest);
        },
    };
    let authority_addr = keypair_pubkey(&authority);
    let ix = match mint_to_instruction(&mint, &destination, &authority_addr, payload.amount) {
        Some(ix) => ix,
        None => {
            return Err(ApiError::Internal);
        },
    };
    let mut instructions: Vec<solana_instruction::Instruction> = Vec::new();
    instructions.push(ix);
    proof {
        lemma_total_key_count_one(instructions@);
    }
    let message = message_new(instructions, &authority_addr);
    let mut signers: Vec<solana_keypair::Keypair> = Vec::new();
    signers.push(authority);
    let vtx = match versioned_transaction_new(message, &signers) {
        Some(tx) => tx,
        None => {
            return Err(ApiError::Internal);
        },
    };
    let signature = match vtx_first_signature(&vtx) {
        Some(s) => s,
        None => {
            return Err(ApiError::Internal);
        },
    };
    if !outcome.success {
        return Err(ApiError::Internal);
    }
    install_outcome(state, fork_id.as_str(), outcome.updates)?;
    let new_balance = match read_token_balance(state, fork_id.as_str(), &destination) {
        Some(b) => b,
        None => {
            return Err(ApiError::Internal);
        },
    };
    Ok(MintTokensResponse { signature, new_balance })
}

/// Transfer tokens between two accounts and report both accounts' new
/// token balances, read back from the installed post-execution records.
pub fn transfer_tokens(
    state: &mut ForkManager,
    payload: TransferTokensRequest,
    outcome: EngineOutcome,
) -> (r: Result<TransferTokensResponse, ApiError>)
    requires
        old(state).wf(),
        spec_updates_wf(outcome.updates@),
    ensures
        final(state).wf(),
        !old(state)@.user_forks.contains_key(payload.user_id@) ==> {
            &&& r == Err::<TransferTokensResponse, ApiError>(ApiError::NotFound)
            &&& final(state)@ == old(state)@
        },
        old(state)@.user_forks.contains_key(payload.user_id@) && spec_keypair_json_ok(
            payload.from_keypair@,
        ) && (addr_of(payload.source_account@) is None || addr_of(
            payload.destination_account@,
        ) is None) ==> {
            &&& r == Err::<TransferTokensResponse, ApiError>(ApiError::BadRequest)
            &&& final(state)@ == old(state)@
        },
        r is Ok ==> {
            let fork = old(state)@.user_forks[payload.user_id@];
            let src = addr_of(payload.source_account@).unwrap();
            let dst = addr_of(payload.destination_account@).unwrap();
            let post = spec_install_all(old(state)@.forks[fork].state, outcome.updates@);
            &&& old(state)@.user_forks.contains_key(payload.user_id@)
            &&& addr_of(payload.source_account@) is Some
            &&& addr_of(payload.destination_account@) is Some
            &&& outcome.success
            &&& final(state)@.forks == old(state)@.forks.insert(
                fork,
                ForkView { state: post, ..old(state)@.forks[fork] },
            )
            &&& final(state)@.user_forks == old(state)@.user_forks
            &&& post.contains_key(src) && spec_token_account_ok(post[src].data)
            &&& post.contains_key(dst) && spec_token_account_ok(post[dst].data)
            &&& r.unwrap().source_balance == spec_le_bytes(post[src].data, 64, 8)
            &&& r.unwrap().destination_balance == spec_le_bytes(post[dst].data, 64, 8)
        },
{
    let fork_id = match state.get_user_fork_id(payload.user_id.as_str()) {
        Some(fid) => fid.clone(),
        None => {
            return Err(ApiError::NotFound);
        },
    };
    let owner = match parse_keypair(payload.from_keypair.as_str()) {
        Ok(kp) => kp,
        Err(_) => {
            return Err(ApiError::BadRequest);
        },
    };
    let source = match parse_pubkey(payload.source_account.as_str()) {
        Some(a) => a,
        None => {
            return Err(ApiError::BadRequest);
        },
    };
    let destination = match parse_pubkey(payload.destination_account.as_str()) {
        Some(a) => a,
        None => {
            return Err(ApiError::BadRequest);
        },
    };
    let owner_addr = keypair_pubkey(&owner);
    let ix = match token_transfer_instruction(&source, &destination, &owner_addr, payload.amount) {
        Some(ix) => ix,
        None => {
            return Err(ApiError::Internal);
        },
    };
    let mut instructions: Vec<solana_instruction::Instruction> = Vec::new();
    instructions.push(ix);
    proof {
        lemma_total_key_count_one(instructions@);
    }
    let message = message_new(instructions, &owner_addr);
    let mut signers: Vec<solana_keypair::Keypair> = Vec::new();
    signers.push(owner);
    let vtx = match versioned_transaction_new(message, &signers) {
        Some(tx) => tx,
        None => {
            return Err(ApiError::Internal);
        },
    };
    let signature = match vtx_first_signature(&vtx) {
        Some(s) => s,
        None => {
            return Err(ApiError::Internal);
        },
    };
    if !outcome.success {
        return Err(ApiError::Internal);
    }
    install_outcome(state, fork_id.as_str(), outcome.updates)?;
    let source_balance = match read_token_balance(state, fork_id.as_str(), &source) {
        Some(b) => b,
        None => {
            return Err(ApiError::Internal);
        },
    };
    let destination_balance = match read_token_balance(state, fork_id.as_str(), &destination) {
        Some(b) => b,
        None => {
            return Err(ApiError::Internal);
        },
    };
    Ok(TransferTokensResponse { signature, source_balance, destination_balance })
}

/// The token amount a well-formed token account at `address` holds.
fn read_token_balance(state: &ForkManager, fork_id: &str, address: &Address) -> (r: Option<u64>)
    requires
        state.wf(),
    ensures
        r is Some ==> {
            &&& state@.forks.contains_key(fork_id@)
            &&& state@.forks[fork_id@].state.contains_key(address@)
            &&& spec_token_account_ok(state@.forks[fork_id@].state[address@].data)
            &&& r.unwrap() == spec_le_bytes(state@.forks[fork_id@].state[address@].data, 64, 8)
        },
{
    let fork = match state.get_fork(fork_id) {
        Some(f) => f,
        None => {
            return None;
        },
    };
    let rec = match fork.get_account(address) {
        Some(rec) => rec,
        None => {
            return None;
        },
    };
    match unpack_token_account(&rec.data) {
        Some(t) => Some(t.amount),
        None => None,
    }
}

/// Read a token account's balance, mint and holder, decoded from the
/// account's stored record.
pub fn get_token_balance(state: &ForkManager, payload: GetTokenBalanceRequest) -> (r: Result<
    GetTokenBalanceResponse,
    ApiError,
>)
    requires
        state.wf(),
    ensures
        !state@.user_forks.contains_key(payload.user_id@) ==> r == Err::<
            GetTokenBalanceResponse,
            ApiError,
        >(ApiError::NotFound),
        state@.user_forks.contains_key(payload.user_id@) && addr_of(payload.token_account@)
            is None ==> r == Err::<GetTokenBalanceResponse, ApiError>(ApiError::BadRequest),
        r is Ok ==> {
            let fork = state@.user_forks[payload.user_id@];
            let acct = addr_of(payload.token_account@).unwrap();
            let data = state@.forks[fork].state[acct].data;
            &&& state@.user_forks.contains_key(payload.user_id@)
            &&& addr_of(payload.token_account@) is Some
            &&& state@.forks.contains_key(fork)
            &&& state@.forks[fork].state.contains_key(acct)
            &&& spec_token_account_ok(data)
            &&& r.unwrap().token_account@ == payload.token_account@
            &&& r.unwrap().balance == spec_le_bytes(data, 64, 8)
            &&& r.unwrap().mint@ == pubkey_b58_of(data.subrange(0, 32))
            &&& r.unwrap().owner@ == pubkey_b58_of(data.subrange(32, 64))
        },
{
    let fork_id = match state.get_user_fork_id(payload.user_id.as_str()) {
        Some(fid) => fid.clone(),
        None => {
            return Err(ApiError::NotFound);
        },
    };
    let address = match parse_pubkey(payload.token_account.as_str()) {
        Some(a) => a,
        None => {
            return Err(ApiError::BadRequest);
        },
    };
    let fork = match state.get_fork(fork_id.as_str()) {
        Some(f) => f,
        None => {
            return Err(ApiError::NotFound);
        },
    };
    let rec = match fork.get_account(&address) {
        Some(rec) => rec,
        None => {
            return Err(ApiError::NotFound);
        },
    };
    let token = match unpack_token_account(&rec.data) {
        Some(t) => t,
        None => {
            return Err(ApiError::Internal);
        },
    };
    Ok(GetTokenBalanceResponse {
        token_account: payload.token_account,
        balance: token.amount,
        mint: address_to_base58(&token.mint),
        owner: address_to_base58(&token.owner),
    })
}

} // verus!
