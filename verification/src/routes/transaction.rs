use vstd::prelude::*;

use crate::ApiError;
use crate::codec::{
    addr_of, b64_decode_of, base64_decode, decode_transaction, keypair_pubkey, parse_pubkey,
    pubkey_of_secret, tx_decodes, tx_first_sig_of, tx_first_signature, tx_sig_text,
};
use crate::fork::spec_updates_wf;
use crate::fork::{EngineOutcome, spec_install_all, submit_transition};
use crate::fork_manager::ForkManager;
use crate::models::requests::SendTransactionRequest;
use crate::models::responses::{SendTransactionResponse, TransferResponse};
use crate::txbuild::{
    lemma_total_key_count_one, message_new, sign_transaction, transaction_new_unsigned,
    transfer_instruction,
};
use crate::utils::{
    parse_keypair, resolve_fork_selector, spec_keypair_json_ok, spec_selector_err,
    spec_selector_fork, spec_signer_seed, view_opt,
};

verus! {

/// Whether a base64 string carries a decodable, signed transaction.
pub open spec fn spec_raw_tx_ok(s: Seq<char>) -> bool {
    &&& b64_decode_of(s) is Some
    &&& tx_decodes(b64_decode_of(s).unwrap())
    &&& tx_first_sig_of(b64_decode_of(s).unwrap()) is Some
}

/// The first-signature text of the transaction a base64 string carries.
pub open spec fn spec_raw_tx_sig(s: Seq<char>) -> Seq<char> {
    tx_first_sig_of(b64_decode_of(s).unwrap()).unwrap()
}

/// Decode a base64-encoded, serialized signed transaction: exactly the
/// strings that are base64, deserialize, and carry a signature are
/// accepted, and anything else is a request error.
pub fn decode_raw_transaction(transaction_b64: &str) -> (r: Result<
    (solana_transaction::Transaction, String),
    ApiError,
>)
    ensures
        r is Ok <==> spec_raw_tx_ok(transaction_b64@),
        r matches Err(e) ==> e == ApiError::BadRequest,
        r is Ok ==> {
            &&& tx_sig_text(r.unwrap().0) == Some(spec_raw_tx_sig(transaction_b64@))
            &&& r.unwrap().1@ == spec_raw_tx_sig(transaction_b64@)
        },
{
    let bytes = match base64_decode(transaction_b64) {
        Some(b) => b,
        None => {
            return Err(ApiError::BadRequest);
        },
    };
    let tx = match decode_transaction(&bytes) {
        Some(t) => t,
        None => {
            return Err(ApiError::BadRequest);
        },
    };
    let signature = match tx_first_signature(&tx) {
        Some(s) => s,
        None => {
            return Err(ApiError::BadRequest);
        },
    };
    Ok((tx, signature))
}

/// Submit a raw transaction: decoding failures are request errors detected
/// before any state changes; a decoded transaction is recorded against the
/// selected fork with the engine's verdict, advancing its counters by
/// exactly one whether execution succeeded or failed.
pub fn send_transaction(
    state: &mut ForkManager,
    payload: SendTransactionRequest,
    outcome: EngineOutcome,
) -> (r: Result<SendTransactionResponse, ApiError>)
    requires
        old(state).wf(),
        spec_updates_wf(outcome.updates@),
        ({
            let fork = spec_selector_fork(
                old(state)@,
                view_opt(payload.fork_id),
                view_opt(payload.user_id),
            );
            old(state)@.forks.contains_key(fork) ==> {
                &&& old(state)@.forks[fork].transaction_count < u64::MAX
                &&& old(state)@.forks[fork].slot < u64::MAX
            }
        }),
    ensures
        final(state).wf(),
        !spec_raw_tx_ok(payload.transaction@) ==> {
            &&& r == Err::<SendTransactionResponse, ApiError>(ApiError::BadRequest)
            &&& final(state)@ == old(state)@
        },
        spec_raw_tx_ok(payload.transaction@) ==> {
            let fid = view_opt(payload.fork_id);
            let uid = view_opt(payload.user_id);
            let fork = spec_selector_fork(old(state)@, fid, uid);
            match spec_selector_err(old(state)@, fid, uid) {
                Some(e) => r == Err::<SendTransactionResponse, ApiError>(e) && final(state)@
                    == old(state)@,
                None => if old(state)@.forks.contains_key(fork) {
                    &&& r is Ok
                    &&& submit_transition(old(state)@.forks[fork], final(state)@.forks[fork])
                    &&& final(state)@.forks[fork].state == spec_install_all(
                        old(state)@.forks[fork].state,
                        outcome.updates@,
                    )
                    &&& final(state)@.forks == old(state)@.forks.insert(
                        fork,
                        final(state)@.forks[fork],
                    )
                    &&& final(state)@.user_forks == old(state)@.user_forks
                    &&& r.unwrap().success == outcome.success
                    &&& r.unwrap().signature@ == spec_raw_tx_sig(payload.transaction@)
                    &&& r.unwrap().error == outcome.error
                } else {
                    &&& r == Err::<SendTransactionResponse, ApiError>(ApiError::NotFound)
                    &&& final(state)@ == old(state)@
                },
            }
        },
{
    let (_tx, signature) = decode_raw_transaction(payload.transaction.as_str())?;
    let fork_id = resolve_fork_selector(state, &payload.fork_id, &payload.user_id)?;
    let result = state.send_transaction(fork_id.as_str(), signature, outcome)?;
    Ok(SendTransactionResponse {
        success: result.success,
        signature: result.signature,
        error: result.error,
    })
}

/// Build and sign a transfer of lamports between two accounts: malformed
/// addresses or keys are request errors, as is a signing key whose public
/// key is not the sending account; returns the signed transaction and the
/// selected fork id.
pub fn transfer_sol_prepare(
    state: &ForkManager,
    fork_id: &Option<String>,
    user_id: &Option<String>,
    from: &String,
    to: &String,
    lamports: u64,
    private_key: &String,
) -> (r: Result<(solana_transaction::Transaction, String), ApiError>)
    requires
        state.wf(),
    ensures
        addr_of(from@) is None ==> (r matches Err(e) && e == ApiError::BadRequest),
        addr_of(from@) is Some && addr_of(to@) is None ==> (r matches Err(e) && e == ApiError::BadRequest),
        addr_of(from@) is Some && addr_of(to@) is Some && pubkey_of_secret(spec_signer_seed(
            private_key@,
        )) != addr_of(from@).unwrap() ==> (r matches Err(e) && e == ApiError::BadRequest),
        addr_of(from@) is Some && addr_of(to@) is Some && spec_keypair_json_ok(private_key@)
            && pubkey_of_secret(spec_signer_seed(private_key@)) == addr_of(from@).unwrap()
            && spec_selector_err(state@, view_opt(*fork_id), view_opt(*user_id)) is None
            ==> (r is Ok || r == Err::<(solana_transaction::Transaction, String), ApiError>(
            ApiError::Internal,
        )),
        r is Ok ==> {
            let fid = view_opt(*fork_id);
            let uid = view_opt(*user_id);
            &&& addr_of(from@) is Some
            &&& addr_of(to@) is Some
            &&& pubkey_of_secret(spec_signer_seed(private_key@)) == addr_of(from@).unwrap()
            &&& spec_selector_err(state@, fid, uid) is None
            &&& r.unwrap().1@ == spec_selector_fork(state@, fid, uid)
        },
{
    let from_addr = match parse_pubkey(from.as_str()) {
        Some(a) => a,
        None => {
            return Err(ApiError::BadRequest);
        },
    };
    let to_addr = match parse_pubkey(to.as_str()) {
        Some(a) => a,
        None => {
            return Err(ApiError::BadRequest);
        },
    };
    let keypair = match parse_keypair(private_key.as_str()) {
        Ok(kp) => kp,
        Err(_) => {
            return Err(ApiError::BadRequest);
        },
    };
    // The signing key must be the sending account's key.
    let signer_addr = keypair_pubkey(&keypair);
    if !signer_addr.eq_addr(&from_addr) {
        return Err(ApiError::BadRequest);
    }
    let selected = resolve_fork_selector(state, fork_id, user_id)?;
    let instruction = transfer_instruction(&from_addr, &to_addr, lamports);
    let mut instructions: Vec<solana_instruction::Instruction> = Vec::new();
    instructions.push(instruction);
    proof {
        lemma_total_key_count_one(instructions@);
    }
    let message = message_new(instructions, &from_addr);
    let mut tx = transaction_new_unsigned(message);
    let mut keypairs: Vec<solana_keypair::Keypair> = Vec::new();
    keypairs.push(keypair);
    if !sign_transaction(&mut tx, &keypairs) {
        return Err(ApiError::Internal);
    }
    Ok((tx, selected))
}

/// Record a prepared transfer's engine verdict against its fork: both
/// counters advance by exactly one and the response echoes the transfer's
/// parties, amount and signature.
pub fn transfer_sol_submit(
    state: &mut ForkManager,
    fork_id: String,
    from: String,
    to: String,
    lamports: u64,
    signature: String,
    outcome: EngineOutcome,
) -> (r: Result<TransferResponse, ApiError>)
    requires
        old(state).wf(),
        spec_updates_wf(outcome.updates@),
        old(state)@.forks.contains_key(fork_id@) ==> {
            &&& old(state)@.forks[fork_id@].transaction_count < u64::MAX
            &&& old(state)@.forks[fork_id@].slot < u64::MAX
        },
    ensures
        final(state).wf(),
        old(state)@.forks.contains_key(fork_id@) ==> {
            &&& r is Ok
            &&& submit_transition(old(state)@.forks[fork_id@], final(state)@.forks[fork_id@])
            &&& final(state)@.forks[fork_id@].state == spec_install_all(
                old(state)@.forks[fork_id@].state,
                outcome.updates@,
            )
            &&& final(state)@.user_forks == old(state)@.user_forks
            &&& r.unwrap().success == outcome.success
            &&& r.unwrap().signature@ == signature@
            &&& r.unwrap().from@ == from@
            &&& r.unwrap().to@ == to@
            &&& r.unwrap().amount_lamports == lamports
            &&& r.unwrap().error == outcome.error
        },
        !old(state)@.forks.contains_key(fork_id@) ==> {
            &&& r == Err::<TransferResponse, ApiError>(ApiError::NotFound)
            &&& final(state)@ == old(state)@
        },
{
    let result = state.send_transaction(fork_id.as_str(), signature, outcome)?;
    Ok(TransferResponse {
        success: result.success,
        signature: result.signature,
        from,
        to,
        amount_lamports: lamports,
        error: result.error,
    })
}

} // verus!
