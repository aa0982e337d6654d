use vstd::prelude::*;

use crate::ApiError;
use crate::account::{AccountRec, Address};
use crate::codec::{
    addr_of, address_to_base58, b64_decode_of, base64_decode, keypair_pubkey, parse_pubkey,
    pubkey_b58_of, pubkey_of_secret, vtx_first_signature,
};
use crate::fork::{EngineOutcome, ForkView, spec_install_all, spec_updates_wf};
use crate::fork_manager::ForkManager;
use crate::models::program::{
    DeployProgramRequest, DeployProgramResponse, GetProgramRequest,
    InvokeProgramRequest, InvokeProgramResponse, LoadProgramRequest, LoadProgramResponse,
    ProgramInfo,
};
use crate::txbuild::{
    lemma_total_key_count_one, make_instruction, message_new, versioned_transaction_new,
};
use crate::utils::{parse_keypair, spec_keypair_json_ok, spec_signer_seed};

verus! {

/// Deploy a compiled program: the program bytes are decoded from base64
/// and handed to the engine, whose resulting account records are installed
/// when it reports success; the response states the program id and exactly
/// how many bytes were deployed.
pub fn deploy_program(
    state: &mut ForkManager,
    payload: DeployProgramRequest,
    outcome: EngineOutcome,
) -> (r: Result<DeployProgramResponse, ApiError>)
    requires
        old(state).wf(),
        spec_updates_wf(outcome.updates@),
    ensures
        final(state).wf(),
        !old(state)@.user_forks.contains_key(payload.user_id@) ==> {
            &&& r == Err::<DeployProgramResponse, ApiError>(ApiError::NotFound)
            &&& final(state)@ == old(state)@
        },
        old(state)@.user_forks.contains_key(payload.user_id@) && spec_keypair_json_ok(
            payload.program_keypair@,
        ) && b64_decode_of(payload.program_data@) is None ==> r == Err::<
            DeployProgramResponse,
            ApiError,
        >(ApiError::BadRequest),
        old(state)@.user_forks.contains_key(payload.user_id@) && spec_keypair_json_ok(
            payload.program_keypair@,
        ) && b64_decode_of(payload.program_data@) is Some && outcome.success ==> r is Ok,
        r is Ok ==> {
            let fork = old(state)@.user_forks[payload.user_id@];
            &&& old(state)@.user_forks.contains_key(payload.user_id@)
            &&& b64_decode_of(payload.program_data@) is Some
            &&& outcome.success
            &&& r.unwrap().success
            &&& r.unwrap().program_id@ == pubkey_b58_of(
                pubkey_of_secret(spec_signer_seed(payload.program_keypair@)),
            )
            &&& r.unwrap().deployed_size == b64_decode_of(payload.program_data@).unwrap().len()
            &&& final(state)@.forks == old(state)@.forks.insert(
                fork,
                ForkView {
                    state: spec_install_all(old(state)@.forks[fork].state, outcome.updates@),
                    ..old(state)@.forks[fork]
                },
            )
            &&& final(state)@.user_forks == old(state)@.user_forks
        },
        !(r is Ok) ==> final(state)@ == old(state)@,
{
    let fork_id = match state.get_user_fork_id(payload.user_id.as_str()) {
        Some(fid) => fid.clone(),
        None => {
            return Err(ApiError::NotFound);
        },
    };
    let program_keypair = match parse_keypair(payload.program_keypair.as_str()) {
        Ok(kp) => kp,
        Err(_) => {
            return Err(ApiError::BadRequest);
        },
    };
    let program_data = match base64_decode(payload.program_data.as_str()) {
        Some(b) => b,
        None => {
            return Err(ApiError::BadRequest);
        },
    };
    let program_addr = keypair_pubkey(&program_keypair);
    let program_size = program_data.len();
    if !outcome.success {
        return Err(ApiError::Internal);
    }
    match state.install_accounts(fork_id.as_str(), outcome.updates) {
        Ok(_) => {},
        Err(e) => {
            return Err(e);
        },
    }
    Ok(DeployProgramResponse {
        program_id: address_to_base58(&program_addr),
        signature: String::from_str("program_deployed_directly"),
        success: true,
        deployed_size: program_size,
    })
}

/// Invoke a program instruction: the program id, every account key and the
/// base64 instruction data are validated (and at least one signer is
/// required) before the engine runs anything; the engine's verdict is
/// reported with its account updates installed either way.
pub fn invoke_program(
    state: &mut ForkManager,
    payload: InvokeProgramRequest,
    outcome: EngineOutcome,
) -> (r: Result<InvokeProgramResponse, ApiError>)
    requires
        old(state).wf(),
        spec_updates_wf(outcome.updates@),
    ensures
        final(state).wf(),
        !old(state)@.user_forks.contains_key(payload.user_id@) ==> {
            &&& r == Err::<InvokeProgramResponse, ApiError>(ApiError::NotFound)
            &&& final(state)@ == old(state)@
        },
        old(state)@.user_forks.contains_key(payload.user_id@) && addr_of(payload.program_id@)
            is None ==> {
            &&& r == Err::<InvokeProgramResponse, ApiError>(ApiError::BadRequest)
            &&& final(state)@ == old(state)@
        },
        old(state)@.user_forks.contains_key(payload.user_id@) && addr_of(payload.program_id@)
            is Some && b64_decode_of(payload.instruction_data@) is Some
            && payload.signers@.len() == 0 ==> {
            &&& r == Err::<InvokeProgramResponse, ApiError>(ApiError::BadRequest)
            &&& final(state)@ == old(state)@
        },
        old(state)@.user_forks.contains_key(payload.user_id@) && addr_of(payload.program_id@)
            is Some && b64_decode_of(payload.instruction_data@) is Some
            && payload.signers@.len() > 0 && (forall|j: int| 0 <= j < payload.signers@.len()
            ==> spec_keypair_json_ok((#[trigger] payload.signers@[j])@)) && (forall|j: int|
            0 <= j < payload.accounts@.len() ==> addr_of(
            (#[trigger] payload.accounts@[j]).pubkey@,
        ) is Some) && payload.accounts@.len() <= 250 ==> (r is Ok || r == Err::<
            InvokeProgramResponse,
            ApiError,
        >(ApiError::Internal)),
        r is Ok ==> {
            let fork = old(state)@.user_forks[payload.user_id@];
            &&& old(state)@.user_forks.contains_key(payload.user_id@)
            &&& addr_of(payload.program_id@) is Some
            &&& b64_decode_of(payload.instruction_data@) is Some
            &&& payload.signers@.len() > 0
            &&& r.unwrap().success == outcome.success
            &&& (outcome.success ==> r.unwrap().error is None)
            &&& (!outcome.success ==> r.unwrap().error == outcome.error)
            &&& final(state)@.forks == old(state)@.forks.insert(
                fork,
                ForkView {
                    state: spec_install_all(old(state)@.forks[fork].state, outcome.updates@),
                    ..old(state)@.forks[fork]
                },
            )
            &&& final(state)@.user_forks == old(state)@.user_forks
        },
{
    let fork_id = match state.get_user_fork_id(payload.user_id.as_str()) {
        Some(fid) => fid.clone(),
        None => {
            return Err(ApiError::NotFound);
        },
    };
    let program_id = match parse_pubkey(payload.program_id.as_str()) {
        Some(a) => a,
        None => {
            return Err(ApiError::BadRequest);
        },
    };
    let instruction_data = match base64_decode(payload.instruction_data.as_str()) {
        Some(b) => b,
        None => {
            return Err(ApiError::BadRequest);
        },
    };
    if payload.accounts.len() > 250 {
        // The compiled message indexes its address table with a byte.
        return Err(ApiError::BadRequest);
    }
    // Parse the signing keypairs; at least one signer is required.
    let mut signers: Vec<solana_keypair::Keypair> = Vec::new();
    let mut i: usize = 0;
    while i < payload.signers.len()
        invariant
            state.wf(),
            state@ == old(state)@,
            old(state)@.user_forks.contains_key(payload.user_id@),
            fork_id@ == old(state)@.user_forks[payload.user_id@],
            addr_of(payload.program_id@) is Some,
            b64_decode_of(payload.instruction_data@) is Some,
            payload.accounts@.len() <= 250,
            i <= payload.signers@.len(),
            signers@.len() == i,
        decreases payload.signers@.len() - i,
    {
        match parse_keypair(payload.signers[i].as_str()) {
            Ok(kp) => signers.push(kp),
            Err(_) => {
                return Err(ApiError::BadRequest);
            },
        }
        i = i + 1;
    }
    if signers.len() == 0 {
        return Err(ApiError::BadRequest);
    }
    // Validate and convert the named accounts.
    let mut metas: Vec<(Address, bool, bool)> = Vec::new();
    let mut j: usize = 0;
    while j < payload.accounts.len()
        invariant
            state.wf(),
            state@ == old(state)@,
            old(state)@.user_forks.contains_key(payload.user_id@),
            fork_id@ == old(state)@.user_forks[payload.user_id@],
            addr_of(payload.program_id@) is Some,
            b64_decode_of(payload.instruction_data@) is Some,
            payload.accounts@.len() <= 250,
            signers@.len() == payload.signers@.len(),
            signers@.len() > 0,
            j <= payload.accounts@.len(),
            forall|t: int| 0 <= t < j ==> (#[trigger] metas@[t]).0.wf(),
            metas@.len() == j,
        decreases payload.accounts@.len() - j,
    {
        let meta = &payload.accounts[j];
        match parse_pubkey(meta.pubkey.as_str()) {
            Some(a) => metas.push((a, meta.is_signer, meta.is_writable)),
            None => {
                return Err(ApiError::BadRequest);
            },
        }
        j = j + 1;
    }
    let instruction = make_instruction(&program_id, &metas, instruction_data);
    let payer_addr = keypair_pubkey(&signers[0]);
    let mut instructions: Vec<solana_instruction::Instruction> = Vec::new();
    instructions.push(instruction);
    proof {
        lemma_total_key_count_one(instructions@);
    }
    let message = message_new(instructions, &payer_addr);
    let vtx = match versioned_transaction_new(message, &signers) {
        Some(tx) => tx,
        None => {
            return Err(ApiError::Internal);
        },
    };
    let _ = vtx_first_signature(&vtx);
    proof {
        assert(old(state)@.user_forks.contains_key(payload.user_id@));
        assert(old(state)@.forks.contains_key(fork_id@));
    }
    match state.install_accounts(fork_id.as_str(), outcome.updates) {
        Ok(_) => {},
        Err(e) => {
            return Err(e);
        },
    }
    let mut logs: Vec<String> = Vec::new();
    if outcome.success {
        logs.push(String::from_str("Program executed successfully"));
        Ok(InvokeProgramResponse {
            signature: String::from_str("instruction_executed"),
            success: true,
            logs,
            error: None,
        })
    } else {
        Ok(InvokeProgramResponse {
            signature: String::from_str("execution_failed"),
            success: false,
            logs,
            error: outcome.error,
        })
    }
}

/// Install a program account fetched from the network and describe it; a
/// failed fetch is an upstream error and installs nothing.
pub fn load_program(
    state: &mut ForkManager,
    payload: LoadProgramRequest,
    fetched: Result<AccountRec, String>,
) -> (r: Result<LoadProgramResponse, ApiError>)
    requires
        old(state).wf(),
        fetched is Ok ==> fetched.unwrap().owner@.len() == 32,
    ensures
        final(state).wf(),
        r is Err ==> final(state)@ == old(state)@,
        !old(state)@.user_forks.contains_key(payload.user_id@) ==> {
            &&& r == Err::<LoadProgramResponse, ApiError>(ApiError::NotFound)
        },
        old(state)@.user_forks.contains_key(payload.user_id@) && addr_of(payload.program_id@)
            is None ==> r == Err::<LoadProgramResponse, ApiError>(ApiError::BadRequest),
        old(state)@.user_forks.contains_key(payload.user_id@) && addr_of(payload.program_id@)
            is Some && fetched is Err ==> r == Err::<LoadProgramResponse, ApiError>(
            ApiError::Upstream,
        ),
        old(state)@.user_forks.contains_key(payload.user_id@) && addr_of(payload.program_id@)
            is Some && fetched is Ok ==> r is Ok,
        r is Ok ==> {
            let fork = old(state)@.user_forks[payload.user_id@];
            let rec = fetched.unwrap()@;
            &&& old(state)@.user_forks.contains_key(payload.user_id@)
            &&& addr_of(payload.program_id@) is Some
            &&& fetched is Ok
            &&& r.unwrap().success
            &&& r.unwrap().program_id@ == payload.program_id@
            &&& r.unwrap().program_size == rec.data.len()
            &&& r.unwrap().is_executable == rec.executable
            &&& final(state)@.forks == old(state)@.forks.insert(
                fork,
                ForkView {
                    state: old(state)@.forks[fork].state.insert(
                        addr_of(payload.program_id@).unwrap(),
                        rec,
                    ),
                    ..old(state)@.forks[fork]
                },
            )
            &&& final(state)@.user_forks == old(state)@.user_forks
        },
{
    let fork_id = match state.get_user_fork_id(payload.user_id.as_str()) {
        Some(fid) => fid.clone(),
        None => {
            return Err(ApiError::NotFound);
        },
    };
    let program_id = match parse_pubkey(payload.program_id.as_str()) {
        Some(a) => a,
        None => {
            return Err(ApiError::BadRequest);
        },
    };
    let rec = match fetched {
        Ok(rec) => rec,
        Err(_) => {
            return Err(ApiError::Upstream);
        },
    };
    let program_size = rec.data.len();
    let is_executable = rec.executable;
    let mut records: Vec<(Address, AccountRec)> = Vec::new();
    records.push((program_id, rec));
    let ghost recs = records@;
    match state.install_accounts(fork_id.as_str(), records) {
        Ok(_) => {},
        Err(e) => {
            return Err(e);
        },
    }
    proof {
        assert(recs.drop_last() =~= Seq::<(Address, AccountRec)>::empty());
        assert(spec_install_all(old(state)@.forks[fork_id@].state, recs.drop_last())
            == old(state)@.forks[fork_id@].state);
        assert(spec_install_all(old(state)@.forks[fork_id@].state, recs)
            == old(state)@.forks[fork_id@].state.insert(recs[0].0@, recs[0].1@));
    }
    Ok(LoadProgramResponse {
        program_id: payload.program_id,
        success: true,
        program_size,
        is_executable,
    })
}

/// Describe a program account stored in the selected fork: its owner,
/// executable flag, size and balance.
pub fn get_program_info(state: &ForkManager, payload: GetProgramRequest) -> (r: Result<
    ProgramInfo,
    ApiError,
>)
    requires
        state.wf(),
    ensures
        !state@.user_forks.contains_key(payload.user_id@) ==> r == Err::<ProgramInfo, ApiError>(
            ApiError::NotFound,
        ),
        state@.user_forks.contains_key(payload.user_id@) && addr_of(payload.program_id@) is None
            ==> r == Err::<ProgramInfo, ApiError>(ApiError::BadRequest),
        ({
            let fork = state@.user_forks[payload.user_id@];
            state@.user_forks.contains_key(payload.user_id@) && addr_of(payload.program_id@)
                is Some && state@.forks.contains_key(fork) && state@.forks[fork].state.contains_key(
                addr_of(payload.program_id@).unwrap(),
            ) ==> r is Ok
        }),
        r is Ok ==> {
            let fork = state@.user_forks[payload.user_id@];
            let rec = state@.forks[fork].state[addr_of(payload.program_id@).unwrap()];
            &&& state@.user_forks.contains_key(payload.user_id@)
            &&& addr_of(payload.program_id@) is Some
            &&& state@.forks.contains_key(fork)
            &&& state@.forks[fork].state.contains_key(addr_of(payload.program_id@).unwrap())
            &&& r.unwrap().program_id@ == payload.program_id@
            &&& r.unwrap().executable == rec.executable
            &&& r.unwrap().owner@ == pubkey_b58_of(rec.owner)
            &&& r.unwrap().data_size == rec.data.len()
            &&& r.unwrap().lamports == rec.lamports
        },
{
    let fork_id = match state.get_user_fork_id(payload.user_id.as_str()) {
        Some(fid) => fid.clone(),
        None => {
            return Err(ApiError::NotFound);
        },
    };
    let program_id = match parse_pubkey(payload.program_id.as_str()) {
        Some(a) => a,
        None => {
            return Err(ApiError::BadRequest);
        },
    };
    let fork = match state.get_fork(fork_id.as_str()) {
        Some(f) => f,
        None => {
            return Err(ApiError::NotFound);
        },
    };
    let rec = match fork.get_account(&program_id) {
        Some(rec) => rec,
        None => {
            return Err(ApiError::NotFound);
        },
    };
    let data_size = rec.data.len();
    let lamports = rec.lamports;
    let executable = rec.executable;
    // Installed records always carry 32-byte owners.
    let owner_addr = Address { bytes: rec.owner };
    Ok(ProgramInfo {
        program_id: payload.program_id,
        executable,
        owner: address_to_base58(&owner_addr),
        data_size,
        lamports,
    })
}

} // verus!
