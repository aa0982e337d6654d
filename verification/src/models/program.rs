use vstd::prelude::*;

verus! {

/// Deploy a compiled program to the fork.
pub struct DeployProgramRequest {
    pub user_id: String,
    pub program_keypair: String,
    pub program_data: String,
    pub payer_keypair: String,
}

/// Invoke a program instruction.
pub struct InvokeProgramRequest {
    pub user_id: String,
    pub program_id: String,
    pub instruction_data: String,
    pub accounts: Vec<AccountMetaData>,
    pub signers: Vec<String>,
}

/// One account an instruction touches.
pub struct AccountMetaData {
    pub pubkey: String,
    pub is_signer: bool,
    pub is_writable: bool,
}

/// Load a program account from the network.
pub struct LoadProgramRequest {
    pub user_id: String,
    pub program_id: String,
    pub rpc_endpoint: Option<String>,
}

/// Read program account information.
pub struct GetProgramRequest {
    pub user_id: String,
    pub program_id: String,
}

/// Upgrade a deployed program.
pub struct UpgradeProgramRequest {
    pub user_id: String,
    pub program_id: String,
    pub new_program_data: String,
    pub upgrade_authority_keypair: String,
}

/// Response after deploying a program.
pub struct DeployProgramResponse {
    pub program_id: String,
    pub signature: String,
    pub success: bool,
    pub deployed_size: usize,
}

/// Response after invoking a program.
pub struct InvokeProgramResponse {
    pub signature: String,
    pub success: bool,
    pub logs: Vec<String>,
    pub error: Option<String>,
}

/// Response after loading a program from the network.
pub struct LoadProgramResponse {
    pub program_id: String,
    pub success: bool,
    pub program_size: usize,
    pub is_executable: bool,
}

/// Program account information.
pub struct ProgramInfo {
    pub program_id: String,
    pub executable: bool,
    pub owner: String,
    pub data_size: usize,
    pub lamports: u64,
}

} // verus!
