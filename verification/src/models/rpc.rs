use vstd::prelude::*;

verus! {

/// One ledger call, already unmarshalled from its transport encoding.
pub enum RpcCall {
    GetBalance { address: String },
    GetAccountInfo { address: String, encoding: String },
    GetSlot,
    GetLatestBlockhash,
    GetBlockHeight,
    GetHealth,
    GetVersion,
}

/// The data of a successful ledger call.
pub enum RpcValue {
    Balance { slot: u64, lamports: u64 },
    AccountInfo { slot: u64, value: Option<EncodedAccount> },
    Slot { slot: u64 },
    LatestBlockhash { slot: u64, blockhash: String, last_valid_block_height: u64 },
    BlockHeight { height: u64 },
    Health,
    Version,
}

/// An account with its payload encoded for transport.
pub struct EncodedAccount {
    pub lamports: u64,
    pub owner: String,
    pub executable: bool,
    pub rent_epoch: u64,
    pub data: String,
    pub encoding: String,
}

/// A ledger-call error.
pub struct RpcError {
    pub code: i32,
    pub message: String,
}

/// The outcome of one ledger call: exactly one of result and error is set.
pub struct RpcReply {
    pub id: u64,
    pub result: Option<RpcValue>,
    pub error: Option<RpcError>,
}

impl RpcReply {
    /// A successful reply.
    pub fn success(id: u64, result: RpcValue) -> (r: RpcReply)
        ensures
            r.id == id,
            r.result == Some(result),
            r.error is None,
    {
        RpcReply { id, result: Some(result), error: None }
    }

    /// A failed reply with the given error code and message.
    pub fn error(id: u64, code: i32, message: String) -> (r: RpcReply)
        ensures
            r.id == id,
            r.result is None,
            match r.error {
                Some(e) => e.code == code && e.message@ == message@,
                None => false,
            },
    {
        RpcReply { id, result: None, error: Some(RpcError { code, message }) }
    }
}

} // verus!
