use vstd::prelude::*;

use crate::ApiError;
use crate::codec::{
    json_bytes_of, keypair_bytes, keypair_from_base58, keypair_from_seed, keypair_seed_of,
    parse_json_bytes,
};
use crate::fork_manager::ForkManager;

verus! {

/// The character view of an optional string.
pub open spec fn view_opt(o: Option<String>) -> Option<Seq<char>> {
    match o {
        Some(s) => Some(s@),
        None => None,
    }
}

/// The error a fork selector resolves to, if any: naming neither selector
/// is a request error; an unbound user is not-found.
pub open spec fn spec_selector_err(
    v: crate::fork_manager::ManagerView,
    fid: Option<Seq<char>>,
    uid: Option<Seq<char>>,
) -> Option<ApiError> {
    match fid {
        Some(_) => None,
        None => match uid {
            Some(u) => if v.user_forks.contains_key(u) {
                None
            } else {
                Some(ApiError::NotFound)
            },
            None => Some(ApiError::BadRequest),
        },
    }
}

/// The fork id a selector resolves to; meaningful when it resolves to no
/// error.
pub open spec fn spec_selector_fork(
    v: crate::fork_manager::ManagerView,
    fid: Option<Seq<char>>,
    uid: Option<Seq<char>>,
) -> Seq<char> {
    match fid {
        Some(f) => f,
        None => v.user_forks[uid.unwrap()],
    }
}

/// A keypair string is in one of the JSON byte-array forms, which always
/// parse.
pub open spec fn spec_keypair_json_ok(s: Seq<char>) -> bool {
    json_bytes_of(s) is Some && (json_bytes_of(s).unwrap().len() == 64 || json_bytes_of(
        s,
    ).unwrap().len() == 32)
}

/// The secret seed a keypair string resolves to: the first 32 bytes of a
/// 64-byte JSON array, a bare 32-byte JSON array, or the seed its base58
/// form decodes to.
pub open spec fn spec_signer_seed(s: Seq<char>) -> Seq<u8> {
    if json_bytes_of(s) is Some && json_bytes_of(s).unwrap().len() == 64 {
        json_bytes_of(s).unwrap().subrange(0, 32)
    } else if json_bytes_of(s) is Some && json_bytes_of(s).unwrap().len() == 32 {
        json_bytes_of(s).unwrap()
    } else {
        keypair_seed_of(s)
    }
}

/// Parse a keypair from either a JSON byte-array form (64 bytes holding
/// secret and public halves, or the bare 32-byte secret) or a base58
/// string of the 64-byte form; the JSON forms always parse, and whatever
/// parses carries exactly the seed the string resolves to.
pub fn parse_keypair(key_str: &str) -> (r: Result<solana_keypair::Keypair, String>)
    ensures
        spec_keypair_json_ok(key_str@) ==> r is Ok,
        r is Ok ==> keypair_bytes(r.unwrap()) == spec_signer_seed(key_str@),
{
    match parse_json_bytes(key_str) {
        Some(bytes) => {
            if bytes.len() == 64 {
                // Only the first 32 bytes hold the secret seed.
                let mut seed: Vec<u8> = Vec::new();
                let mut i: usize = 0;
                while i < 32
                    invariant
                        i <= 32,
                        bytes@.len() == 64,
                        seed@ == bytes@.subrange(0, i as int),
                    decreases 32 - i,
                {
                    seed.push(bytes[i]);
                    i = i + 1;
                    proof {
                        assert(seed@ =~= bytes@.subrange(0, i as int));
                    }
                }
                return Ok(keypair_from_seed(&seed));
            }
            if bytes.len() == 32 {
                return Ok(keypair_from_seed(&bytes));
            }
        },
        None => {},
    }
    match keypair_from_base58(key_str) {
        Some(kp) => Ok(kp),
        None => Err(String::from_str("Failed to parse keypair")),
    }
}

/// Resolve a caller to a fork id through the user binding; a missing user
/// selector is a request error, an unbound user is not-found.
pub fn resolve_fork_id(fork_manager: &ForkManager, user_id: &Option<String>) -> (r: Result<
    String,
    ApiError,
>)
    requires
        fork_manager.wf(),
    ensures
        match user_id {
            Some(uid) => {
                if fork_manager@.user_forks.contains_key(uid@) {
                    r is Ok && r.unwrap()@ == fork_manager@.user_forks[uid@]
                } else {
                    r == Err::<String, ApiError>(ApiError::NotFound)
                }
            },
            None => r == Err::<String, ApiError>(ApiError::BadRequest),
        },
{
    match user_id {
        Some(uid) => match fork_manager.get_user_fork_id(uid.as_str()) {
            Some(fork_id) => Ok(fork_id.clone()),
            None => Err(ApiError::NotFound),
        },
        None => Err(ApiError::BadRequest),
    }
}

/// Resolve an explicit fork id or, failing that, a user binding; naming
/// neither selector is a request error, not a not-found.
pub fn resolve_fork_selector(
    fork_manager: &ForkManager,
    fork_id: &Option<String>,
    user_id: &Option<String>,
) -> (r: Result<String, ApiError>)
    requires
        fork_manager.wf(),
    ensures
        match fork_id {
            Some(fid) => r is Ok && r.unwrap()@ == fid@,
            None => match user_id {
                Some(uid) => {
                    if fork_manager@.user_forks.contains_key(uid@) {
                        r is Ok && r.unwrap()@ == fork_manager@.user_forks[uid@]
                    } else {
                        r == Err::<String, ApiError>(ApiError::NotFound)
                    }
                },
                None => r == Err::<String, ApiError>(ApiError::BadRequest),
            },
        },
{
    match fork_id {
        Some(fid) => Ok(fid.clone()),
        None => resolve_fork_id(fork_manager, user_id),
    }
}

} // verus!
