use vstd::prelude::*;

use crate::{ApiError, FORK_LIFETIME_SECONDS};
use crate::account::{AccountRec, AccountView, Address};
use crate::codec::{addr_of, spec_decimal, u64_to_string};
use crate::fork::ForkView;
use crate::fork_manager::{ForkManager, live_binding, spec_fresh_fork_id};
use crate::models::requests::{
    CreateMainnetForkRequest, LoadAccountRequest, LoadAccountsRequest, LoadTokenAccountsRequest,
};
use crate::models::responses::{CreateMainnetForkResponse, LoadAccountsResponse};
use crate::utils::{resolve_fork_selector, spec_selector_err, spec_selector_fork, view_opt};

verus! {

/// One account fetched from the external network source: the address as
/// the caller named it, and either its record or the fetch error.
pub struct FetchedAccount {
    pub address: String,
    pub result: Result<AccountRec, String>,
}

/// The ledger state after installing the first `k` fetched records in
/// order; meaningful when those entries fetched successfully and their
/// addresses are valid.
pub open spec fn spec_hydrated(
    m: Map<Seq<u8>, AccountView>,
    s: Seq<FetchedAccount>,
    k: int,
) -> Map<Seq<u8>, AccountView>
    decreases k,
{
    if k <= 0 {
        m
    } else {
        spec_hydrated(m, s, k - 1).insert(
            addr_of(s[k - 1].address@).unwrap(),
            s[k - 1].result.unwrap()@,
        )
    }
}

/// Every successfully fetched record carries a full 32-byte
/// owning-program key, as the ledger's records do.
pub open spec fn spec_fetched_wf(s: Seq<FetchedAccount>) -> bool {
    forall|i: int| 0 <= i < s.len() ==> ((#[trigger] s[i]).result is Ok
        ==> s[i].result.unwrap().owner@.len() == 32)
}

/// `k` is the point at which a batch install stops: every entry before it
/// fetched successfully, and it is the end of the batch or a failed fetch.
pub open spec fn spec_stop_point(s: Seq<FetchedAccount>, k: int) -> bool {
    &&& 0 <= k <= s.len()
    &&& forall|j: int| 0 <= j < k ==> (#[trigger] s[j]).result is Ok
    &&& (k == s.len() || s[k].result is Err)
}

/// Install a batch of fetched accounts into the selected fork. Every
/// address is validated before any record is installed; a fetch failure in
/// the middle aborts the remaining installs but rolls nothing back, and
/// the response reports exactly the addresses actually installed.
pub fn load_accounts_core(
    state: &mut ForkManager,
    fork_id: &Option<String>,
    user_id: &Option<String>,
    fetched: Vec<FetchedAccount>,
) -> (r: Result<LoadAccountsResponse, ApiError>)
    requires
        old(state).wf(),
        spec_fetched_wf(fetched@),
    ensures
        final(state).wf(),
        r is Err ==> final(state)@ == old(state)@,
        (exists|i: int| 0 <= i < fetched@.len() && addr_of(
            (#[trigger] fetched@[i]).address@,
        ) is None) ==> r == Err::<LoadAccountsResponse, ApiError>(ApiError::BadRequest),
        (forall|i: int| 0 <= i < fetched@.len() ==> addr_of(
            (#[trigger] fetched@[i]).address@,
        ) is Some) && spec_selector_err(old(state)@, view_opt(*fork_id), view_opt(*user_id))
            is None && old(state)@.forks.contains_key(
            spec_selector_fork(old(state)@, view_opt(*fork_id), view_opt(*user_id)),
        ) ==> r is Ok,
        r is Ok ==> {
            let fid = view_opt(*fork_id);
            let uid = view_opt(*user_id);
            let fork = spec_selector_fork(old(state)@, fid, uid);
            let k = r.unwrap().accounts_loaded as int;
            &&& forall|i: int| 0 <= i < fetched@.len() ==> addr_of(
                (#[trigger] fetched@[i]).address@,
            ) is Some
            &&& spec_selector_err(old(state)@, fid, uid) is None
            &&& old(state)@.forks.contains_key(fork)
            &&& spec_stop_point(fetched@, k)
            &&& r.unwrap().success
            &&& r.unwrap().loaded_addresses@.len() == k
            &&& forall|j: int| 0 <= j < k ==> (#[trigger] r.unwrap().loaded_addresses@[j])@
                == fetched@[j].address@
            &&& final(state)@.forks == old(state)@.forks.insert(
                fork,
                ForkView {
                    state: spec_hydrated(old(state)@.forks[fork].state, fetched@, k),
                    ..old(state)@.forks[fork]
                },
            )
            &&& final(state)@.user_forks == old(state)@.user_forks
        },
{
    // Validate every address before any record is installed.
    let mut addresses: Vec<Address> = Vec::new();
    let mut i: usize = 0;
    while i < fetched.len()
        invariant
            state.wf(),
            state@ == old(state)@,
            i <= fetched@.len(),
            addresses@.len() == i,
            forall|j: int| 0 <= j < i ==> addr_of((#[trigger] fetched@[j]).address@) is Some,
            forall|j: int| 0 <= j < i ==> (#[trigger] addresses@[j])@ == addr_of(
                fetched@[j].address@,
            ).unwrap() && addresses@[j].wf(),
        decreases fetched@.len() - i,
    {
        match crate::codec::parse_pubkey(fetched[i].address.as_str()) {
            Some(a) => addresses.push(a),
            None => {
                return Err(ApiError::BadRequest);
            },
        }
        i = i + 1;
    }
    let selected = resolve_fork_selector(state, fork_id, user_id)?;
    let ghost fork = selected@;
    let ghost pre = state@;
    if state.get_fork(selected.as_str()).is_none() {
        return Err(ApiError::NotFound);
    }
    let mut loaded: Vec<String> = Vec::new();
    let mut k: usize = 0;
    let mut stopped = false;
    while k < fetched.len() && !stopped
        invariant
            state.wf(),
            spec_fetched_wf(fetched@),
            fork == selected@,
            k <= fetched@.len(),
            stopped ==> k < fetched@.len() && fetched@[k as int].result is Err,
            addresses@.len() == fetched@.len(),
            forall|j: int| 0 <= j < fetched@.len() ==> addr_of(
                (#[trigger] fetched@[j]).address@,
            ) is Some,
            forall|j: int| 0 <= j < fetched@.len() ==> (#[trigger] addresses@[j])@ == addr_of(
                fetched@[j].address@,
            ).unwrap() && addresses@[j].wf(),
            forall|j: int| 0 <= j < k ==> (#[trigger] fetched@[j]).result is Ok,
            loaded@.len() == k,
            forall|j: int| 0 <= j < k ==> (#[trigger] loaded@[j])@ == fetched@[j].address@,
            pre.forks.contains_key(fork),
            state@.forks == pre.forks.insert(
                fork,
                ForkView {
                    state: spec_hydrated(pre.forks[fork].state, fetched@, k as int),
                    ..pre.forks[fork]
                },
            ),
            state@.user_forks == pre.user_forks,
        decreases fetched@.len() - k, (if stopped { 0int } else { 1int }),
    {
        match &fetched[k].result {
            Ok(found) => {
                let rec = found.clone_rec();
                let addr = addresses[k].clone_addr();
                let mut records: Vec<(Address, AccountRec)> = Vec::new();
                records.push((addr, rec));
                let ghost recs = records@;
                let ghost cur = state@;
                let _ = state.install_accounts(selected.as_str(), records);
                proof {
                    assert(cur.forks.contains_key(fork));
                    assert(state@.user_forks == cur.user_forks);
                    assert(recs.drop_last() =~= Seq::<(Address, AccountRec)>::empty());
                    assert(crate::fork::spec_install_all(
                        cur.forks[fork].state,
                        recs.drop_last(),
                    ) == cur.forks[fork].state);
                    assert(crate::fork::spec_install_all(cur.forks[fork].state, recs)
                        == cur.forks[fork].state.insert(recs[0].0@, recs[0].1@));
                    assert(recs[0].0@ == addr_of(fetched@[k as int].address@).unwrap());
                    assert(recs[0].1@ == fetched@[k as int].result.unwrap()@);
                    assert(cur.forks[fork].state == spec_hydrated(
                        pre.forks[fork].state,
                        fetched@,
                        k as int,
                    ));
                    assert(cur.forks[fork] == (ForkView {
                        state: spec_hydrated(pre.forks[fork].state, fetched@, k as int),
                        ..pre.forks[fork]
                    }));
                    assert(spec_hydrated(pre.forks[fork].state, fetched@, k as int + 1)
                        == spec_hydrated(pre.forks[fork].state, fetched@, k as int).insert(
                            addr_of(fetched@[k as int].address@).unwrap(),
                            fetched@[k as int].result.unwrap()@,
                        ));
                    assert(state@.forks == cur.forks.insert(
                        fork,
                        ForkView {
                            state: crate::fork::spec_install_all(cur.forks[fork].state, recs),
                            ..cur.forks[fork]
                        },
                    ));
                    assert((ForkView {
                        state: crate::fork::spec_install_all(cur.forks[fork].state, recs),
                        ..cur.forks[fork]
                    }) == (ForkView {
                        state: spec_hydrated(pre.forks[fork].state, fetched@, k as int + 1),
                        ..pre.forks[fork]
                    }));
                    assert(state@.forks =~= pre.forks.insert(
                        fork,
                        ForkView {
                            state: spec_hydrated(pre.forks[fork].state, fetched@, k as int + 1),
                            ..pre.forks[fork]
                        },
                    ));
                }
                loaded.push(fetched[k].address.clone());
                k = k + 1;
            },
            Err(_) => {
                stopped = true;
            },
        }
    }
    let count = loaded.len();
    Ok(LoadAccountsResponse { success: true, accounts_loaded: count, loaded_addresses: loaded })
}

/// Install a batch of fetched accounts named by a load request.
pub fn load_accounts(
    state: &mut ForkManager,
    payload: LoadAccountsRequest,
    fetched: Vec<FetchedAccount>,
) -> (r: Result<LoadAccountsResponse, ApiError>)
    requires
        old(state).wf(),
        spec_fetched_wf(fetched@),
    ensures
        final(state).wf(),
        r is Err ==> final(state)@ == old(state)@,
        (exists|i: int| 0 <= i < fetched@.len() && addr_of(
            (#[trigger] fetched@[i]).address@,
        ) is None) ==> r == Err::<LoadAccountsResponse, ApiError>(ApiError::BadRequest),
        (forall|i: int| 0 <= i < fetched@.len() ==> addr_of(
            (#[trigger] fetched@[i]).address@,
        ) is Some) && spec_selector_err(
            old(state)@,
            view_opt(payload.fork_id),
            view_opt(payload.user_id),
        ) is None && old(state)@.forks.contains_key(
            spec_selector_fork(old(state)@, view_opt(payload.fork_id), view_opt(payload.user_id)),
        ) ==> r is Ok,
        r is Ok ==> {
            let fid = view_opt(payload.fork_id);
            let uid = view_opt(payload.user_id);
            let fork = spec_selector_fork(old(state)@, fid, uid);
            let k = r.unwrap().accounts_loaded as int;
            &&& spec_selector_err(old(state)@, fid, uid) is None
            &&& old(state)@.forks.contains_key(fork)
            &&& spec_stop_point(fetched@, k)
            &&& r.unwrap().success
            &&& r.unwrap().accounts_loaded == r.unwrap().loaded_addresses@.len()
            &&& forall|j: int| 0 <= j < k ==> (#[trigger] r.unwrap().loaded_addresses@[j])@
                == fetched@[j].address@
            &&& final(state)@.forks == old(state)@.forks.insert(
                fork,
                ForkView {
                    state: spec_hydrated(old(state)@.forks[fork].state, fetched@, k),
                    ..old(state)@.forks[fork]
                },
            )
            &&& final(state)@.user_forks == old(state)@.user_forks
        },
    {
        load_accounts_core(state, &payload.fork_id, &payload.user_id, fetched)
    }

/// Install one fetched account; a fetch failure is an upstream error and
/// installs nothing.
pub fn load_account(
    state: &mut ForkManager,
    payload: LoadAccountRequest,
    fetched: Result<AccountRec, String>,
) -> (r: Result<LoadAccountsResponse, ApiError>)
    requires
        old(state).wf(),
        fetched is Ok ==> fetched.unwrap().owner@.len() == 32,
    ensures
        final(state).wf(),
        r is Err ==> final(state)@ == old(state)@,
        addr_of(payload.address@) is None ==> r == Err::<LoadAccountsResponse, ApiError>(
            ApiError::BadRequest,
        ),
        addr_of(payload.address@) is Some && fetched is Ok && spec_selector_err(
            old(state)@,
            view_opt(payload.fork_id),
            view_opt(payload.user_id),
        ) is None && old(state)@.forks.contains_key(
            spec_selector_fork(old(state)@, view_opt(payload.fork_id), view_opt(payload.user_id)),
        ) ==> r is Ok,
        addr_of(payload.address@) is Some && fetched is Err ==> r == Err::<
            LoadAccountsResponse,
            ApiError,
        >(ApiError::Upstream),
        r is Ok ==> {
            let fid = view_opt(payload.fork_id);
            let uid = view_opt(payload.user_id);
            let fork = spec_selector_fork(old(state)@, fid, uid);
            &&& addr_of(payload.address@) is Some
            &&& fetched is Ok
            &&& spec_selector_err(old(state)@, fid, uid) is None
            &&& old(state)@.forks.contains_key(fork)
            &&& r.unwrap().success
            &&& r.unwrap().accounts_loaded == 1
            &&& r.unwrap().loaded_addresses@.len() == 1
            &&& r.unwrap().loaded_addresses@[0]@ == payload.address@
            &&& final(state)@.forks == old(state)@.forks.insert(
                fork,
                ForkView {
                    state: old(state)@.forks[fork].state.insert(
                        addr_of(payload.address@).unwrap(),
                        fetched.unwrap()@,
                    ),
                    ..old(state)@.forks[fork]
                },
            )
            &&& final(state)@.user_forks == old(state)@.user_forks
        },
{
    let address = match crate::codec::parse_pubkey(payload.address.as_str()) {
        Some(a) => a,
        None => {
            return Err(ApiError::BadRequest);
        },
    };
    let rec = match fetched {
        Ok(rec) => rec,
        Err(_) => {
            return Err(ApiError::Upstream);
        },
    };
    let selected = resolve_fork_selector(state, &payload.fork_id, &payload.user_id)?;
    let mut records: Vec<(Address, AccountRec)> = Vec::new();
    records.push((address, rec));
    let ghost recs = records@;
    match state.install_accounts(selected.as_str(), records) {
        Ok(_) => {},
        Err(e) => {
            return Err(e);
        },
    }
    proof {
        assert(recs.drop_last() =~= Seq::<(Address, AccountRec)>::empty());
        assert(crate::fork::spec_install_all(
            old(state)@.forks[selected@].state,
            recs.drop_last(),
        ) == old(state)@.forks[selected@].state);
        assert(crate::fork::spec_install_all(old(state)@.forks[selected@].state, recs)
            == old(state)@.forks[selected@].state.insert(recs[0].0@, recs[0].1@));
    }
    let mut loaded: Vec<String> = Vec::new();
    loaded.push(payload.address);
    Ok(LoadAccountsResponse { success: true, accounts_loaded: 1, loaded_addresses: loaded })
}

/// A token account record belongs to `owner`: its embedded holder field
/// (payload bytes 32..64) is exactly the owner's key.
pub open spec fn spec_token_owned(e: (Seq<char>, AccountView), owner: Seq<u8>) -> bool {
    e.1.data.len() >= 64 && e.1.data.subrange(32, 64) == owner
}

/// Every fetched token-program record carries a full 32-byte
/// owning-program key, as the ledger's records do.
pub open spec fn spec_pairs_wf(s: Seq<(String, AccountRec)>) -> bool {
    forall|i: int| 0 <= i < s.len() ==> (#[trigger] s[i]).1.owner@.len() == 32
}

/// The view of one fetched (address, record) pair.
pub open spec fn spec_pair_view(e: (String, AccountRec)) -> (Seq<char>, AccountView) {
    (e.0@, e.1@)
}

/// The fetched token-program accounts whose embedded holder is `owner`,
/// in their fetched order.
pub open spec fn spec_owned_accounts(s: Seq<(Seq<char>, AccountView)>, owner: Seq<u8>) -> Seq<
    (Seq<char>, AccountView),
>
    decreases s.len(),
{
    if s.len() == 0 {
        Seq::empty()
    } else {
        spec_owned_accounts(s.drop_last(), owner) + if spec_token_owned(s.last(), owner) {
            seq![s.last()]
        } else {
            Seq::empty()
        }
    }
}

/// The state after installing the records of `s[0..n]`, keyed by their
/// parsed addresses.
pub open spec fn spec_install_list(
    m: Map<Seq<u8>, AccountView>,
    s: Seq<(Seq<char>, AccountView)>,
    n: int,
) -> Map<Seq<u8>, AccountView>
    decreases n,
{
    if n <= 0 {
        m
    } else {
        spec_install_list(m, s, n - 1).insert(addr_of(s[n - 1].0).unwrap(), s[n - 1].1)
    }
}

/// Installing the first `n` entries depends only on those entries.
proof fn lemma_install_list_prefix(
    m: Map<Seq<u8>, AccountView>,
    s1: Seq<(Seq<char>, AccountView)>,
    s2: Seq<(Seq<char>, AccountView)>,
    n: int,
)
    requires
        n <= s1.len(),
        n <= s2.len(),
        forall|j: int| 0 <= j < n ==> s1[j] == s2[j],
    ensures
        spec_install_list(m, s1, n) == spec_install_list(m, s2, n),
    decreases n,
{
    if n > 0 {
        lemma_install_list_prefix(m, s1, s2, n - 1);
        assert(s1[n - 1] == s2[n - 1]);
    }
}

/// Filtering keeps the records' owning-program keys intact.
proof fn lemma_owned_accounts_wf(s: Seq<(Seq<char>, AccountView)>, owner: Seq<u8>)
    requires
        forall|i: int| 0 <= i < s.len() ==> (#[trigger] s[i]).1.owner.len() == 32,
    ensures
        forall|j: int| 0 <= j < spec_owned_accounts(s, owner).len()
            ==> (#[trigger] spec_owned_accounts(s, owner)[j]).1.owner.len() == 32,
    decreases s.len(),
{
    if s.len() > 0 {
        let sub = s.drop_last();
        assert forall|i: int| 0 <= i < sub.len() implies (#[trigger] sub[i]).1.owner.len() == 32 by {
            assert(sub[i] == s[i]);
        }
        lemma_owned_accounts_wf(sub, owner);
        let rs = spec_owned_accounts(s, owner);
        let rsub = spec_owned_accounts(sub, owner);
        assert forall|j: int| 0 <= j < rs.len() implies (#[trigger] rs[j]).1.owner.len() == 32 by {
            if j < rsub.len() {
                assert(rs[j] == rsub[j]);
            } else {
                assert(rs[j] == s.last());
                assert(s[s.len() - 1].1.owner.len() == 32);
            }
        }
    }
}

/// A record list that pairs each entry of `s` with its parsed address
/// installs as `spec_install_list` says.
proof fn lemma_install_list(
    m: Map<Seq<u8>, AccountView>,
    records: Seq<(Address, AccountRec)>,
    s: Seq<(Seq<char>, AccountView)>,
)
    requires
        records.len() == s.len(),
        forall|j: int| 0 <= j < s.len() ==> (#[trigger] records[j]).0@ == addr_of(
            s[j].0,
        ).unwrap() && records[j].1@ == s[j].1,
    ensures
        crate::fork::spec_install_all(m, records) == spec_install_list(m, s, s.len() as int),
    decreases s.len(),
{
    if s.len() > 0 {
        assert(records.drop_last().len() == s.drop_last().len());
        assert forall|j: int| 0 <= j < s.drop_last().len() implies (#[trigger] records.drop_last()[j]).0@
            == addr_of(s.drop_last()[j].0).unwrap() && records.drop_last()[j].1@
            == s.drop_last()[j].1 by {
            assert(records.drop_last()[j] == records[j]);
            assert(s.drop_last()[j] == s[j]);
        }
        lemma_install_list(m, records.drop_last(), s.drop_last());
        lemma_install_list_prefix(m, s.drop_last(), s, s.len() - 1);
        assert(records[s.len() - 1].0@ == addr_of(s[s.len() - 1].0).unwrap());
    }
}

/// Does this record's embedded holder field match the owner?
fn owner_matches(rec: &AccountRec, owner: &Address) -> (r: bool)
    requires
        owner.wf(),
    ensures
        r == (rec@.data.len() >= 64 && rec@.data.subrange(32, 64) == owner@),
{
    if rec.data.len() < 64 {
        return false;
    }
    let mut i: usize = 0;
    while i < 32
        invariant
            i <= 32,
            rec.data@.len() >= 64,
            owner@.len() == 32,
            forall|j: int| 0 <= j < i ==> rec.data@[32 + j] == owner@[j],
        decreases 32 - i,
    {
        if rec.data[32 + i] != owner.bytes[i] {
            proof {
                assert(rec.data@.subrange(32, 64)[i as int] != owner@[i as int]);
            }
            return false;
        }
        i = i + 1;
    }
    proof {
        assert(rec.data@.subrange(32, 64) =~= owner@);
    }
    true
}

/// Install every fetched token-program account whose embedded holder is
/// the named owner: the fetched set is filtered client-side, each kept
/// address is validated before any install, and the kept records are
/// installed in their fetched order.
pub fn load_token_accounts(
    state: &mut ForkManager,
    payload: LoadTokenAccountsRequest,
    fetched: Result<Vec<(String, AccountRec)>, String>,
) -> (r: Result<LoadAccountsResponse, ApiError>)
    requires
        old(state).wf(),
        fetched is Ok ==> spec_pairs_wf(fetched.unwrap()@),
    ensures
        final(state).wf(),
        r is Err ==> final(state)@ == old(state)@,
        addr_of(payload.owner@) is None ==> r == Err::<LoadAccountsResponse, ApiError>(
            ApiError::BadRequest,
        ),
        ({
            let kept = spec_owned_accounts(
                fetched.unwrap()@.map_values(|e: (String, AccountRec)| spec_pair_view(e)),
                addr_of(payload.owner@).unwrap(),
            );
            addr_of(payload.owner@) is Some && fetched is Ok && (forall|j: int|
                0 <= j < kept.len() ==> addr_of((#[trigger] kept[j]).0) is Some)
                && spec_selector_err(
                old(state)@,
                view_opt(payload.fork_id),
                view_opt(payload.user_id),
            ) is None && old(state)@.forks.contains_key(
                spec_selector_fork(
                    old(state)@,
                    view_opt(payload.fork_id),
                    view_opt(payload.user_id),
                ),
            ) ==> r is Ok
        }),
        addr_of(payload.owner@) is Some && fetched is Err ==> r == Err::<
            LoadAccountsResponse,
            ApiError,
        >(ApiError::Upstream),
        r is Ok ==> {
            let fid = view_opt(payload.fork_id);
            let uid = view_opt(payload.user_id);
            let fork = spec_selector_fork(old(state)@, fid, uid);
            let owner = addr_of(payload.owner@).unwrap();
            let kept = spec_owned_accounts(
                fetched.unwrap()@.map_values(|e: (String, AccountRec)| spec_pair_view(e)),
                owner,
            );
            &&& addr_of(payload.owner@) is Some
            &&& fetched is Ok
            &&& spec_selector_err(old(state)@, fid, uid) is None
            &&& old(state)@.forks.contains_key(fork)
            &&& r.unwrap().success
            &&& r.unwrap().accounts_loaded == kept.len()
            &&& r.unwrap().loaded_addresses@.len() == kept.len()
            &&& forall|j: int| 0 <= j < kept.len() ==> (
                #[trigger] r.unwrap().loaded_addresses@[j])@ == kept[j].0
            &&& final(state)@.forks == old(state)@.forks.insert(
                fork,
                ForkView {
                    state: spec_install_list(
                        old(state)@.forks[fork].state,
                        kept,
                        kept.len() as int,
                    ),
                    ..old(state)@.forks[fork]
                },
            )
            &&& final(state)@.user_forks == old(state)@.user_forks
        },
{
    let owner = match crate::codec::parse_pubkey(payload.owner.as_str()) {
        Some(a) => a,
        None => {
            return Err(ApiError::BadRequest);
        },
    };
    let accounts = match fetched {
        Ok(accounts) => accounts,
        Err(_) => {
            return Err(ApiError::Upstream);
        },
    };
    let ghost all = accounts@.map_values(|e: (String, AccountRec)| spec_pair_view(e));
    proof {
        assert forall|i: int| 0 <= i < all.len() implies (#[trigger] all[i]).1.owner.len() == 32 by {
            assert(all[i] == spec_pair_view(accounts@[i]));
            assert(accounts@[i].1.owner@.len() == 32);
        }
        lemma_owned_accounts_wf(all, owner@);
    }
    // Keep exactly the accounts whose embedded holder field is the owner.
    let mut kept_addrs: Vec<String> = Vec::new();
    let mut kept_recs: Vec<AccountRec> = Vec::new();
    let mut i: usize = 0;
    while i < accounts.len()
        invariant
            state.wf(),
            state@ == old(state)@,
            fetched is Ok,
            addr_of(payload.owner@) is Some,
            forall|t: int| 0 <= t < all.len() ==> (#[trigger] all[t]).1.owner.len() == 32,
            owner.wf(),
            owner@ == addr_of(payload.owner@).unwrap(),
            i <= accounts@.len(),
            all == accounts@.map_values(|e: (String, AccountRec)| spec_pair_view(e)),
            all.len() == accounts@.len(),
            kept_addrs@.len() == kept_recs@.len(),
            ({
                let kept = spec_owned_accounts(all.subrange(0, i as int), owner@);
                &&& kept_addrs@.len() == kept.len()
                &&& forall|j: int| 0 <= j < kept.len() ==> (#[trigger] kept_addrs@[j])@
                    == kept[j].0 && kept_recs@[j]@ == kept[j].1
            }),
        decreases accounts@.len() - i,
    {
        let ghost prefix = all.subrange(0, i as int);
        proof {
            assert(all[i as int] == spec_pair_view(accounts@[i as int]));
            assert(all.subrange(0, i as int + 1) =~= prefix.push(all[i as int]));
            assert(all.subrange(0, i as int + 1).drop_last() =~= prefix);
        }
        let e = &accounts[i];
        if owner_matches(&e.1, &owner) {
            kept_addrs.push(e.0.clone());
            kept_recs.push(e.1.clone_rec());
            proof {
                assert(spec_token_owned(all[i as int], owner@));
                assert(spec_owned_accounts(all.subrange(0, i as int + 1), owner@)
                    =~= spec_owned_accounts(prefix, owner@).push(all[i as int]));
            }
        } else {
            proof {
                assert(!spec_token_owned(all[i as int], owner@));
                assert(spec_owned_accounts(all.subrange(0, i as int + 1), owner@)
                    =~= spec_owned_accounts(prefix, owner@));
            }
        }
        i = i + 1;
    }
    proof {
        assert(all.subrange(0, all.len() as int) =~= all);
    }
    let ghost kept = spec_owned_accounts(all, owner@);
    // Validate every kept address before any install.
    let mut records: Vec<(Address, AccountRec)> = Vec::new();
    let mut loaded: Vec<String> = Vec::new();
    let mut j: usize = 0;
    while j < kept_addrs.len()
        invariant
            state.wf(),
            state@ == old(state)@,
            fetched is Ok,
            addr_of(payload.owner@) is Some,
            forall|t: int| 0 <= t < kept.len() ==> (#[trigger] kept[t]).1.owner.len() == 32,
            kept == spec_owned_accounts(
                fetched.unwrap()@.map_values(|e: (String, AccountRec)| spec_pair_view(e)),
                addr_of(payload.owner@).unwrap(),
            ),
            j <= kept_addrs@.len(),
            kept_addrs@.len() == kept_recs@.len(),
            kept_addrs@.len() == kept.len(),
            forall|t: int| 0 <= t < kept.len() ==> (#[trigger] kept_addrs@[t])@ == kept[t].0
                && kept_recs@[t]@ == kept[t].1,
            records@.len() == j,
            loaded@.len() == j,
            forall|t: int| 0 <= t < j ==> (#[trigger] records@[t]).0@ == addr_of(
                kept[t].0,
            ).unwrap() && records@[t].1@ == kept[t].1,
            forall|t: int| 0 <= t < j ==> (#[trigger] loaded@[t])@ == kept[t].0,
        decreases kept_addrs@.len() - j,
    {
        match crate::codec::parse_pubkey(kept_addrs[j].as_str()) {
            Some(a) => {
                records.push((a, kept_recs[j].clone_rec()));
                loaded.push(kept_addrs[j].clone());
            },
            None => {
                return Err(ApiError::BadRequest);
            },
        }
        j = j + 1;
    }
    let selected = resolve_fork_selector(state, &payload.fork_id, &payload.user_id)?;
    let count = records.len();
    let ghost recs = records@;
    proof {
        assert forall|t: int| 0 <= t < recs.len()
            implies (#[trigger] recs[t]).1.owner@.len() == 32 by {
            assert(recs[t].1@ == kept[t].1);
            assert(kept[t].1.owner.len() == 32);
        }
    }
    match state.install_accounts(selected.as_str(), records) {
        Ok(_) => {},
        Err(e) => {
            return Err(e);
        },
    }
    proof {
        lemma_install_list(old(state)@.forks[selected@].state, recs, kept);
    }
    Ok(LoadAccountsResponse { success: true, accounts_loaded: count, loaded_addresses: loaded })
}

/// The user a snapshot-creation request acts for: the named user, or the
/// caller-supplied default identity.
pub open spec fn spec_snapshot_user(user_id: Option<String>, default_user: Seq<char>) -> Seq<char> {
    match user_id {
        Some(u) => u@,
        None => default_user,
    }
}

/// The moment a fork created at `created_at` expires, saturating at the
/// largest representable time.
pub open spec fn spec_expires_at(created_at: u64) -> u64 {
    if created_at + FORK_LIFETIME_SECONDS <= u64::MAX {
        (created_at + FORK_LIFETIME_SECONDS) as u64
    } else {
        u64::MAX
    }
}

/// Create a fork seeded from a network snapshot and install the fetched
/// accounts into it. A failed snapshot fetch creates nothing and binds
/// nothing; a later plain create for the same user starts clean.
pub fn create_mainnet_fork(
    state: &mut ForkManager,
    payload: CreateMainnetForkRequest,
    default_user: String,
    now: u64,
    sync: Result<(u64, String), String>,
    fetched: Vec<FetchedAccount>,
) -> (r: Result<CreateMainnetForkResponse, ApiError>)
    requires
        old(state).wf(),
        spec_fetched_wf(fetched@),
    ensures
        final(state).wf(),
        ({
            let user = spec_snapshot_user(payload.user_id, default_user@);
            !live_binding(old(state)@, user, now) && sync is Err ==> {
                &&& r == Err::<CreateMainnetForkResponse, ApiError>(ApiError::Upstream)
                &&& final(state)@ == old(state)@
            }
        }),
        ({
            let user = spec_snapshot_user(payload.user_id, default_user@);
            (live_binding(old(state)@, user, now) || sync is Ok) && (forall|i: int|
                0 <= i < fetched@.len() ==> addr_of((#[trigger] fetched@[i]).address@) is Some)
                ==> r is Ok
        }),
        r is Ok ==> {
            let user = spec_snapshot_user(payload.user_id, default_user@);
            let fid = r.unwrap().fork_id@;
            let k = r.unwrap().accounts_loaded as int;
            &&& r.unwrap().user_id@ == user
            &&& spec_stop_point(fetched@, k)
            &&& r.unwrap().accounts_loaded == r.unwrap().loaded_addresses@.len()
            &&& forall|j: int| 0 <= j < k ==> (#[trigger] r.unwrap().loaded_addresses@[j])@
                == fetched@[j].address@
            &&& final(state)@.forks.contains_key(fid)
            &&& final(state)@.user_forks =~= old(state)@.user_forks.insert(user, fid)
            &&& (live_binding(old(state)@, user, now) ==> {
                &&& fid == old(state)@.user_forks[user]
                &&& final(state)@.forks == old(state)@.forks.insert(
                    fid,
                    ForkView {
                        state: spec_hydrated(old(state)@.forks[fid].state, fetched@, k),
                        ..old(state)@.forks[fid]
                    },
                )
            })
            &&& (!live_binding(old(state)@, user, now) ==> {
                &&& sync is Ok
                &&& !old(state)@.forks.contains_key(fid)
                &&& crate::fork_manager::spec_id_extends(spec_fresh_fork_id(user, now), fid)
                &&& final(state)@.forks == old(state)@.forks.insert(
                    fid,
                    ForkView {
                        id: fid,
                        state: spec_hydrated(Map::empty(), fetched@, k),
                        created_at: now,
                        slot: sync.unwrap().0,
                        mainnet_slot: sync.unwrap().0,
                        mainnet_blockhash: sync.unwrap().1@,
                        transaction_count: 0,
                    },
                )
            })
            &&& r.unwrap().mainnet_slot == final(state)@.forks[fid].mainnet_slot
            &&& r.unwrap().mainnet_blockhash@ == final(state)@.forks[fid].mainnet_blockhash
            &&& r.unwrap().created_at@ == spec_decimal(final(state)@.forks[fid].created_at as nat)
            &&& r.unwrap().expires_at@ == spec_decimal(
                spec_expires_at(final(state)@.forks[fid].created_at) as nat,
            )
        },
{
    let user_id = match payload.user_id {
        Some(u) => u,
        None => default_user,
    };
    let user_copy = user_id.clone();
    let ghost user = user_id@;
    let ghost pre = old(state)@;
    let fork_id = match state.create_fork_with_mainnet_sync(user_id, now, sync) {
        Ok(fid) => fid,
        Err(_) => {
            return Err(ApiError::Upstream);
        },
    };
    let ghost mid = state@;
    proof {
        assert(mid.forks.contains_key(fork_id@));
        assert(mid.user_forks =~= pre.user_forks.insert(user, fork_id@));
    }
    let response = load_accounts_core(state, &Some(fork_id.clone()), &None, fetched)?;
    proof {
        let k = response.accounts_loaded as int;
        if live_binding(pre, user, now) {
            assert(state@.forks =~= pre.forks.insert(
                fork_id@,
                ForkView {
                    state: spec_hydrated(pre.forks[fork_id@].state, fetched@, k),
                    ..pre.forks[fork_id@]
                },
            ));
        } else {
            assert(mid.forks[fork_id@] == (ForkView {
                id: fork_id@,
                state: Map::empty(),
                created_at: now,
                slot: sync.unwrap().0,
                mainnet_slot: sync.unwrap().0,
                mainnet_blockhash: sync.unwrap().1@,
                transaction_count: 0,
            }));
            assert(state@.forks =~= pre.forks.insert(
                fork_id@,
                ForkView {
                    id: fork_id@,
                    state: spec_hydrated(Map::empty(), fetched@, k),
                    created_at: now,
                    slot: sync.unwrap().0,
                    mainnet_slot: sync.unwrap().0,
                    mainnet_blockhash: sync.unwrap().1@,
                    transaction_count: 0,
                },
            ));
        }
        assert(state@.user_forks =~= pre.user_forks.insert(user, fork_id@));
    }
    let (created_at, mainnet_slot, mainnet_blockhash) = match state.get_fork(fork_id.as_str()) {
        Some(f) => (f.created_at, f.mainnet_slot, f.mainnet_blockhash.clone()),
        None => {
            return Err(ApiError::Internal);
        },
    };
    let expires_at: u64 = match created_at.checked_add(FORK_LIFETIME_SECONDS) {
        Some(v) => v,
        None => u64::MAX,
    };
    Ok(CreateMainnetForkResponse {
        fork_id,
        user_id: user_copy,
        created_at: u64_to_string(created_at),
        expires_at: u64_to_string(expires_at),
        mainnet_slot,
        mainnet_blockhash,
        accounts_loaded: response.accounts_loaded,
        loaded_addresses: response.loaded_addresses,
    })
}

} // verus!
