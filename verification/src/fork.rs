use vstd::prelude::*;

use crate::account::{Address, AccountRec, AccountView, spec_default_account};
use crate::codec::{address_to_base58, pubkey_b58_of};
use crate::ledger::Ledger;
use crate::models::responses::{AccountInfo, ForkInfo, TransactionResult};

verus! {

/// Mathematical model of one fork.
pub ghost struct ForkView {
    pub id: Seq<char>,
    pub state: Map<Seq<u8>, AccountView>,
    pub created_at: u64,
    pub slot: u64,
    pub mainnet_slot: u64,
    pub mainnet_blockhash: Seq<char>,
    pub transaction_count: u64,
}

/// One isolated, in-memory ledger fork with its metadata: identity,
/// creation time, logical height (`slot`), snapshot-origin markers and
/// the count of submitted transactions.
pub struct Fork {
    pub id: String,
    pub state: Ledger,
    pub created_at: u64,
    pub slot: u64,
    pub mainnet_slot: u64,
    pub mainnet_blockhash: String,
    pub transaction_count: u64,
}

impl View for Fork {
    type V = ForkView;

    open spec fn view(&self) -> ForkView {
        ForkView {
            id: self.id@,
            state: self.state@,
            created_at: self.created_at,
            slot: self.slot,
            mainnet_slot: self.mainnet_slot,
            mainnet_blockhash: self.mainnet_blockhash@,
            transaction_count: self.transaction_count,
        }
    }
}

/// The state after setting the balance at `a` to exactly `lamports`:
/// the record keeps its other fields if it existed, and defaults to the
/// zero-value account otherwise.
pub open spec fn spec_set_balance(
    m: Map<Seq<u8>, AccountView>,
    a: Seq<u8>,
    lamports: u64,
) -> Map<Seq<u8>, AccountView> {
    if !m.contains_key(a) && lamports == 0 {
        m
    } else {
        m.insert(
            a,
            AccountView {
                lamports,
                ..(if m.contains_key(a) {
                    m[a]
                } else {
                    spec_default_account()
                })
            },
        )
    }
}

/// The state after crediting `delta` at `a` (only meaningful when the sum
/// fits in a 64-bit balance).
pub open spec fn spec_add_balance(
    m: Map<Seq<u8>, AccountView>,
    a: Seq<u8>,
    delta: u64,
) -> Map<Seq<u8>, AccountView> {
    spec_set_balance(m, a, (Ledger::spec_balance(m, a) + delta) as u64)
}

/// The outcome the execution engine reports for one submitted transaction:
/// whether execution succeeded, its error text if not, and the
/// post-execution records of the accounts the transaction touched.
pub struct EngineOutcome {
    pub success: bool,
    pub error: Option<String>,
    pub updates: Vec<(Address, AccountRec)>,
}

/// Every record in an update batch carries a full 32-byte owning-program
/// key, as the ledger's records do.
pub open spec fn spec_updates_wf(s: Seq<(Address, AccountRec)>) -> bool {
    forall|i: int| 0 <= i < s.len() ==> (#[trigger] s[i]).1.owner@.len() == 32
}

/// The map after installing a sequence of records left to right.
pub open spec fn spec_install_all(
    m: Map<Seq<u8>, AccountView>,
    s: Seq<(Address, AccountRec)>,
) -> Map<Seq<u8>, AccountView>
    decreases s.len(),
{
    if s.len() == 0 {
        m
    } else {
        spec_install_all(m, s.drop_last()).insert(s.last().0@, s.last().1@)
    }
}

/// Metadata relation of one submission step: both counters advance by
/// exactly one, whether execution succeeded or failed, and the fork's
/// identity and origin markers are untouched.
pub open spec fn submit_transition(pre: ForkView, post: ForkView) -> bool {
    &&& post.transaction_count == pre.transaction_count + 1
    &&& post.slot == pre.slot + 1
    &&& post.id == pre.id
    &&& post.created_at == pre.created_at
    &&& post.mainnet_slot == pre.mainnet_slot
    &&& post.mainnet_blockhash == pre.mainnet_blockhash
}

/// `post` is reachable from `pre` by exactly `n` submissions.
pub open spec fn submits_chain(pre: ForkView, post: ForkView, n: nat) -> bool
    decreases n,
{
    if n == 0 {
        post == pre
    } else {
        exists|mid: ForkView| submits_chain(pre, mid, (n - 1) as nat) && submit_transition(mid, post)
    }
}

/// After `n` submissions, successful or failed, the transaction count and
/// the logical height have each advanced by exactly `n`.
pub proof fn lemma_submits_advance_counters(pre: ForkView, post: ForkView, n: nat)
    requires
        submits_chain(pre, post, n),
    ensures
        post.transaction_count == pre.transaction_count + n,
        post.slot == pre.slot + n,
        post.id == pre.id,
        post.created_at == pre.created_at,
    decreases n,
{
    if n > 0 {
        let mid = choose|mid: ForkView|
            submits_chain(pre, mid, (n - 1) as nat) && submit_transition(mid, post);
        lemma_submits_advance_counters(pre, mid, (n - 1) as nat);
    }
}

/// Setting the balance to `x` and then reading it yields exactly `x`, for
/// any `x`, including one below the prior balance.
pub proof fn lemma_set_then_get(m: Map<Seq<u8>, AccountView>, a: Seq<u8>, x: u64)
    ensures
        Ledger::spec_balance(spec_set_balance(m, a, x), a) == x,
{
}

/// Crediting `d1` and then `d2` onto a balance of `b` yields `b + d1 + d2`.
pub proof fn lemma_add_twice(m: Map<Seq<u8>, AccountView>, a: Seq<u8>, d1: u64, d2: u64)
    requires
        Ledger::spec_balance(m, a) + d1 + d2 <= u64::MAX,
    ensures
        Ledger::spec_balance(spec_add_balance(spec_add_balance(m, a, d1), a, d2), a)
            == Ledger::spec_balance(m, a) + d1 + d2,
{
}

/// An address never written to reads as balance 0, not as an error.
pub proof fn lemma_absent_address_reads_zero(m: Map<Seq<u8>, AccountView>, a: Seq<u8>)
    requires
        !m.contains_key(a),
    ensures
        Ledger::spec_balance(m, a) == 0,
{
}

impl Fork {
    /// Entries of the ledger state are well formed.
    pub open spec fn wf(&self) -> bool {
        self.state.wf()
    }

    /// Create a bare fork with empty state, created at `created_at`.
    pub fn new(id: String, created_at: u64) -> (r: Fork)
        ensures
            r.wf(),
            r@ == (ForkView {
                id: id@,
                state: Map::empty(),
                created_at,
                slot: 0,
                mainnet_slot: 0,
                mainnet_blockhash: Seq::empty(),
                transaction_count: 0,
            }),
    {
        let r = Fork {
            id,
            state: Ledger::new(),
            created_at,
            slot: 0,
            mainnet_slot: 0,
            mainnet_blockhash: String::new(),
            transaction_count: 0,
        };
        r
    }

    /// Create a fork whose origin metadata is stamped from a network
    /// snapshot taken at creation; its logical height starts at the
    /// snapshot height.
    pub fn new_with_mainnet_sync(id: String, created_at: u64, mainnet_slot: u64, mainnet_blockhash: String) -> (r: Fork)
        ensures
            r.wf(),
            r@ == (ForkView {
                id: id@,
                state: Map::empty(),
                created_at,
                slot: mainnet_slot,
                mainnet_slot,
                mainnet_blockhash: mainnet_blockhash@,
                transaction_count: 0,
            }),
    {
        Fork {
            id,
            state: Ledger::new(),
            created_at,
            slot: mainnet_slot,
            mainnet_slot,
            mainnet_blockhash,
            transaction_count: 0,
        }
    }

    /// Read the balance at an address; an absent address yields 0.
    pub fn get_balance(&self, address: &Address) -> (r: u64)
        requires
            self.wf(),
        ensures
            r == Ledger::spec_balance(self@.state, address@),
    {
        self.state.balance(address)
    }

    /// Set the balance at an address to exactly `lamports`: credits the
    /// difference if the target is higher, rewrites the record with the
    /// lower balance (preserving owner, executable flag and payload) if it
    /// is lower, and leaves the state alone if it is equal.
    pub fn set_balance(&mut self, address: &Address, lamports: u64)
        requires
            old(self).wf(),
        ensures
            final(self).wf(),
            final(self)@ == (ForkView { state: spec_set_balance(old(self)@.state, address@, lamports), ..old(self)@ }),
    {
        match self.state.get_copy(address) {
            Some(existing) => {
                if existing.lamports == lamports {
                    // The record already holds the target balance.
                    proof {
                        assert(AccountView { lamports, ..old(self)@.state[address@] }
                            == old(self)@.state[address@]);
                        assert(spec_set_balance(old(self)@.state, address@, lamports)
                            =~= old(self)@.state);
                    }
                } else {
                    self.state.upsert(address.clone_addr(), existing.with_lamports(lamports));
                }
            },
            None => {
                if lamports > 0 {
                    let base = AccountRec::default_account();
                    self.state.upsert(address.clone_addr(), base.with_lamports(lamports));
                }
                // A target of zero at an absent address changes nothing.
            },
        }
    }

    /// Credit `delta` lamports onto the current balance; distinct from
    /// `set_balance`, which is absolute. Fails only when the credited
    /// balance would not fit in 64 bits; the state is then unchanged.
    pub fn add_balance(&mut self, address: &Address, lamports: u64) -> (r: Result<(), String>)
        requires
            old(self).wf(),
        ensures
            final(self).wf(),
            Ledger::spec_balance(old(self)@.state, address@) + lamports <= u64::MAX ==> {
                &&& r is Ok
                &&& final(self)@ == (ForkView {
                    state: spec_add_balance(old(self)@.state, address@, lamports),
                    ..old(self)@
                })
            },
            Ledger::spec_balance(old(self)@.state, address@) + lamports > u64::MAX ==> {
                &&& r is Err
                &&& final(self)@ == old(self)@
            },
    {
        let current = self.state.balance(address);
        match current.checked_add(lamports) {
            Some(sum) => {
                self.set_balance(address, sum);
                Ok(())
            },
            None => Err(String::from_str("Failed to add balance: credited balance exceeds the 64-bit range")),
        }
    }

    /// Look a full account record up; absent addresses yield `None`.
    pub fn get_account(&self, address: &Address) -> (r: Option<AccountRec>)
        requires
            self.wf(),
        ensures
            match r {
                Some(rec) => self@.state.contains_key(address@) && rec@ == self@.state[address@],
                None => !self@.state.contains_key(address@),
            },
    {
        self.state.get_copy(address)
    }

    /// Detailed account information for observability: the record's fields
    /// and its payload length, but not the payload content; `Some` exactly
    /// when the account exists.
    pub fn get_account_info(&self, address: &Address) -> (r: Option<AccountInfo>)
        requires
            self.wf(),
            address.wf(),
        ensures
            r is Some <==> self@.state.contains_key(address@),
            r is Some ==> {
                let rec = self@.state[address@];
                let info = r.unwrap();
                &&& info.address@ == pubkey_b58_of(address@)
                &&& info.lamports == rec.lamports
                &&& info.owner@ == pubkey_b58_of(rec.owner)
                &&& info.executable == rec.executable
                &&& info.rent_epoch == rec.rent_epoch
                &&& info.data_length == rec.data.len()
            },
    {
        match self.state.get_copy(address) {
            Some(rec) => {
                let owner_addr = Address { bytes: rec.owner };
                Some(AccountInfo {
                    address: address_to_base58(address),
                    lamports: rec.lamports,
                    owner: address_to_base58(&owner_addr),
                    executable: rec.executable,
                    rent_epoch: rec.rent_epoch,
                    data_length: rec.data.len(),
                })
            },
            None => None,
        }
    }

    /// Install one account record, replacing any prior record at that
    /// address; used by the hydration path.
    pub fn install_account(&mut self, address: Address, rec: AccountRec)
        requires
            old(self).wf(),
            rec.owner@.len() == 32,
        ensures
            final(self).wf(),
            final(self)@ == (ForkView {
                state: old(self)@.state.insert(address@, rec@),
                ..old(self)@
            }),
    {
        self.state.upsert(address, rec);
    }

    /// Record one submitted transaction: the engine's verdict and account
    /// updates are installed, and the transaction count and logical height
    /// each advance by exactly one whether execution succeeded or failed.
    pub fn send_transaction(&mut self, signature: String, outcome: EngineOutcome) -> (r: TransactionResult)
        requires
            old(self).wf(),
            spec_updates_wf(outcome.updates@),
            old(self).transaction_count < u64::MAX,
            old(self).slot < u64::MAX,
        ensures
            final(self).wf(),
            submit_transition(old(self)@, final(self)@),
            final(self)@.state == spec_install_all(old(self)@.state, outcome.updates@),
            r.success == outcome.success,
            r.signature@ == signature@,
            r.error == outcome.error,
    {
        let EngineOutcome { success, error, updates } = outcome;
        let ghost all_updates = updates@;
        // Install the engine's post-execution records in order.
        let mut k: usize = 0;
        while k < updates.len()
            invariant
                k <= all_updates.len(),
                updates@ == all_updates,
                spec_updates_wf(all_updates),
                self.wf(),
                self@.state == spec_install_all(old(self)@.state, all_updates.subrange(0, k as int)),
                self@.id == old(self)@.id,
                self@.created_at == old(self)@.created_at,
                self@.slot == old(self)@.slot,
                self@.mainnet_slot == old(self)@.mainnet_slot,
                self@.mainnet_blockhash == old(self)@.mainnet_blockhash,
                self@.transaction_count == old(self)@.transaction_count,
                old(self).transaction_count < u64::MAX,
                old(self).slot < u64::MAX,
            decreases all_updates.len() - k,
        {
            let entry = &updates[k];
            let addr = entry.0.clone_addr();
            let rec = entry.1.clone_rec();
            proof {
                assert(all_updates.subrange(0, k as int + 1).drop_last()
                    =~= all_updates.subrange(0, k as int));
                assert(all_updates.subrange(0, k as int + 1).last() == all_updates[k as int]);
            }
            self.state.upsert(addr, rec);
            k = k + 1;
        }
        proof {
            assert(all_updates.subrange(0, all_updates.len() as int) =~= all_updates);
        }
        self.transaction_count = self.transaction_count + 1;
        self.slot = self.slot + 1;
        TransactionResult { success, signature, error }
    }

    /// Point-in-time information summary for this fork.
    pub fn get_info(&self, now: u64) -> (r: ForkInfo)
        requires
            now >= self.created_at,
        ensures
            r.fork_id@ == self@.id,
            r.status@ == "active"@,
            r.slot == self@.slot,
            r.created_at == self@.created_at,
            r.uptime_seconds == now - self@.created_at,
            r.transaction_count == self@.transaction_count,
    {
        ForkInfo {
            fork_id: self.id.clone(),
            status: String::from_str("active"),
            slot: self.slot,
            created_at: self.created_at,
            uptime_seconds: now - self.created_at,
            transaction_count: self.transaction_count,
        }
    }
}

} // verus!
