use vstd::prelude::*;

use crate::{ApiError, is_expired, spec_is_expired};
use crate::account::{AccountRec, Address};
use crate::codec::{spec_decimal, str_eq, u64_to_string};
use crate::fork::{
    EngineOutcome, Fork, ForkView, spec_add_balance, spec_install_all, spec_set_balance,
    spec_updates_wf, submit_transition,
};
use vstd::set_lib::lemma_len_subset;
use crate::ledger::Ledger;
use crate::models::responses::TransactionResult;

verus! {

/// Map view of a fork sequence, keyed by fork id; later entries win, so
/// with unique ids the order is irrelevant.
pub open spec fn fork_map(s: Seq<Fork>) -> Map<Seq<char>, ForkView>
    decreases s.len(),
{
    if s.len() == 0 {
        Map::empty()
    } else {
        fork_map(s.drop_last()).insert(s.last()@.id, s.last()@)
    }
}

/// Ids of distinct forks are distinct.
pub open spec fn unique_fork_ids(s: Seq<Fork>) -> bool {
    forall|i: int, j: int| 0 <= i < j < s.len() ==> s[i]@.id != s[j]@.id
}

/// The map of a fork sequence contains exactly the ids of its forks.
pub proof fn lemma_fork_map_domain(s: Seq<Fork>)
    ensures
        forall|k: Seq<char>| #[trigger] fork_map(s).contains_key(k)
            <==> exists|i: int| 0 <= i < s.len() && s[i]@.id == k,
    decreases s.len(),
{
    if s.len() > 0 {
        let sub = s.drop_last();
        lemma_fork_map_domain(sub);
        assert forall|k: Seq<char>| #[trigger] fork_map(s).contains_key(k)
            implies exists|i: int| 0 <= i < s.len() && s[i]@.id == k by {
            if k == s.last()@.id {
                assert(s[s.len() - 1]@.id == k);
            } else {
                assert(fork_map(sub).contains_key(k));
                let i = choose|i: int| 0 <= i < sub.len() && sub[i]@.id == k;
                assert(sub[i] == s[i]);
                assert(s[i]@.id == k);
            }
        }
        assert forall|k: Seq<char>| (exists|i: int| 0 <= i < s.len() && s[i]@.id == k)
            implies #[trigger] fork_map(s).contains_key(k) by {
            let i = choose|i: int| 0 <= i < s.len() && s[i]@.id == k;
            if i < s.len() - 1 {
                assert(sub[i] == s[i]);
                assert(sub[i]@.id == k);
                assert(fork_map(sub).contains_key(k));
            }
        }
    }
}

/// With unique ids, the fork at any index gives the map's value at its id.
pub proof fn lemma_fork_map_index(s: Seq<Fork>, i: int)
    requires
        unique_fork_ids(s),
        0 <= i < s.len(),
    ensures
        fork_map(s).contains_key(s[i]@.id),
        fork_map(s)[s[i]@.id] == s[i]@,
    decreases s.len(),
{
    lemma_fork_map_domain(s);
    if i < s.len() - 1 {
        lemma_fork_map_index(s.drop_last(), i);
        assert(s[i]@.id != s.last()@.id);
    }
}

/// Appending a fork inserts its id.
pub proof fn lemma_fork_map_push(s: Seq<Fork>, f: Fork)
    ensures
        fork_map(s.push(f)) == fork_map(s).insert(f@.id, f@),
{
    assert(s.push(f).drop_last() =~= s);
    assert(s.push(f).last() == f);
}

/// Replacing the fork at an index, keeping its id, updates the map at it.
pub proof fn lemma_fork_map_update(s: Seq<Fork>, i: int, f: Fork)
    requires
        unique_fork_ids(s),
        0 <= i < s.len(),
        f@.id == s[i]@.id,
    ensures
        fork_map(s.update(i, f)) =~= fork_map(s).insert(f@.id, f@),
    decreases s.len(),
{
    let t = s.update(i, f);
    if i == s.len() - 1 {
        assert(t.drop_last() =~= s.drop_last());
    } else {
        assert(t.drop_last() =~= s.drop_last().update(i, f));
        lemma_fork_map_update(s.drop_last(), i, f);
        assert(s.last()@.id != s[i]@.id);
        assert(fork_map(t) =~= fork_map(s).insert(f@.id, f@));
    }
}

/// With unique ids, the map has as many keys as the sequence has forks.
pub proof fn lemma_fork_map_len(s: Seq<Fork>)
    requires
        unique_fork_ids(s),
    ensures
        fork_map(s).dom().finite(),
        fork_map(s).dom().len() == s.len(),
    decreases s.len(),
{
    if s.len() > 0 {
        let sub = s.drop_last();
        lemma_fork_map_len(sub);
        lemma_fork_map_domain(sub);
        assert(!fork_map(sub).contains_key(s.last()@.id));
        assert(fork_map(s).dom() =~= fork_map(sub).dom().insert(s.last()@.id));
    }
}

/// Map view of a binding sequence, keyed by user id.
pub open spec fn bindings_map(s: Seq<(String, String)>) -> Map<Seq<char>, Seq<char>>
    decreases s.len(),
{
    if s.len() == 0 {
        Map::empty()
    } else {
        bindings_map(s.drop_last()).insert(s.last().0@, s.last().1@)
    }
}

/// Users of distinct bindings are distinct.
pub open spec fn unique_binding_users(s: Seq<(String, String)>) -> bool {
    forall|i: int, j: int| 0 <= i < j < s.len() ==> s[i].0@ != s[j].0@
}

/// The map of a binding sequence contains exactly the users of its entries.
pub proof fn lemma_bindings_map_domain(s: Seq<(String, String)>)
    ensures
        forall|k: Seq<char>| #[trigger] bindings_map(s).contains_key(k)
            <==> exists|i: int| 0 <= i < s.len() && s[i].0@ == k,
    decreases s.len(),
{
    if s.len() > 0 {
        let sub = s.drop_last();
        lemma_bindings_map_domain(sub);
        assert forall|k: Seq<char>| #[trigger] bindings_map(s).contains_key(k)
            implies exists|i: int| 0 <= i < s.len() && s[i].0@ == k by {
            if k == s.last().0@ {
                assert(s[s.len() - 1].0@ == k);
            } else {
                assert(bindings_map(sub).contains_key(k));
                let i = choose|i: int| 0 <= i < sub.len() && sub[i].0@ == k;
                assert(sub[i] == s[i]);
                assert(s[i].0@ == k);
            }
        }
        assert forall|k: Seq<char>| (exists|i: int| 0 <= i < s.len() && s[i].0@ == k)
            implies #[trigger] bindings_map(s).contains_key(k) by {
            let i = choose|i: int| 0 <= i < s.len() && s[i].0@ == k;
            if i < s.len() - 1 {
                assert(sub[i] == s[i]);
                assert(sub[i].0@ == k);
                assert(bindings_map(sub).contains_key(k));
            }
        }
    }
}

/// With unique users, the binding at any index gives the map's value.
pub proof fn lemma_bindings_map_index(s: Seq<(String, String)>, i: int)
    requires
        unique_binding_users(s),
        0 <= i < s.len(),
    ensures
        bindings_map(s).contains_key(s[i].0@),
        bindings_map(s)[s[i].0@] == s[i].1@,
    decreases s.len(),
{
    lemma_bindings_map_domain(s);
    if i < s.len() - 1 {
        lemma_bindings_map_index(s.drop_last(), i);
        assert(s[i].0@ != s.last().0@);
    }
}

/// Appending a binding inserts its user.
pub proof fn lemma_bindings_map_push(s: Seq<(String, String)>, e: (String, String))
    ensures
        bindings_map(s.push(e)) == bindings_map(s).insert(e.0@, e.1@),
{
    assert(s.push(e).drop_last() =~= s);
    assert(s.push(e).last() == e);
}

/// Replacing the binding at an index, keeping its user, updates the map.
pub proof fn lemma_bindings_map_update(s: Seq<(String, String)>, i: int, e: (String, String))
    requires
        unique_binding_users(s),
        0 <= i < s.len(),
        e.0@ == s[i].0@,
    ensures
        bindings_map(s.update(i, e)) =~= bindings_map(s).insert(e.0@, e.1@),
    decreases s.len(),
{
    let t = s.update(i, e);
    if i == s.len() - 1 {
        assert(t.drop_last() =~= s.drop_last());
    } else {
        assert(t.drop_last() =~= s.drop_last().update(i, e));
        lemma_bindings_map_update(s.drop_last(), i, e);
        assert(s.last().0@ != s[i].0@);
        assert(bindings_map(t) =~= bindings_map(s).insert(e.0@, e.1@));
    }
}

/// Mathematical model of the registry: the fork collection and the
/// tenant bindings, updated together.
pub ghost struct ManagerView {
    pub forks: Map<Seq<char>, ForkView>,
    pub user_forks: Map<Seq<char>, Seq<char>>,
}

/// The registry owning every live fork and the user-to-fork bindings.
/// All mutation of a fork happens through the registry's methods.
pub struct ForkManager {
    pub forks: Vec<Fork>,
    pub user_forks: Vec<(String, String)>,
}

impl View for ForkManager {
    type V = ManagerView;

    open spec fn view(&self) -> ManagerView {
        ManagerView {
            forks: fork_map(self.forks@),
            user_forks: bindings_map(self.user_forks@),
        }
    }
}

/// A user's binding is live when it names a fork that is present and has
/// not expired; a stale binding counts as no binding.
pub open spec fn live_binding(v: ManagerView, user: Seq<char>, now: u64) -> bool {
    &&& v.user_forks.contains_key(user)
    &&& v.forks.contains_key(v.user_forks[user])
    &&& !spec_is_expired(v.forks[v.user_forks[user]].created_at, now)
}

/// The id given to a fork created for `user` at time `now`.
pub open spec fn spec_fresh_fork_id(user: Seq<char>, now: u64) -> Seq<char> {
    "fork-"@ + user + "-"@ + spec_decimal(now as nat)
}

/// The view of a bare fork created at `now`.
pub open spec fn spec_bare_fork(id: Seq<char>, now: u64) -> ForkView {
    ForkView {
        id,
        state: Map::empty(),
        created_at: now,
        slot: 0,
        mainnet_slot: 0,
        mainnet_blockhash: Seq::empty(),
        transaction_count: 0,
    }
}

/// `id` extends `base`: it starts with `base` and is at least as long.
pub open spec fn spec_id_extends(base: Seq<char>, id: Seq<char>) -> bool {
    &&& id.len() >= base.len()
    &&& id.subrange(0, base.len() as int) == base
}

/// What `create_fork(user)` at time `now` did, returning `id`: a live
/// binding is reused untouched; otherwise the returned id extends the
/// timestamped base id, names no existing fork (fresh even under creation
/// bursts and clock repeats), and a bare fork is inserted under it with
/// the user rebound to it.
pub open spec fn spec_created(
    pre: ManagerView,
    post: ManagerView,
    user: Seq<char>,
    now: u64,
    id: Seq<char>,
) -> bool {
    if live_binding(pre, user, now) {
        &&& post == pre
        &&& id == pre.user_forks[user]
    } else {
        &&& !pre.forks.contains_key(id)
        &&& spec_id_extends(spec_fresh_fork_id(user, now), id)
        &&& post.forks == pre.forks.insert(id, spec_bare_fork(id, now))
        &&& post.user_forks == pre.user_forks.insert(user, id)
    }
}

/// Creating for the same user again, while the fork the first call
/// returned has not expired, returns the same fork id and leaves the
/// registry exactly as the first call left it; the user is bound to
/// exactly that one fork.
pub proof fn lemma_create_idempotent(
    v0: ManagerView,
    v1: ManagerView,
    user: Seq<char>,
    now1: u64,
    now2: u64,
    id: Seq<char>,
)
    requires
        spec_created(v0, v1, user, now1, id),
        !spec_is_expired(v1.forks[id].created_at, now2),
    ensures
        live_binding(v1, user, now2),
        v1.user_forks.contains_key(user),
        v1.user_forks[user] == id,
        v1.forks.contains_key(id),
        forall|v2: ManagerView, id2: Seq<char>| spec_created(v1, v2, user, now2, id2)
            ==> v2 == v1 && id2 == id,
{
    if live_binding(v0, user, now1) {
        assert(v1 == v0);
        assert(live_binding(v1, user, now2));
    } else {
        assert(v1.user_forks[user] == id);
        assert(v1.forks.contains_key(id));
        assert(live_binding(v1, user, now2));
    }
}

/// Removing the fork at an index removes its id from the map.
pub proof fn lemma_fork_map_remove(s: Seq<Fork>, i: int)
    requires
        unique_fork_ids(s),
        0 <= i < s.len(),
    ensures
        fork_map(s.remove(i)) =~= fork_map(s).remove(s[i]@.id),
    decreases s.len(),
{
    let t = s.remove(i);
    lemma_fork_map_domain(s.drop_last());
    if i == s.len() - 1 {
        assert(t =~= s.drop_last());
        assert(!fork_map(s.drop_last()).contains_key(s[i]@.id));
        assert(fork_map(t) =~= fork_map(s).remove(s[i]@.id));
    } else {
        assert(t.drop_last() =~= s.drop_last().remove(i));
        assert(t.last() == s.last());
        lemma_fork_map_remove(s.drop_last(), i);
        assert(s[i]@.id != s.last()@.id);
        assert(fork_map(t) =~= fork_map(s).remove(s[i]@.id));
    }
}

/// The forks kept by a sweep at time `now`: exactly those not yet expired.
pub open spec fn spec_sweep_forks(m: Map<Seq<char>, ForkView>, now: u64) -> Map<Seq<char>, ForkView> {
    Map::new(
        |k: Seq<char>| m.contains_key(k) && !spec_is_expired(m[k].created_at, now),
        |k: Seq<char>| m[k],
    )
}

/// The bindings kept after a removal: exactly those whose fork is still
/// present; bindings and fork entries are removed together.
pub open spec fn spec_live_bindings(
    b: Map<Seq<char>, Seq<char>>,
    kept: Map<Seq<char>, ForkView>,
) -> Map<Seq<char>, Seq<char>> {
    Map::new(|t: Seq<char>| b.contains_key(t) && kept.contains_key(b[t]), |t: Seq<char>| b[t])
}

/// A sweep removes every fork whose age exceeds the lifetime and no fork
/// within it, and after it no removed id is named by any binding.
pub proof fn lemma_sweep_removes_exactly_expired(
    forks: Map<Seq<char>, ForkView>,
    bindings: Map<Seq<char>, Seq<char>>,
    now: u64,
)
    ensures
        forall|k: Seq<char>| forks.contains_key(k) && spec_is_expired(forks[k].created_at, now)
            ==> !(#[trigger] spec_sweep_forks(forks, now).contains_key(k)),
        forall|k: Seq<char>| forks.contains_key(k) && !spec_is_expired(forks[k].created_at, now)
            ==> #[trigger] spec_sweep_forks(forks, now).contains_key(k)
                && spec_sweep_forks(forks, now)[k] == forks[k],
        forall|t: Seq<char>|
            #[trigger] spec_live_bindings(bindings, spec_sweep_forks(forks, now)).contains_key(t)
            ==> spec_sweep_forks(forks, now).contains_key(
                spec_live_bindings(bindings, spec_sweep_forks(forks, now))[t],
            ),
{
}

/// Sweeping a second time at the same instant removes nothing further.
pub proof fn lemma_sweep_idempotent(forks: Map<Seq<char>, ForkView>, now: u64)
    ensures
        spec_sweep_forks(spec_sweep_forks(forks, now), now) =~= spec_sweep_forks(forks, now),
{
}

impl ForkManager {
    /// Forks carry pairwise distinct ids and well-formed state, binding
    /// users are pairwise distinct, and every binding names a present fork.
    pub open spec fn wf(&self) -> bool {
        &&& unique_fork_ids(self.forks@)
        &&& forall|i: int| 0 <= i < self.forks@.len() ==> (#[trigger] self.forks@[i]).wf()
        &&& unique_binding_users(self.user_forks@)
        &&& forall|t: Seq<char>| #[trigger] self@.user_forks.contains_key(t)
            ==> self@.forks.contains_key(self@.user_forks[t])
    }

    /// An empty registry.
    pub fn new() -> (r: ForkManager)
        ensures
            r.wf(),
            r@.forks == Map::<Seq<char>, ForkView>::empty(),
            r@.user_forks == Map::<Seq<char>, Seq<char>>::empty(),
    {
        ForkManager { forks: Vec::new(), user_forks: Vec::new() }
    }

    /// Index of the fork with the given id, if any.
    fn find_fork_index(&self, fork_id: &str) -> (r: Option<usize>)
        ensures
            match r {
                Some(i) => i < self.forks@.len() && self.forks@[i as int]@.id == fork_id@,
                None => forall|i: int| 0 <= i < self.forks@.len()
                    ==> (#[trigger] self.forks@[i])@.id != fork_id@,
            },
    {
        let mut i: usize = 0;
        while i < self.forks.len()
            invariant
                i <= self.forks@.len(),
                forall|j: int| 0 <= j < i ==> (#[trigger] self.forks@[j])@.id != fork_id@,
            decreases self.forks@.len() - i,
        {
            if str_eq(self.forks[i].id.as_str(), fork_id) {
                return Some(i);
            }
            i = i + 1;
        }
        None
    }

    /// Is a fork with this id present?
    fn has_fork(&self, fork_id: &str) -> (r: bool)
        ensures
            r == fork_map(self.forks@).contains_key(fork_id@),
    {
        proof {
            lemma_fork_map_domain(self.forks@);
        }
        match self.find_fork_index(fork_id) {
            Some(_) => true,
            None => false,
        }
    }

    /// Allocate an id that names no existing fork: the timestamped base id
    /// for `user`, extended one marker character at a time while it is
    /// taken. Distinct extensions have distinct lengths, so after at most
    /// one try per live fork an unused id is found: ids stay unique even
    /// under creation bursts and clock repeats.
    fn allocate_fork_id(&self, user_id: &str, now: u64) -> (r: String)
        requires
            self.wf(),
        ensures
            !self@.forks.contains_key(r@),
            spec_id_extends(spec_fresh_fork_id(user_id@, now), r@),
    {
        let mut candidate = String::from_str("fork-");
        candidate.append(user_id);
        candidate.append("-");
        candidate.append(u64_to_string(now).as_str());
        let ghost base = candidate@;
        proof {
            assert(base == spec_fresh_fork_id(user_id@, now));
            assert(candidate@.subrange(0, base.len() as int) =~= base);
            lemma_fork_map_len(self.forks@);
        }
        let total = self.forks.len();
        let mut tries: usize = 0;
        let ghost mut seen: Set<Seq<char>> = Set::empty();
        let mut in_use = self.has_fork(candidate.as_str());
        while in_use
            invariant
                self.wf(),
                in_use == self@.forks.contains_key(candidate@),
                total == self@.forks.dom().len(),
                self@.forks.dom().finite(),
                seen.finite(),
                seen.len() == tries,
                seen.subset_of(self@.forks.dom()),
                forall|x: Seq<char>| seen.contains(x) ==> x.len() < candidate@.len(),
                spec_id_extends(base, candidate@),
                tries <= total,
            decreases total - tries,
        {
            proof {
                assert(!seen.contains(candidate@));
                seen = seen.insert(candidate@);
                lemma_len_subset(seen, self@.forks.dom());
                reveal_strlit("x");
            }
            tries = tries + 1;
            let ghost before = candidate@;
            candidate.append("x");
            proof {
                assert(candidate@.len() > before.len());
                assert(candidate@.subrange(0, base.len() as int)
                    =~= before.subrange(0, base.len() as int));
            }
            in_use = self.has_fork(candidate.as_str());
        }
        candidate
    }

    /// Look a fork up by id.
    pub fn get_fork(&self, fork_id: &str) -> (r: Option<&Fork>)
        requires
            self.wf(),
        ensures
            match r {
                Some(f) => self@.forks.contains_key(fork_id@) && f@ == self@.forks[fork_id@]
                    && f.wf(),
                None => !self@.forks.contains_key(fork_id@),
            },
    {
        proof {
            lemma_fork_map_domain(self.forks@);
        }
        match self.find_fork_index(fork_id) {
            Some(i) => {
                proof {
                    lemma_fork_map_index(self.forks@, i as int);
                }
                Some(&self.forks[i])
            },
            None => None,
        }
    }

    /// Look the fork id bound to a user up.
    pub fn get_user_fork_id(&self, user_id: &str) -> (r: Option<&String>)
        requires
            self.wf(),
        ensures
            match r {
                Some(id) => self@.user_forks.contains_key(user_id@)
                    && id@ == self@.user_forks[user_id@],
                None => !self@.user_forks.contains_key(user_id@),
            },
    {
        proof {
            lemma_bindings_map_domain(self.user_forks@);
        }
        let mut i: usize = 0;
        while i < self.user_forks.len()
            invariant
                self.wf(),
                i <= self.user_forks@.len(),
                forall|j: int| 0 <= j < i ==> (#[trigger] self.user_forks@[j]).0@ != user_id@,
            decreases self.user_forks@.len() - i,
        {
            if str_eq(self.user_forks[i].0.as_str(), user_id) {
                proof {
                    lemma_bindings_map_index(self.user_forks@, i as int);
                }
                return Some(&self.user_forks[i].1);
            }
            i = i + 1;
        }
        None
    }

    /// Number of live forks.
    pub fn active_fork_count(&self) -> (r: usize)
        requires
            self.wf(),
        ensures
            r == self@.forks.dom().len(),
    {
        proof {
            lemma_fork_map_len(self.forks@);
        }
        self.forks.len()
    }

    /// The ids of all live forks.
    pub fn get_all_fork_ids(&self) -> (r: Vec<String>)
        requires
            self.wf(),
        ensures
            r@.len() == self.forks@.len(),
            r@.len() == self@.forks.dom().len(),
            forall|i: int| 0 <= i < r@.len() ==> (#[trigger] r@[i])@ == self.forks@[i]@.id,
            forall|i: int| 0 <= i < r@.len() ==> self@.forks.contains_key((#[trigger] r@[i])@),
    {
        proof {
            lemma_fork_map_len(self.forks@);
            lemma_fork_map_domain(self.forks@);
        }
        let mut r: Vec<String> = Vec::new();
        let mut i: usize = 0;
        while i < self.forks.len()
            invariant
                i <= self.forks@.len(),
                r@.len() == i,
                forall|j: int| 0 <= j < i ==> (#[trigger] r@[j])@ == self.forks@[j]@.id,
                forall|k: Seq<char>| fork_map(self.forks@).contains_key(k)
                    <==> exists|j: int| 0 <= j < self.forks@.len() && self.forks@[j]@.id == k,
            decreases self.forks@.len() - i,
        {
            r.push(self.forks[i].id.clone());
            i = i + 1;
        }
        r
    }

    /// Insert a fork, replacing any fork with the same id.
    fn upsert_fork(&mut self, f: Fork)
        requires
            old(self).wf(),
            f.wf(),
        ensures
            final(self).wf(),
            final(self)@.forks == old(self)@.forks.insert(f@.id, f@),
            final(self)@.user_forks == old(self)@.user_forks,
    {
        let ghost fid = f@.id;
        let ghost fv = f@;
        proof {
            lemma_fork_map_domain(self.forks@);
        }
        match self.find_fork_index(f.id.as_str()) {
            Some(i) => {
                let ghost pre = self.forks@;
                proof {
                    lemma_fork_map_update(pre, i as int, f);
                }
                self.forks[i] = f;
                proof {
                    assert forall|a: int, b: int| 0 <= a < b < self.forks@.len()
                        implies self.forks@[a]@.id != self.forks@[b]@.id by {
                        assert(pre[a]@.id != pre[b]@.id);
                    }
                    assert forall|j: int| 0 <= j < self.forks@.len()
                        implies (#[trigger] self.forks@[j]).wf() by {
                        if j != i {
                            assert(pre[j].wf());
                        }
                    }
                }
            },
            None => {
                let ghost pre = self.forks@;
                proof {
                    lemma_fork_map_push(pre, f);
                }
                self.forks.push(f);
                proof {
                    assert forall|a: int, b: int| 0 <= a < b < self.forks@.len()
                        implies self.forks@[a]@.id != self.forks@[b]@.id by {
                        if b < pre.len() {
                            assert(pre[a]@.id != pre[b]@.id);
                        } else {
                            assert(self.forks@[a] == pre[a]);
                            assert(pre[a]@.id != f@.id);
                        }
                    }
                    assert forall|j: int| 0 <= j < self.forks@.len()
                        implies (#[trigger] self.forks@[j]).wf() by {
                        if j < pre.len() {
                            assert(pre[j].wf());
                        }
                    }
                }
            },
        }
        proof {
            assert(self@.forks == old(self)@.forks.insert(fid, fv));
            assert forall|t: Seq<char>| #[trigger] self@.user_forks.contains_key(t)
                implies self@.forks.contains_key(self@.user_forks[t]) by {
                assert(old(self)@.user_forks.contains_key(t));
                assert(old(self)@.forks.contains_key(old(self)@.user_forks[t]));
                assert(self@.forks.contains_key(old(self)@.user_forks[t]));
            }
        }
    }

    /// Bind a user to a fork id, replacing any prior binding.
    fn upsert_binding(&mut self, user_id: String, fork_id: String)
        requires
            old(self).wf(),
            old(self)@.forks.contains_key(fork_id@),
        ensures
            final(self).wf(),
            final(self)@.forks == old(self)@.forks,
            final(self)@.user_forks == old(self)@.user_forks.insert(user_id@, fork_id@),
    {
        proof {
            lemma_bindings_map_domain(self.user_forks@);
        }
        let mut i: usize = 0;
        while i < self.user_forks.len()
            invariant
                i <= self.user_forks@.len(),
                forall|j: int| 0 <= j < i ==> (#[trigger] self.user_forks@[j]).0@ != user_id@,
                self.wf(),
                self@ == old(self)@,
                old(self)@.forks.contains_key(fork_id@),
            decreases self.user_forks@.len() - i,
        {
            if str_eq(self.user_forks[i].0.as_str(), user_id.as_str()) {
                let ghost pre = self.user_forks@;
                let ghost e = (user_id@, fork_id@);
                proof {
                    lemma_bindings_map_update(pre, i as int, (user_id, fork_id));
                }
                self.user_forks[i] = (user_id, fork_id);
                proof {
                    assert forall|a: int, b: int| 0 <= a < b < self.user_forks@.len()
                        implies self.user_forks@[a].0@ != self.user_forks@[b].0@ by {
                        assert(pre[a].0@ != pre[b].0@);
                    }
                    assert forall|t: Seq<char>| #[trigger] self@.user_forks.contains_key(t)
                        implies self@.forks.contains_key(self@.user_forks[t]) by {
                        if t != e.0 {
                            assert(old(self)@.user_forks.contains_key(t));
                        }
                    }
                }
                return;
            }
            i = i + 1;
        }
        let ghost pre = self.user_forks@;
        let ghost e = (user_id@, fork_id@);
        proof {
            lemma_bindings_map_push(pre, (user_id, fork_id));
        }
        self.user_forks.push((user_id, fork_id));
        proof {
            assert forall|a: int, b: int| 0 <= a < b < self.user_forks@.len()
                implies self.user_forks@[a].0@ != self.user_forks@[b].0@ by {
                if b < pre.len() {
                    assert(pre[a].0@ != pre[b].0@);
                } else {
                    assert(self.user_forks@[a] == pre[a]);
                    assert(pre[a].0@ != e.0);
                }
            }
            assert forall|t: Seq<char>| #[trigger] self@.user_forks.contains_key(t)
                implies self@.forks.contains_key(self@.user_forks[t]) by {
                if t != e.0 {
                    assert(old(self)@.user_forks.contains_key(t));
                }
            }
        }
    }

    /// Drop every binding that names an absent fork, so that bindings and
    /// fork entries never disagree after a removal.
    fn retain_live_bindings(&mut self)
        requires
            unique_fork_ids(old(self).forks@),
            forall|i: int| 0 <= i < old(self).forks@.len()
                ==> (#[trigger] old(self).forks@[i]).wf(),
            unique_binding_users(old(self).user_forks@),
        ensures
            final(self).wf(),
            final(self)@.forks == old(self)@.forks,
            final(self)@.user_forks == spec_live_bindings(old(self)@.user_forks, old(self)@.forks),
    {
        let mut pending: Vec<(String, String)> = Vec::new();
        core::mem::swap(&mut pending, &mut self.user_forks);
        let orig_len: usize = pending.len();
        let ghost orig = pending@;
        let ghost forks0 = self@.forks;
        let mut k: usize = 0;
        while pending.len() > 0
            invariant
                k + pending@.len() == orig_len,
                orig.len() == orig_len,
                unique_fork_ids(self.forks@),
                forall|i: int| 0 <= i < self.forks@.len() ==> (#[trigger] self.forks@[i]).wf(),
                self@.forks == forks0,
                k + pending@.len() == orig.len(),
                pending@ =~= orig.subrange(k as int, orig.len() as int),
                unique_binding_users(orig),
                unique_binding_users(self.user_forks@),
                forall|j: int| 0 <= j < self.user_forks@.len()
                    ==> bindings_map(orig.subrange(0, k as int)).contains_key(
                        (#[trigger] self.user_forks@[j]).0@,
                    ),
                bindings_map(self.user_forks@)
                    == spec_live_bindings(bindings_map(orig.subrange(0, k as int)), forks0),
            decreases pending@.len(),
        {
            let ghost prefix = orig.subrange(0, k as int);
            proof {
                assert(pending@[0] == orig[k as int]);
                assert(orig.subrange(0, k as int + 1) =~= prefix.push(orig[k as int]));
                lemma_bindings_map_push(prefix, pending@[0]);
                lemma_bindings_map_domain(prefix);
                assert forall|a: int, b: int| 0 <= a < b < k + 1
                    implies orig[a].0@ != orig[b].0@ by {}
                assert(!bindings_map(prefix).contains_key(orig[k as int].0@)) by {
                    if bindings_map(prefix).contains_key(orig[k as int].0@) {
                        let j = choose|j: int| 0 <= j < prefix.len()
                            && prefix[j].0@ == orig[k as int].0@;
                        assert(orig[j].0@ == orig[k as int].0@);
                    }
                }
            }
            let entry = pending.remove(0);
            let keep = match self.find_fork_index(entry.1.as_str()) {
                Some(i) => {
                    proof {
                        lemma_fork_map_index(self.forks@, i as int);
                    }
                    true
                },
                None => {
                    proof {
                        lemma_fork_map_domain(self.forks@);
                    }
                    false
                },
            };
            if keep {
                let ghost pre = self.user_forks@;
                let ghost e = (entry.0@, entry.1@);
                proof {
                    lemma_bindings_map_push(pre, entry);
                }
                self.user_forks.push(entry);
                proof {
                    assert forall|a: int, b: int| 0 <= a < b < self.user_forks@.len()
                        implies self.user_forks@[a].0@ != self.user_forks@[b].0@ by {
                        if b < pre.len() {
                            assert(pre[a].0@ != pre[b].0@);
                        } else {
                            assert(self.user_forks@[a] == pre[a]);
                            lemma_bindings_map_domain(prefix);
                            assert(bindings_map(prefix).contains_key(pre[a].0@));
                            let j = choose|j: int| 0 <= j < prefix.len()
                                && prefix[j].0@ == pre[a].0@;
                            assert(orig[j].0@ == pre[a].0@);
                            assert(orig[j].0@ != orig[k as int].0@);
                        }
                    }
                    assert(bindings_map(self.user_forks@)
                        =~= spec_live_bindings(
                            bindings_map(orig.subrange(0, k as int + 1)),
                            forks0,
                        ));
                    assert forall|j: int| 0 <= j < self.user_forks@.len()
                        implies bindings_map(orig.subrange(0, k as int + 1)).contains_key(
                            (#[trigger] self.user_forks@[j]).0@,
                        ) by {
                        if j < pre.len() {
                            assert(bindings_map(prefix).contains_key(pre[j].0@));
                        }
                    }
                }
            } else {
                proof {
                    assert(bindings_map(self.user_forks@)
                        =~= spec_live_bindings(
                            bindings_map(orig.subrange(0, k as int + 1)),
                            forks0,
                        ));
                    assert forall|j: int| 0 <= j < self.user_forks@.len()
                        implies bindings_map(orig.subrange(0, k as int + 1)).contains_key(
                            (#[trigger] self.user_forks@[j]).0@,
                        ) by {
                        assert(bindings_map(prefix).contains_key(self.user_forks@[j].0@));
                    }
                }
            }
            k = k + 1;
        }
        proof {
            assert(orig.subrange(0, k as int) =~= orig);
            lemma_bindings_map_domain(self.user_forks@);
        }
    }

    /// Remove every fork whose age (`now - created_at`) exceeds the fixed
    /// lifetime, and with each removed fork every binding that names it;
    /// returns the number of forks removed. Sweeping again at the same
    /// instant removes nothing further.
    pub fn cleanup_expired_forks(&mut self, now: u64) -> (r: usize)
        requires
            old(self).wf(),
        ensures
            final(self).wf(),
            final(self)@.forks == spec_sweep_forks(old(self)@.forks, now),
            final(self)@.user_forks
                == spec_live_bindings(old(self)@.user_forks, final(self)@.forks),
            r == old(self)@.forks.dom().len() - final(self)@.forks.dom().len(),
    {
        let mut pending: Vec<Fork> = Vec::new();
        core::mem::swap(&mut pending, &mut self.forks);
        let orig_len: usize = pending.len();
        let ghost orig = pending@;
        let mut removed: usize = 0;
        let mut k: usize = 0;
        while pending.len() > 0
            invariant
                orig.len() == orig_len,
                unique_binding_users(self.user_forks@),
                self@.user_forks == old(self)@.user_forks,
                k + pending@.len() == orig.len(),
                pending@ =~= orig.subrange(k as int, orig.len() as int),
                unique_fork_ids(orig),
                forall|i: int| 0 <= i < orig.len() ==> (#[trigger] orig[i]).wf(),
                unique_fork_ids(self.forks@),
                forall|i: int| 0 <= i < self.forks@.len() ==> (#[trigger] self.forks@[i]).wf(),
                removed <= k,
                self.forks@.len() + removed == k,
                forall|j: int| 0 <= j < self.forks@.len()
                    ==> fork_map(orig.subrange(0, k as int)).contains_key(
                        (#[trigger] self.forks@[j])@.id,
                    ),
                fork_map(self.forks@)
                    == spec_sweep_forks(fork_map(orig.subrange(0, k as int)), now),
            decreases pending@.len(),
        {
            let ghost prefix = orig.subrange(0, k as int);
            proof {
                assert(pending@[0] == orig[k as int]);
                assert(orig.subrange(0, k as int + 1) =~= prefix.push(orig[k as int]));
                lemma_fork_map_push(prefix, orig[k as int]);
                lemma_fork_map_domain(prefix);
                assert(!fork_map(prefix).contains_key(orig[k as int]@.id)) by {
                    if fork_map(prefix).contains_key(orig[k as int]@.id) {
                        let j = choose|j: int| 0 <= j < prefix.len()
                            && prefix[j]@.id == orig[k as int]@.id;
                        assert(orig[j]@.id == orig[k as int]@.id);
                    }
                }
            }
            let f = pending.remove(0);
            if is_expired(f.created_at, now) {
                removed = removed + 1;
                proof {
                    assert(fork_map(self.forks@)
                        =~= spec_sweep_forks(fork_map(orig.subrange(0, k as int + 1)), now));
                    assert forall|j: int| 0 <= j < self.forks@.len()
                        implies fork_map(orig.subrange(0, k as int + 1)).contains_key(
                            (#[trigger] self.forks@[j])@.id,
                        ) by {
                        assert(fork_map(prefix).contains_key(self.forks@[j]@.id));
                    }
                }
            } else {
                let ghost pre = self.forks@;
                let ghost fv = f@;
                proof {
                    lemma_fork_map_push(pre, f);
                }
                self.forks.push(f);
                proof {
                    assert forall|a: int, b: int| 0 <= a < b < self.forks@.len()
                        implies self.forks@[a]@.id != self.forks@[b]@.id by {
                        if b < pre.len() {
                            assert(pre[a]@.id != pre[b]@.id);
                        } else {
                            assert(self.forks@[a] == pre[a]);
                            lemma_fork_map_domain(prefix);
                            assert(fork_map(prefix).contains_key(pre[a]@.id));
                            let j = choose|j: int| 0 <= j < prefix.len()
                                && prefix[j]@.id == pre[a]@.id;
                            assert(orig[j]@.id == pre[a]@.id);
                            assert(orig[j]@.id != orig[k as int]@.id);
                        }
                    }
                    assert forall|i: int| 0 <= i < self.forks@.len()
                        implies (#[trigger] self.forks@[i]).wf() by {
                        if i < pre.len() {
                            assert(pre[i].wf());
                        } else {
                            assert(orig[k as int].wf());
                        }
                    }
                    assert(fork_map(self.forks@)
                        =~= spec_sweep_forks(fork_map(orig.subrange(0, k as int + 1)), now));
                    assert forall|j: int| 0 <= j < self.forks@.len()
                        implies fork_map(orig.subrange(0, k as int + 1)).contains_key(
                            (#[trigger] self.forks@[j])@.id,
                        ) by {
                        if j < pre.len() {
                            assert(fork_map(prefix).contains_key(pre[j]@.id));
                        }
                    }
                }
            }
            k = k + 1;
        }
        proof {
            assert(orig.subrange(0, k as int) =~= orig);
        }
        proof {
            assert(old(self)@.forks == fork_map(orig));
            lemma_fork_map_len(orig);
            lemma_fork_map_len(self.forks@);
        }
        self.retain_live_bindings();
        proof {
            lemma_fork_map_len(self.forks@);
        }
        removed
    }

    /// Remove one fork by id, dropping with it every binding that names
    /// it; reports whether a fork was removed.
    pub fn delete_fork(&mut self, fork_id: &str) -> (r: bool)
        requires
            old(self).wf(),
        ensures
            final(self).wf(),
            r == old(self)@.forks.contains_key(fork_id@),
            final(self)@.forks == old(self)@.forks.remove(fork_id@),
            final(self)@.user_forks
                == spec_live_bindings(old(self)@.user_forks, final(self)@.forks),
    {
        proof {
            lemma_fork_map_domain(self.forks@);
        }
        match self.find_fork_index(fork_id) {
            Some(i) => {
                proof {
                    lemma_fork_map_index(self.forks@, i as int);
                    lemma_fork_map_remove(self.forks@, i as int);
                }
                let ghost pre = self.forks@;
                let _ = self.forks.remove(i);
                proof {
                    assert forall|a: int, b: int| 0 <= a < b < self.forks@.len()
                        implies self.forks@[a]@.id != self.forks@[b]@.id by {
                        if a < i as int {
                            if b < i as int {
                                assert(pre[a]@.id != pre[b]@.id);
                            } else {
                                assert(pre[a]@.id != pre[b + 1]@.id);
                            }
                        } else {
                            assert(pre[a + 1]@.id != pre[b + 1]@.id);
                        }
                    }
                    assert forall|j: int| 0 <= j < self.forks@.len()
                        implies (#[trigger] self.forks@[j]).wf() by {
                        if j < i as int {
                            assert(pre[j].wf());
                        } else {
                            assert(pre[j + 1].wf());
                        }
                    }
                }
                self.retain_live_bindings();
                true
            },
            None => {
                proof {
                    assert(old(self)@.forks.remove(fork_id@) =~= old(self)@.forks);
                    assert(spec_live_bindings(old(self)@.user_forks, old(self)@.forks)
                        =~= old(self)@.user_forks);
                }
                false
            },
        }
    }

    /// Create a fork for a user, or return the one a live binding already
    /// names; one atomic decision, so a reused fork is re-checked for
    /// liveness under the same exclusion that creates fresh ones.
    pub fn create_fork(&mut self, user_id: String, now: u64) -> (r: String)
        requires
            old(self).wf(),
        ensures
            final(self).wf(),
            spec_created(old(self)@, final(self)@, user_id@, now, r@),
    {
        let mut existing_live: Option<String> = None;
        match self.get_user_fork_id(user_id.as_str()) {
            Some(fid) => {
                let fid2 = fid.clone();
                match self.get_fork(fid2.as_str()) {
                    Some(f) => {
                        if !is_expired(f.created_at, now) {
                            existing_live = Some(fid2);
                        }
                    },
                    None => {},
                }
            },
            None => {},
        }
        match existing_live {
            Some(fid) => {
                proof {
                    assert(live_binding(self@, user_id@, now));
                }
                fid
            },
            None => {
                let id = self.allocate_fork_id(user_id.as_str(), now);
                let fork = Fork::new(id.clone(), now);
                self.upsert_fork(fork);
                self.upsert_binding(user_id, id.clone());
                id
            },
        }
    }

    /// As `create_fork`, but the fresh fork's origin metadata is stamped
    /// from a network snapshot the caller fetched beforehand (height and
    /// reference hash). If that fetch failed, nothing is created and no
    /// binding is made: the failure leaks no partial state.
    pub fn create_fork_with_mainnet_sync(
        &mut self,
        user_id: String,
        now: u64,
        sync: Result<(u64, String), String>,
    ) -> (r: Result<String, String>)
        requires
            old(self).wf(),
        ensures
            final(self).wf(),
            live_binding(old(self)@, user_id@, now) ==> {
                &&& final(self)@ == old(self)@
                &&& r is Ok
                &&& r.unwrap()@ == old(self)@.user_forks[user_id@]
            },
            !live_binding(old(self)@, user_id@, now) && sync is Err ==> {
                &&& final(self)@ == old(self)@
                &&& r is Err
                &&& r.unwrap_err()@ == sync.unwrap_err()@
            },
            !live_binding(old(self)@, user_id@, now) && sync is Ok ==> {
                let id = r.unwrap()@;
                let (slot, hash) = sync.unwrap();
                &&& r is Ok
                &&& !old(self)@.forks.contains_key(id)
                &&& spec_id_extends(spec_fresh_fork_id(user_id@, now), id)
                &&& final(self)@.forks == old(self)@.forks.insert(
                    id,
                    ForkView {
                        id,
                        state: Map::empty(),
                        created_at: now,
                        slot,
                        mainnet_slot: slot,
                        mainnet_blockhash: hash@,
                        transaction_count: 0,
                    },
                )
                &&& final(self)@.user_forks == old(self)@.user_forks.insert(user_id@, id)
            },
    {
        let mut existing_live: Option<String> = None;
        match self.get_user_fork_id(user_id.as_str()) {
            Some(fid) => {
                let fid2 = fid.clone();
                match self.get_fork(fid2.as_str()) {
                    Some(f) => {
                        if !is_expired(f.created_at, now) {
                            existing_live = Some(fid2);
                        }
                    },
                    None => {},
                }
            },
            None => {},
        }
        match existing_live {
            Some(fid) => {
                proof {
                    assert(live_binding(self@, user_id@, now));
                }
                Ok(fid)
            },
            None => {
                match sync {
                    Err(e) => Err(e),
                    Ok((mainnet_slot, mainnet_blockhash)) => {
                        let id = self.allocate_fork_id(user_id.as_str(), now);
                        let fork = Fork::new_with_mainnet_sync(
                            id.clone(),
                            now,
                            mainnet_slot,
                            mainnet_blockhash,
                        );
                        self.upsert_fork(fork);
                        self.upsert_binding(user_id, id.clone());
                        Ok(id)
                    },
                }
            },
        }
    }

    /// Set the balance at an address in the named fork to exactly
    /// `lamports`; unknown fork ids are rejected and change nothing.
    pub fn set_balance(&mut self, fork_id: &str, address: &Address, lamports: u64) -> (r: Result<
        (),
        ApiError,
    >)
        requires
            old(self).wf(),
        ensures
            final(self).wf(),
            old(self)@.forks.contains_key(fork_id@) ==> {
                &&& r is Ok
                &&& final(self)@.forks == old(self)@.forks.insert(
                    fork_id@,
                    ForkView {
                        state: spec_set_balance(
                            old(self)@.forks[fork_id@].state,
                            address@,
                            lamports,
                        ),
                        ..old(self)@.forks[fork_id@]
                    },
                )
                &&& final(self)@.user_forks == old(self)@.user_forks
            },
            !old(self)@.forks.contains_key(fork_id@) ==> {
                &&& r == Err::<(), ApiError>(ApiError::NotFound)
                &&& final(self)@ == old(self)@
            },
    {
        proof {
            lemma_fork_map_domain(self.forks@);
        }
        match self.find_fork_index(fork_id) {
            Some(i) => {
                let ghost pre = self.forks@;
                proof {
                    lemma_fork_map_index(pre, i as int);
                }
                let f = &mut self.forks[i];
                f.set_balance(address, lamports);
                proof {
                    assert forall|t: Seq<char>|
                        #[trigger] bindings_map(self.user_forks@).contains_key(t)
                        implies fork_map(pre).contains_key(
                            bindings_map(self.user_forks@)[t],
                        ) by {
                        assert(old(self)@.user_forks.contains_key(t));
                        assert(old(self)@.forks.contains_key(old(self)@.user_forks[t]));
                    }
                    self.lemma_after_fork_update(pre, i as int);
                }
                Ok(())
            },
            None => Err(ApiError::NotFound),
        }
    }

    /// Credit `delta` lamports at an address in the named fork; unknown
    /// fork ids and a credited balance beyond the 64-bit range are
    /// rejected and change nothing.
    pub fn add_balance(&mut self, fork_id: &str, address: &Address, lamports: u64) -> (r: Result<
        (),
        ApiError,
    >)
        requires
            old(self).wf(),
        ensures
            final(self).wf(),
            old(self)@.forks.contains_key(fork_id@)
                && Ledger::spec_balance(old(self)@.forks[fork_id@].state, address@) + lamports
                    <= u64::MAX ==> {
                &&& r is Ok
                &&& final(self)@.forks == old(self)@.forks.insert(
                    fork_id@,
                    ForkView {
                        state: spec_add_balance(
                            old(self)@.forks[fork_id@].state,
                            address@,
                            lamports,
                        ),
                        ..old(self)@.forks[fork_id@]
                    },
                )
                &&& final(self)@.user_forks == old(self)@.user_forks
            },
            old(self)@.forks.contains_key(fork_id@)
                && Ledger::spec_balance(old(self)@.forks[fork_id@].state, address@) + lamports
                    > u64::MAX ==> {
                &&& r == Err::<(), ApiError>(ApiError::Internal)
                &&& final(self)@ == old(self)@
            },
            !old(self)@.forks.contains_key(fork_id@) ==> {
                &&& r == Err::<(), ApiError>(ApiError::NotFound)
                &&& final(self)@ == old(self)@
            },
    {
        proof {
            lemma_fork_map_domain(self.forks@);
        }
        match self.find_fork_index(fork_id) {
            Some(i) => {
                let ghost pre = self.forks@;
                proof {
                    lemma_fork_map_index(pre, i as int);
                }
                let f = &mut self.forks[i];
                let outcome = f.add_balance(address, lamports);
                proof {
                    assert forall|t: Seq<char>|
                        #[trigger] bindings_map(self.user_forks@).contains_key(t)
                        implies fork_map(pre).contains_key(
                            bindings_map(self.user_forks@)[t],
                        ) by {
                        assert(old(self)@.user_forks.contains_key(t));
                        assert(old(self)@.forks.contains_key(old(self)@.user_forks[t]));
                    }
                    self.lemma_after_fork_update(pre, i as int);
                }
                match outcome {
                    Ok(()) => Ok(()),
                    Err(_) => {
                        proof {
                            assert(self@.forks =~= old(self)@.forks);
                        }
                        Err(ApiError::Internal)
                    },
                }
            },
            None => Err(ApiError::NotFound),
        }
    }

    /// Record one submitted transaction against the named fork: install the
    /// engine's account updates and advance both counters by exactly one,
    /// whatever the engine's verdict was.
    pub fn send_transaction(
        &mut self,
        fork_id: &str,
        signature: String,
        outcome: EngineOutcome,
    ) -> (r: Result<TransactionResult, ApiError>)
        requires
            old(self).wf(),
            spec_updates_wf(outcome.updates@),
            old(self)@.forks.contains_key(fork_id@) ==> {
                &&& old(self)@.forks[fork_id@].transaction_count < u64::MAX
                &&& old(self)@.forks[fork_id@].slot < u64::MAX
            },
        ensures
            final(self).wf(),
            old(self)@.forks.contains_key(fork_id@) ==> {
                &&& r is Ok
                &&& submit_transition(old(self)@.forks[fork_id@], final(self)@.forks[fork_id@])
                &&& final(self)@.forks[fork_id@].state == spec_install_all(
                    old(self)@.forks[fork_id@].state,
                    outcome.updates@,
                )
                &&& final(self)@.forks == old(self)@.forks.insert(
                    fork_id@,
                    final(self)@.forks[fork_id@],
                )
                &&& final(self)@.user_forks == old(self)@.user_forks
                &&& r.unwrap().success == outcome.success
                &&& r.unwrap().signature@ == signature@
                &&& r.unwrap().error == outcome.error
            },
            !old(self)@.forks.contains_key(fork_id@) ==> {
                &&& r == Err::<TransactionResult, ApiError>(ApiError::NotFound)
                &&& final(self)@ == old(self)@
            },
    {
        proof {
            lemma_fork_map_domain(self.forks@);
        }
        match self.find_fork_index(fork_id) {
            Some(i) => {
                let ghost pre = self.forks@;
                proof {
                    lemma_fork_map_index(pre, i as int);
                }
                let f = &mut self.forks[i];
                let result = f.send_transaction(signature, outcome);
                proof {
                    assert forall|t: Seq<char>|
                        #[trigger] bindings_map(self.user_forks@).contains_key(t)
                        implies fork_map(pre).contains_key(
                            bindings_map(self.user_forks@)[t],
                        ) by {
                        assert(old(self)@.user_forks.contains_key(t));
                        assert(old(self)@.forks.contains_key(old(self)@.user_forks[t]));
                    }
                    self.lemma_after_fork_update(pre, i as int);
                    lemma_fork_map_index(self.forks@, i as int);
                }
                Ok(result)
            },
            None => Err(ApiError::NotFound),
        }
    }

    /// Install a batch of fetched account records into the named fork,
    /// replacing prior records at their addresses; the hydration path's
    /// short, fast install step.
    pub fn install_accounts(&mut self, fork_id: &str, records: Vec<(Address, AccountRec)>) -> (r:
        Result<usize, ApiError>)
        requires
            old(self).wf(),
            spec_updates_wf(records@),
        ensures
            final(self).wf(),
            old(self)@.forks.contains_key(fork_id@) ==> {
                &&& r == Ok::<usize, ApiError>(records@.len() as usize)
                &&& final(self)@.forks == old(self)@.forks.insert(
                    fork_id@,
                    ForkView {
                        state: spec_install_all(old(self)@.forks[fork_id@].state, records@),
                        ..old(self)@.forks[fork_id@]
                    },
                )
                &&& final(self)@.user_forks == old(self)@.user_forks
            },
            !old(self)@.forks.contains_key(fork_id@) ==> {
                &&& r == Err::<usize, ApiError>(ApiError::NotFound)
                &&& final(self)@ == old(self)@
            },
    {
        proof {
            lemma_fork_map_domain(self.forks@);
        }
        let n = records.len();
        match self.find_fork_index(fork_id) {
            Some(i) => {
                let ghost pre = self.forks@;
                proof {
                    lemma_fork_map_index(pre, i as int);
                }
                let ghost all = records@;
                let mut records = records;
                let f = &mut self.forks[i];
                let ghost fv0 = f@;
                let mut k: usize = 0;
                while k < records.len()
                    invariant
                        k <= all.len(),
                        records@ == all,
                        spec_updates_wf(all),
                        f.wf(),
                        f@ == (ForkView {
                            state: spec_install_all(fv0.state, all.subrange(0, k as int)),
                            ..fv0
                        }),
                    decreases all.len() - k,
                {
                    let entry = &records[k];
                    let addr = entry.0.clone_addr();
                    let rec = entry.1.clone_rec();
                    proof {
                        assert(all.subrange(0, k as int + 1).drop_last()
                            =~= all.subrange(0, k as int));
                        assert(all.subrange(0, k as int + 1).last() == all[k as int]);
                    }
                    f.install_account(addr, rec);
                    k = k + 1;
                }
                proof {
                    assert(all.subrange(0, all.len() as int) =~= all);
                    assert forall|t: Seq<char>|
                        #[trigger] bindings_map(self.user_forks@).contains_key(t)
                        implies fork_map(pre).contains_key(
                            bindings_map(self.user_forks@)[t],
                        ) by {
                        assert(old(self)@.user_forks.contains_key(t));
                        assert(old(self)@.forks.contains_key(old(self)@.user_forks[t]));
                    }
                    self.lemma_after_fork_update(pre, i as int);
                }
                Ok(n)
            },
            None => Err(ApiError::NotFound),
        }
    }

    /// After replacing the fork at index `i` by one with the same id and
    /// well-formed state, the registry is well formed again and its fork
    /// map is the old map with that id updated.
    proof fn lemma_after_fork_update(&self, pre: Seq<Fork>, i: int)
        requires
            unique_fork_ids(pre),
            forall|j: int| 0 <= j < pre.len() ==> (#[trigger] pre[j]).wf(),
            unique_binding_users(self.user_forks@),
            forall|t: Seq<char>| #[trigger] bindings_map(self.user_forks@).contains_key(t)
                ==> fork_map(pre).contains_key(bindings_map(self.user_forks@)[t]),
            0 <= i < pre.len(),
            self.forks@ == pre.update(i, self.forks@[i]),
            self.forks@[i]@.id == pre[i]@.id,
            self.forks@[i].wf(),
        ensures
            self.wf(),
            self@.forks == fork_map(pre).insert(pre[i]@.id, self.forks@[i]@),
    {
        let post = self.forks@;
        lemma_fork_map_update(pre, i, post[i]);
        assert forall|a: int, b: int| 0 <= a < b < post.len()
            implies post[a]@.id != post[b]@.id by {
            assert(pre[a]@.id != pre[b]@.id);
        }
        assert forall|j: int| 0 <= j < post.len() implies (#[trigger] post[j]).wf() by {
            if j != i {
                assert(pre[j].wf());
            }
        }
        assert forall|t: Seq<char>| #[trigger] self@.user_forks.contains_key(t)
            implies self@.forks.contains_key(self@.user_forks[t]) by {
            assert(fork_map(pre).contains_key(bindings_map(self.user_forks@)[t]));
        }
    }
}

} // verus!
