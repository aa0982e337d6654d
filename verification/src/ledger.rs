use vstd::prelude::*;

use crate::account::{Address, AccountRec, AccountView, clone_bytes};

verus! {

/// Map view of an entry sequence: later entries win, so with unique keys the
/// order of the entries is irrelevant.
pub open spec fn entries_map(s: Seq<(Address, AccountRec)>) -> Map<Seq<u8>, AccountView>
    decreases s.len(),
{
    if s.len() == 0 {
        Map::empty()
    } else {
        entries_map(s.drop_last()).insert(s.last().0@, s.last().1@)
    }
}

/// Keys of distinct entries are distinct.
pub open spec fn unique_keys(s: Seq<(Address, AccountRec)>) -> bool {
    forall|i: int, j: int| 0 <= i < j < s.len() ==> s[i].0@ != s[j].0@
}

/// The map of an entry sequence contains exactly the keys of its entries.
pub proof fn lemma_entries_map_domain(s: Seq<(Address, AccountRec)>)
    ensures
        forall|k: Seq<u8>| #[trigger] entries_map(s).contains_key(k)
            <==> exists|i: int| 0 <= i < s.len() && s[i].0@ == k,
    decreases s.len(),
{
    if s.len() > 0 {
        let sub = s.drop_last();
        lemma_entries_map_domain(sub);
        assert forall|k: Seq<u8>| #[trigger] entries_map(s).contains_key(k)
            implies exists|i: int| 0 <= i < s.len() && s[i].0@ == k by {
            if k == s.last().0@ {
                assert(s[s.len() - 1].0@ == k);
            } else {
                assert(entries_map(sub).contains_key(k));
                let i = choose|i: int| 0 <= i < sub.len() && sub[i].0@ == k;
                assert(sub[i] == s[i]);
                assert(s[i].0@ == k);
            }
        }
        assert forall|k: Seq<u8>| (exists|i: int| 0 <= i < s.len() && s[i].0@ == k)
            implies #[trigger] entries_map(s).contains_key(k) by {
            let i = choose|i: int| 0 <= i < s.len() && s[i].0@ == k;
            if i < s.len() - 1 {
                assert(sub[i] == s[i]);
                assert(sub[i].0@ == k);
                assert(entries_map(sub).contains_key(k));
            }
        }
    }
}

/// With unique keys, the entry at any index gives the map's value at its key.
pub proof fn lemma_entries_map_index(s: Seq<(Address, AccountRec)>, i: int)
    requires
        unique_keys(s),
        0 <= i < s.len(),
    ensures
        entries_map(s).contains_key(s[i].0@),
        entries_map(s)[s[i].0@] == s[i].1@,
    decreases s.len(),
{
    lemma_entries_map_domain(s);
    if i == s.len() - 1 {
    } else {
        lemma_entries_map_index(s.drop_last(), i);
        assert(s[i].0@ != s.last().0@);
    }
}

/// Appending an entry inserts its key.
pub proof fn lemma_entries_map_push(s: Seq<(Address, AccountRec)>, e: (Address, AccountRec))
    ensures
        entries_map(s.push(e)) == entries_map(s).insert(e.0@, e.1@),
{
    assert(s.push(e).drop_last() =~= s);
    assert(s.push(e).last() == e);
}

/// Updating the entry at an index, keeping its key, updates the map at that key.
pub proof fn lemma_entries_map_update(s: Seq<(Address, AccountRec)>, i: int, e: (Address, AccountRec))
    requires
        unique_keys(s),
        0 <= i < s.len(),
        e.0@ == s[i].0@,
    ensures
        entries_map(s.update(i, e)) =~= entries_map(s).insert(e.0@, e.1@),
    decreases s.len(),
{
    let t = s.update(i, e);
    if i == s.len() - 1 {
        assert(t.drop_last() =~= s.drop_last());
    } else {
        assert(t.drop_last() =~= s.drop_last().update(i, e));
        lemma_entries_map_update(s.drop_last(), i, e);
        assert(s.last().0@ != s[i].0@);
        assert(entries_map(t) =~= entries_map(s).insert(e.0@, e.1@));
    }
}

/// The ledger state of one sandbox: a mapping from address to account
/// record with unique keys, owned exclusively by its sandbox.
pub struct Ledger {
    pub entries: Vec<(Address, AccountRec)>,
}

impl View for Ledger {
    type V = Map<Seq<u8>, AccountView>;

    open spec fn view(&self) -> Map<Seq<u8>, AccountView> {
        entries_map(self.entries@)
    }
}

impl Ledger {
    /// Entries hold pairwise distinct addresses, and every stored record
    /// carries a full 32-byte owning-program key.
    pub open spec fn wf(&self) -> bool {
        &&& unique_keys(self.entries@)
        &&& forall|k: Seq<u8>| #[trigger] self@.contains_key(k) ==> self@[k].owner.len() == 32
    }

    /// The empty ledger.
    pub fn new() -> (r: Ledger)
        ensures
            r.wf(),
            r@ == Map::<Seq<u8>, AccountView>::empty(),
    {
        Ledger { entries: Vec::new() }
    }

    /// Index of the entry holding the given address, if any.
    fn find(&self, address: &Address) -> (r: Option<usize>)
        ensures
            match r {
                Some(i) => i < self.entries@.len() && self.entries@[i as int].0@ == address@,
                None => forall|i: int| 0 <= i < self.entries@.len()
                    ==> self.entries@[i].0@ != address@,
            },
    {
        let mut i: usize = 0;
        while i < self.entries.len()
            invariant
                i <= self.entries@.len(),
                forall|j: int| 0 <= j < i ==> self.entries@[j].0@ != address@,
            decreases self.entries@.len() - i,
        {
            if self.entries[i].0.eq_addr(address) {
                return Some(i);
            }
            i = i + 1;
        }
        None
    }

    /// Look an account up; absent addresses yield `None`.
    pub fn get(&self, address: &Address) -> (r: Option<&AccountRec>)
        requires
            self.wf(),
        ensures
            match r {
                Some(rec) => self@.contains_key(address@) && rec@ == self@[address@],
                None => !self@.contains_key(address@),
            },
    {
        proof {
            lemma_entries_map_domain(self.entries@);
        }
        match self.find(address) {
            Some(i) => {
                proof {
                    lemma_entries_map_index(self.entries@, i as int);
                }
                Some(&self.entries[i].1)
            },
            None => None,
        }
    }

    /// Install an account record at an address, replacing any prior record.
    pub fn upsert(&mut self, address: Address, rec: AccountRec)
        requires
            old(self).wf(),
            rec.owner@.len() == 32,
        ensures
            final(self).wf(),
            final(self)@ == old(self)@.insert(address@, rec@),
    {
        let ghost recv = rec@;
        let ghost addrv = address@;
        proof {
            lemma_entries_map_domain(self.entries@);
        }
        match self.find(&address) {
            Some(i) => {
                proof {
                    lemma_entries_map_update(self.entries@, i as int, (address, rec));
                }
                self.entries[i] = (address, rec);
            },
            None => {
                proof {
                    lemma_entries_map_push(self.entries@, (address, rec));
                }
                self.entries.push((address, rec));
            },
        }
        proof {
            assert forall|k: Seq<u8>| #[trigger] self@.contains_key(k)
                implies self@[k].owner.len() == 32 by {
                if k != addrv {
                    assert(old(self)@.contains_key(k));
                }
            }
        }
    }

    /// The balance at an address: absent addresses yield 0, never an error.
    pub open spec fn spec_balance(m: Map<Seq<u8>, AccountView>, address: Seq<u8>) -> u64 {
        if m.contains_key(address) {
            m[address].lamports
        } else {
            0
        }
    }

    /// Read the balance at an address.
    pub fn balance(&self, address: &Address) -> (r: u64)
        requires
            self.wf(),
        ensures
            r == Self::spec_balance(self@, address@),
    {
        match self.get(address) {
            Some(rec) => rec.lamports,
            None => 0,
        }
    }

    /// Look an account up, returning an owned copy.
    pub fn get_copy(&self, address: &Address) -> (r: Option<AccountRec>)
        requires
            self.wf(),
        ensures
            match r {
                Some(rec) => self@.contains_key(address@) && rec@ == self@[address@],
                None => !self@.contains_key(address@),
            },
    {
        match self.get(address) {
            Some(rec) => Some(AccountRec {
                lamports: rec.lamports,
                owner: clone_bytes(&rec.owner),
                executable: rec.executable,
                rent_epoch: rec.rent_epoch,
                data: clone_bytes(&rec.data),
            }),
            None => None,
        }
    }
}

} // verus!
