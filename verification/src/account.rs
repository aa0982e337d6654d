use vstd::prelude::*;

verus! {

/// Mathematical model of one ledger account record.
pub ghost struct AccountView {
    pub lamports: u64,
    pub owner: Seq<u8>,
    pub executable: bool,
    pub rent_epoch: u64,
    pub data: Seq<u8>,
}

/// One ledger account record: balance, owning program, executable flag,
/// rent metadata and the raw data payload.
pub struct AccountRec {
    pub lamports: u64,
    pub owner: Vec<u8>,
    pub executable: bool,
    pub rent_epoch: u64,
    pub data: Vec<u8>,
}

impl View for AccountRec {
    type V = AccountView;

    open spec fn view(&self) -> AccountView {
        AccountView {
            lamports: self.lamports,
            owner: self.owner@,
            executable: self.executable,
            rent_epoch: self.rent_epoch,
            data: self.data@,
        }
    }
}

/// The zero-value account: system-owned, non-executable, empty payload.
pub open spec fn spec_default_account() -> AccountView {
    AccountView {
        lamports: 0,
        owner: Seq::new(32, |i: int| 0u8),
        executable: false,
        rent_epoch: 0,
        data: Seq::empty(),
    }
}

impl AccountRec {
    /// Build the zero-value account record (the system program owns it:
    /// its address is the all-zero 32-byte key).
    pub fn default_account() -> (r: AccountRec)
        ensures
            r@ == spec_default_account(),
    {
        let mut owner: Vec<u8> = Vec::new();
        let mut i: usize = 0;
        while i < 32
            invariant
                i <= 32,
                owner@.len() == i,
                forall|j: int| 0 <= j < i ==> owner@[j] == 0u8,
            decreases 32 - i,
        {
            owner.push(0u8);
            i = i + 1;
        }
        let r = AccountRec { lamports: 0, owner, executable: false, rent_epoch: 0, data: Vec::new() };
        proof {
            assert(r@.owner =~= spec_default_account().owner);
            assert(r@.data =~= spec_default_account().data);
            assert(r@ =~= spec_default_account());
        }
        r
    }

    /// Field-for-field copy of this record.
    pub fn clone_rec(&self) -> (r: AccountRec)
        ensures
            r@ == self@,
    {
        AccountRec {
            lamports: self.lamports,
            owner: clone_bytes(&self.owner),
            executable: self.executable,
            rent_epoch: self.rent_epoch,
            data: clone_bytes(&self.data),
        }
    }

    /// Copy of this record with the balance replaced and every other
    /// field preserved.
    pub fn with_lamports(&self, lamports: u64) -> (r: AccountRec)
        ensures
            r@ == (AccountView { lamports, ..self@ }),
    {
        AccountRec {
            lamports,
            owner: clone_bytes(&self.owner),
            executable: self.executable,
            rent_epoch: self.rent_epoch,
            data: clone_bytes(&self.data),
        }
    }
}

/// Byte-for-byte copy of a byte vector.
pub fn clone_bytes(v: &Vec<u8>) -> (r: Vec<u8>)
    ensures
        r@ == v@,
{
    let mut r: Vec<u8> = Vec::new();
    let mut i: usize = 0;
    while i < v.len()
        invariant
            i <= v@.len(),
            r@ == v@.subrange(0, i as int),
        decreases v@.len() - i,
    {
        r.push(v[i]);
        i = i + 1;
        proof {
            assert(r@ =~= v@.subrange(0, i as int));
        }
    }
    proof {
        assert(r@ =~= v@);
    }
    r
}

/// Compare two byte strings for equality.
pub fn bytes_eq(a: &[u8], b: &[u8]) -> (r: bool)
    ensures
        r == (a@ == b@),
{
    if a.len() != b.len() {
        proof {
            assert(a@.len() != b@.len());
        }
        return false;
    }
    let mut i: usize = 0;
    while i < a.len()
        invariant
            i <= a@.len(),
            a@.len() == b@.len(),
            forall|j: int| 0 <= j < i ==> a@[j] == b@[j],
        decreases a@.len() - i,
    {
        if a[i] != b[i] {
            return false;
        }
        i = i + 1;
    }
    proof {
        assert(a@ =~= b@);
    }
    true
}

/// A ledger address: exactly 32 raw key bytes.
pub struct Address {
    pub bytes: Vec<u8>,
}

impl View for Address {
    type V = Seq<u8>;

    open spec fn view(&self) -> Seq<u8> {
        self.bytes@
    }
}

impl Address {
    /// Well-formed addresses hold exactly 32 bytes.
    pub open spec fn wf(&self) -> bool {
        self@.len() == 32
    }

    /// Build an address from raw bytes; rejects anything but 32 bytes.
    pub fn from_bytes(bytes: Vec<u8>) -> (r: Option<Address>)
        ensures
            match r {
                Some(a) => a.wf() && a@ == bytes@ && bytes@.len() == 32,
                None => bytes@.len() != 32,
            },
    {
        if bytes.len() == 32 {
            Some(Address { bytes })
        } else {
            None
        }
    }

    /// Byte-for-byte copy of this address.
    pub fn clone_addr(&self) -> (r: Address)
        ensures
            r@ == self@,
            self.wf() ==> r.wf(),
    {
        Address { bytes: clone_bytes(&self.bytes) }
    }

    /// Compare two addresses for equality of their key bytes.
    pub fn eq_addr(&self, other: &Address) -> (r: bool)
        ensures
            r == (self@ == other@),
    {
        bytes_eq(self.bytes.as_slice(), other.bytes.as_slice())
    }
}

} // verus!
