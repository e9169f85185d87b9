use crate::address::Address;
use crate::constants::ACCOUNT_STORAGE_OVERHEAD;
use crate::error::TransitionError;
use crate::model::{allocate, credit, debit, minimum_balance, transfer, LedgerModel};
use crate::state::{Account, AccountView, Button, Record};
use vstd::prelude::*;

verus! {

/// Whether no two accounts of `s` share an address.
pub open spec fn unique_addresses(s: Seq<Account>) -> bool {
    forall|i: int, j: int|
        0 <= i < s.len() && 0 <= j < s.len() && i != j ==> s[i].address@ != s[j].address@
}

/// The accounts of `s`, keyed by address.
pub open spec fn accounts_map(s: Seq<Account>) -> Map<Seq<u8>, AccountView> {
    Map::new(
        |k: Seq<u8>| exists|i: int| 0 <= i < s.len() && s[i].address@ == k,
        |k: Seq<u8>| s[choose|i: int| 0 <= i < s.len() && s[i].address@ == k]@,
    )
}

proof fn lemma_map_at(s: Seq<Account>, i: int)
    requires
        unique_addresses(s),
        0 <= i < s.len(),
    ensures
        accounts_map(s).contains_key(s[i].address@),
        accounts_map(s)[s[i].address@] == s[i]@,
{
    let k = s[i].address@;
    assert(0 <= i < s.len() && s[i].address@ == k);
    let j = choose|j: int| 0 <= j < s.len() && s[j].address@ == k;
    assert(j == i);
}

proof fn lemma_map_update(s: Seq<Account>, i: int, a: Account)
    requires
        unique_addresses(s),
        0 <= i < s.len(),
        a.address@ == s[i].address@,
    ensures
        unique_addresses(s.update(i, a)),
        accounts_map(s.update(i, a)) == accounts_map(s).insert(a.address@, a@),
{
    let t = s.update(i, a);
    let ins = accounts_map(s).insert(a.address@, a@);
    assert(unique_addresses(t));
    assert forall|k: Seq<u8>| #[trigger] accounts_map(t).contains_key(k) == ins.contains_key(k) by {
        if accounts_map(s).contains_key(k) {
            let j = choose|j: int| 0 <= j < s.len() && s[j].address@ == k;
            assert(t[j].address@ == k);
        }
        if accounts_map(t).contains_key(k) {
            let j = choose|j: int| 0 <= j < t.len() && t[j].address@ == k;
            assert(s[j].address@ == k);
        }
        if k == a.address@ {
            assert(t[i].address@ == k);
        }
    }
    assert forall|k: Seq<u8>| #[trigger] accounts_map(t).contains_key(k) implies accounts_map(t)[k]
        == ins[k] by {
        let j = choose|j: int| 0 <= j < t.len() && t[j].address@ == k;
        lemma_map_at(t, j);
        if j != i {
            lemma_map_at(s, j);
        }
    }
    assert(accounts_map(t) =~= ins);
}

proof fn lemma_map_push(s: Seq<Account>, a: Account)
    requires
        unique_addresses(s),
        !accounts_map(s).contains_key(a.address@),
    ensures
        unique_addresses(s.push(a)),
        accounts_map(s.push(a)) == accounts_map(s).insert(a.address@, a@),
{
    let t = s.push(a);
    let ins = accounts_map(s).insert(a.address@, a@);
    assert forall|i: int| 0 <= i < s.len() implies s[i].address@ != a.address@ by {
        if s[i].address@ == a.address@ {
            lemma_map_at(s, i);
        }
    }
    assert(unique_addresses(t));
    assert forall|k: Seq<u8>| #[trigger] accounts_map(t).contains_key(k) == ins.contains_key(k) by {
        if accounts_map(s).contains_key(k) {
            let j = choose|j: int| 0 <= j < s.len() && s[j].address@ == k;
            assert(t[j].address@ == k);
        }
        if accounts_map(t).contains_key(k) {
            let j = choose|j: int| 0 <= j < t.len() && t[j].address@ == k;
            if j < s.len() {
                assert(s[j].address@ == k);
            }
        }
        if k == a.address@ {
            assert(t[s.len() as int].address@ == k);
        }
    }
    assert forall|k: Seq<u8>| #[trigger] accounts_map(t).contains_key(k) implies accounts_map(t)[k]
        == ins[k] by {
        let j = choose|j: int| 0 <= j < t.len() && t[j].address@ == k;
        lemma_map_at(t, j);
        if j < s.len() {
            lemma_map_at(s, j);
        }
    }
    assert(accounts_map(t) =~= ins);
}

proof fn lemma_map_same(s: Seq<Account>, t: Seq<Account>)
    requires
        unique_addresses(s),
        s.len() == t.len(),
        forall|i: int| 0 <= i < s.len() ==> s[i].address@ == t[i].address@ && s[i]@ == t[i]@,
    ensures
        unique_addresses(t),
        accounts_map(t) == accounts_map(s),
{
    assert(unique_addresses(t));
    assert forall|k: Seq<u8>| #[trigger] accounts_map(t).contains_key(k) == accounts_map(
        s,
    ).contains_key(k) by {
        if accounts_map(s).contains_key(k) {
            let j = choose|j: int| 0 <= j < s.len() && s[j].address@ == k;
            assert(t[j].address@ == k);
        }
        if accounts_map(t).contains_key(k) {
            let j = choose|j: int| 0 <= j < t.len() && t[j].address@ == k;
            assert(s[j].address@ == k);
        }
    }
    assert forall|k: Seq<u8>| #[trigger] accounts_map(t).contains_key(k) implies accounts_map(t)[k]
        == accounts_map(s)[k] by {
        let j = choose|j: int| 0 <= j < t.len() && t[j].address@ == k;
        lemma_map_at(t, j);
        lemma_map_at(s, j);
    }
    assert(accounts_map(t) =~= accounts_map(s));
}

/// The accounts that the program's transitions read and write, each stored
/// at its own address.
pub struct Ledger {
    program_id: Address,
    rent_per_byte: u64,
    accounts: Vec<Account>,
}

impl View for Ledger {
    type V = LedgerModel;

    closed spec fn view(&self) -> LedgerModel {
        LedgerModel {
            program_id: self.program_id@,
            rent_per_byte: self.rent_per_byte,
            accounts: accounts_map(self.accounts@),
        }
    }
}

impl Ledger {
    /// No two stored accounts share an address.
    pub closed spec fn wf(&self) -> bool {
        unique_addresses(self.accounts@)
    }

    /// An empty ledger of the program `program_id`, whose accounts must hold
    /// `rent_per_byte` base units for each byte they take.
    pub fn new(program_id: Address, rent_per_byte: u64) -> (r: Ledger)
        ensures
            r.wf(),
            r@.program_id == program_id@,
            r@.rent_per_byte == rent_per_byte,
            r@.accounts == Map::<Seq<u8>, AccountView>::empty(),
    {
        let r = Ledger { program_id, rent_per_byte, accounts: Vec::new() };
        assert(accounts_map(r.accounts@) =~= Map::<Seq<u8>, AccountView>::empty());
        r
    }

    /// The id of the program whose records the ledger holds.
    pub fn program_id(&self) -> (r: Address)
        ensures
            r@ == self@.program_id,
    {
        self.program_id
    }

    /// The base units that an account must hold for each byte it takes.
    pub fn rent_per_byte(&self) -> (r: u64)
        ensures
            r == self@.rent_per_byte,
    {
        self.rent_per_byte
    }

    /// Replaces the record stored at `a`, keeping its balance.
    pub fn set_record(&mut self, a: &Address, record: Record)
        requires
            old(self).wf(),
            old(self)@.accounts.contains_key(a@),
        ensures
            final(self).wf(),
            final(self)@ == old(self)@.with_account(
                a@,
                AccountView { lamports: old(self)@.accounts[a@].lamports, record: record@ },
            ),
    {
        let i = self.find(a).unwrap();
        let lamports = self.accounts[i].lamports;
        self.set_account(i, Account { address: *a, lamports, record });
    }

    /// The position of the account stored at `a`, if any.
    fn find(&self, a: &Address) -> (r: Option<usize>)
        requires
            self.wf(),
        ensures
            match r {
                None => !self@.accounts.contains_key(a@),
                Some(i) => {
                    &&& i < self.accounts.len()
                    &&& self.accounts@[i as int].address@ == a@
                    &&& self@.accounts.contains_key(a@)
                    &&& self@.accounts[a@] == self.accounts@[i as int]@
                },
            },
    {
        let mut i: usize = 0;
        while i < self.accounts.len()
            invariant
                self.wf(),
                i <= self.accounts.len(),
                forall|j: int| 0 <= j < i ==> self.accounts@[j].address@ != a@,
            decreases self.accounts.len() - i,
        {
            if self.accounts[i].address.equals(a) {
                proof {
                    lemma_map_at(self.accounts@, i as int);
                }
                return Some(i);
            }
            i = i + 1;
        }
        None
    }

    /// The balance stored at `a`: zero where no account is stored.
    pub fn balance(&self, a: &Address) -> (r: u64)
        requires
            self.wf(),
        ensures
            r == self@.balance(a@),
    {
        match self.find(a) {
            Some(i) => self.accounts[i].lamports,
            None => 0,
        }
    }

    /// Whether an account is stored at `a`.
    pub fn is_allocated(&self, a: &Address) -> (r: bool)
        requires
            self.wf(),
        ensures
            r == self@.accounts.contains_key(a@),
    {
        self.find(a).is_some()
    }

    /// Whether a Like marker is stored at `a`.
    pub fn holds_like(&self, a: &Address) -> (r: bool)
        requires
            self.wf(),
        ensures
            r == self@.holds_like(a@),
    {
        match self.find(a) {
            Some(i) => match &self.accounts[i].record {
                Record::Like => true,
                _ => false,
            },
            None => false,
        }
    }

    /// A copy of the Button record stored at `a`, if one is.
    pub fn button(&self, a: &Address) -> (r: Option<Button>)
        requires
            self.wf(),
        ensures
            match r {
                None => !self@.holds_button(a@),
                Some(b) => self@.holds_button(a@) && b@ == self@.button_at(a@),
            },
    {
        match self.find(a) {
            Some(i) => match &self.accounts[i].record {
                Record::Button(b) => Some(b.duplicate()),
                _ => None,
            },
            None => None,
        }
    }

    /// Replaces the account at position `i` by one with the same address.
    fn set_account(&mut self, i: usize, a: Account)
        requires
            old(self).wf(),
            i < old(self).accounts.len(),
            a.address@ == old(self).accounts@[i as int].address@,
        ensures
            final(self).wf(),
            final(self).accounts.len() == old(self).accounts.len(),
            final(self)@ == old(self)@.with_account(a.address@, a@),
    {
        proof {
            lemma_map_update(self.accounts@, i as int, a);
        }
        self.accounts.set(i, a);
    }

    /// Stores an account at an address where none is stored.
    fn push_account(&mut self, a: Account)
        requires
            old(self).wf(),
            !old(self)@.accounts.contains_key(a.address@),
        ensures
            final(self).wf(),
            final(self)@ == old(self)@.with_account(a.address@, a@),
    {
        proof {
            lemma_map_push(self.accounts@, a);
        }
        self.accounts.push(a);
    }

    /// Takes `amount` from the plain account at `from`; on failure the
    /// ledger is unchanged.
    pub fn debit(&mut self, from: &Address, amount: u64) -> (r: Result<(), TransitionError>)
        requires
            old(self).wf(),
        ensures
            final(self).wf(),
            match debit(old(self)@, from@, amount) {
                Ok(m) => r is Ok && final(self)@ == m,
                Err(e) => r == Err::<(), TransitionError>(e) && final(self)@ == old(self)@,
            },
    {
        match self.find(from) {
            None => Err(TransitionError::InsufficientLamports),
            Some(i) => {
                let lamports = self.accounts[i].lamports;
                match &self.accounts[i].record {
                    Record::Wallet => {},
                    _ => {
                        return Err(TransitionError::NotSystemAccount);
                    },
                }
                if lamports < amount {
                    return Err(TransitionError::InsufficientLamports);
                }
                let a = Account { address: *from, lamports: lamports - amount, record: Record::Wallet };
                self.set_account(i, a);
                Ok(())
            },
        }
    }

    /// Adds `amount` to the account at `to`, opening a plain account there
    /// if none is stored; on failure the ledger is unchanged.
    pub fn deposit(&mut self, to: &Address, amount: u64) -> (r: Result<(), TransitionError>)
        requires
            old(self).wf(),
        ensures
            final(self).wf(),
            match credit(old(self)@, to@, amount) {
                Ok(m) => r is Ok && final(self)@ == m,
                Err(e) => r == Err::<(), TransitionError>(e) && final(self)@ == old(self)@,
            },
    {
        match self.find(to) {
            None => {
                self.push_account(Account { address: *to, lamports: amount, record: Record::Wallet });
                Ok(())
            },
            Some(i) => {
                let lamports = self.accounts[i].lamports;
                match lamports.checked_add(amount) {
                    None => Err(TransitionError::ArithmeticOverflow),
                    Some(total) => {
                        let record = self.accounts[i].record.duplicate();
                        self.set_account(i, Account { address: *to, lamports: total, record });
                        Ok(())
                    },
                }
            },
        }
    }

    /// Moves `amount` from the plain account at `from` to the account at
    /// `to`; on failure the ledger is unchanged.
    pub fn transfer(&mut self, from: &Address, to: &Address, amount: u64) -> (r: Result<
        (),
        TransitionError,
    >)
        requires
            old(self).wf(),
        ensures
            final(self).wf(),
            match transfer(old(self)@, from@, to@, amount) {
                Ok(m) => r is Ok && final(self)@ == m,
                Err(e) => r == Err::<(), TransitionError>(e) && final(self)@ == old(self)@,
            },
    {
        let mut work = self.duplicate();
        work.debit(from, amount)?;
        work.deposit(to, amount)?;
        *self = work;
        Ok(())
    }

    /// The balance that keeps an account of `space` bytes exempt from rent,
    /// or `None` where it passes the largest `u64`.
    pub fn minimum_balance(&self, space: u128) -> (r: Option<u64>)
        ensures
            match r {
                None => minimum_balance(space as nat, self@.rent_per_byte) > u64::MAX,
                Some(v) => v == minimum_balance(space as nat, self@.rent_per_byte),
            },
    {
        let rate = self.rent_per_byte;
        if rate == 0 {
            assert(minimum_balance(space as nat, rate) == 0) by (nonlinear_arith)
                requires
                    rate == 0,
            {}
            return Some(0);
        }
        if space > (u64::MAX - ACCOUNT_STORAGE_OVERHEAD) as u128 {
            assert((ACCOUNT_STORAGE_OVERHEAD + space) * rate >= ACCOUNT_STORAGE_OVERHEAD + space)
                by (nonlinear_arith)
                requires
                    rate >= 1,
            {}
            return None;
        }
        let bytes: u64 = space as u64 + ACCOUNT_STORAGE_OVERHEAD;
        assert(bytes * rate == (ACCOUNT_STORAGE_OVERHEAD + space) * rate);
        bytes.checked_mul(rate)
    }

    /// Stores `record` at `target`, which must hold no record, and has
    /// `payer` bring its balance up to the minimum for `space` bytes; on
    /// failure the ledger is unchanged.
    pub fn allocate(&mut self, payer: &Address, target: &Address, space: u128, record: Record) -> (r:
        Result<(), TransitionError>)
        requires
            old(self).wf(),
        ensures
            final(self).wf(),
            match allocate(old(self)@, payer@, target@, space as nat, record@) {
                Ok(m) => r is Ok && final(self)@ == m,
                Err(e) => r == Err::<(), TransitionError>(e) && final(self)@ == old(self)@,
            },
    {
        let current: u64 = match self.find(target) {
            Some(i) => {
                match &self.accounts[i].record {
                    Record::Wallet => {},
                    _ => {
                        return Err(TransitionError::AccountAlreadyInUse);
                    },
                }
                self.accounts[i].lamports
            },
            None => 0,
        };
        let rent = match self.minimum_balance(space) {
            Some(v) => v,
            None => {
                return Err(TransitionError::ArithmeticOverflow);
            },
        };
        if current != 0 && payer.equals(target) {
            return Err(TransitionError::PayerIsTarget);
        }
        let top: u64 = if current == 0 {
            rent
        } else {
            let need: u64 = if rent == 0 {
                1
            } else {
                rent
            };
            if need > current {
                need - current
            } else {
                0
            }
        };
        self.debit(payer, top)?;
        let held = self.balance(target);
        let a = Account { address: *target, lamports: held + top, record };
        match self.find(target) {
            Some(i) => self.set_account(i, a),
            None => self.push_account(a),
        }
        Ok(())
    }

    /// A copy of the ledger.
    pub fn duplicate(&self) -> (r: Ledger)
        requires
            self.wf(),
        ensures
            r.wf(),
            r@ == self@,
    {
        let mut v: Vec<Account> = Vec::new();
        let mut i: usize = 0;
        while i < self.accounts.len()
            invariant
                i <= self.accounts.len(),
                v.len() == i,
                forall|j: int|
                    0 <= j < i ==> v@[j].address@ == self.accounts@[j].address@ && v@[j]@
                        == self.accounts@[j]@,
            decreases self.accounts.len() - i,
        {
            v.push(self.accounts[i].duplicate());
            i = i + 1;
        }
        proof {
            lemma_map_same(self.accounts@, v@);
        }
        Ledger { program_id: self.program_id, rent_per_byte: self.rent_per_byte, accounts: v }
    }
}

} // verus!
