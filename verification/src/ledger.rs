//! An in-memory realization of the atomic value-transfer collaborator.
//!
//! The lifecycle consumes a transfer service only through this
//! interface: query a balance, deposit into an account, debit an
//! account, or move value atomically between two accounts.  Every
//! operation either completes in full or leaves every balance
//! untouched.  The ledger tracks one asset; account ids are opaque.

use vstd::prelude::*;

verus! {

/// One account of the ledger: an opaque id and its balance.
#[derive(Clone, Copy, PartialEq, Eq, Structural, Debug)]
pub struct Account {
    /// The account's opaque identifier.
    pub id: u64,
    /// The amount the account holds.
    pub balance: u64,
}

/// Why the transfer service refused to move value.
#[derive(Clone, Copy, PartialEq, Eq, Structural, Debug)]
pub enum TransferError {
    /// The source account holds less than the requested amount.
    InsufficientFunds,
}

/// The balance recorded for `id`: the first matching account's
/// balance, or zero when no account carries the id.
spec fn seq_balance(s: Seq<Account>, id: u64) -> int
    decreases s.len(),
{
    if s.len() == 0 {
        0
    } else if s[0].id == id {
        s[0].balance as int
    } else {
        seq_balance(s.drop_first(), id)
    }
}

/// The sum of every balance in `s`.
spec fn seq_total(s: Seq<Account>) -> int
    decreases s.len(),
{
    if s.len() == 0 {
        0
    } else {
        s[0].balance + seq_total(s.drop_first())
    }
}

/// No two accounts share an id.
spec fn ids_distinct(s: Seq<Account>) -> bool {
    forall|i: int, j: int| 0 <= i < j < s.len() ==> s[i].id != s[j].id
}

proof fn lemma_seq_total_nonneg(s: Seq<Account>)
    ensures
        seq_total(s) >= 0,
    decreases s.len(),
{
    if s.len() > 0 {
        lemma_seq_total_nonneg(s.drop_first());
    }
}

proof fn lemma_seq_balance_le_total(s: Seq<Account>, id: u64)
    ensures
        0 <= seq_balance(s, id) <= seq_total(s),
    decreases s.len(),
{
    if s.len() > 0 {
        lemma_seq_total_nonneg(s.drop_first());
        lemma_seq_balance_le_total(s.drop_first(), id);
    }
}

proof fn lemma_seq_balance_at(s: Seq<Account>, i: int)
    requires
        0 <= i < s.len(),
        forall|j: int| 0 <= j < i ==> s[j].id != s[i].id,
    ensures
        seq_balance(s, s[i].id) == s[i].balance,
    decreases s.len(),
{
    if i > 0 {
        lemma_seq_balance_at(s.drop_first(), i - 1);
    }
}

proof fn lemma_seq_balance_absent(s: Seq<Account>, id: u64)
    ensures
        (forall|j: int| 0 <= j < s.len() ==> s[j].id != id) ==> seq_balance(s, id) == 0,
    decreases s.len(),
{
    if s.len() > 0 {
        lemma_seq_balance_absent(s.drop_first(), id);
    }
}

proof fn lemma_seq_update_total(s: Seq<Account>, i: int, a: Account)
    requires
        0 <= i < s.len(),
    ensures
        seq_total(s.update(i, a)) == seq_total(s) - s[i].balance + a.balance,
    decreases s.len(),
{
    let u = s.update(i, a);
    if i == 0 {
        assert(u.drop_first() =~= s.drop_first());
    } else {
        assert(u.drop_first() =~= s.drop_first().update(i - 1, a));
        lemma_seq_update_total(s.drop_first(), i - 1, a);
    }
}

proof fn lemma_seq_update_balance(s: Seq<Account>, i: int, a: Account, id: u64)
    requires
        0 <= i < s.len(),
        a.id == s[i].id,
        forall|j: int| 0 <= j < i ==> s[j].id != s[i].id,
    ensures
        seq_balance(s.update(i, a), id) == if id == a.id {
            a.balance as int
        } else {
            seq_balance(s, id)
        },
    decreases s.len(),
{
    let u = s.update(i, a);
    if i == 0 {
        if s[0].id != id {
            assert(u.drop_first() =~= s.drop_first());
        }
    } else {
        if s[0].id != id {
            assert(u.drop_first() =~= s.drop_first().update(i - 1, a));
            lemma_seq_update_balance(s.drop_first(), i - 1, a, id);
        }
    }
}

proof fn lemma_seq_push(s: Seq<Account>, a: Account, id: u64)
    requires
        forall|j: int| 0 <= j < s.len() ==> s[j].id != a.id,
    ensures
        seq_total(s.push(a)) == seq_total(s) + a.balance,
        seq_balance(s.push(a), id) == if id == a.id {
            a.balance as int
        } else {
            seq_balance(s, id)
        },
    decreases s.len(),
{
    let u = s.push(a);
    assert(u.len() == s.len() + 1);
    if s.len() == 0 {
        assert(u[0] == a);
        assert(u.drop_first() =~= Seq::<Account>::empty());
        assert(seq_total(u) == a.balance + seq_total(u.drop_first()));
        assert(seq_balance(u.drop_first(), id) == 0);
        assert(seq_balance(s, id) == 0);
    } else {
        assert(u[0] == s[0]);
        assert(u.drop_first() =~= s.drop_first().push(a));
        lemma_seq_push(s.drop_first(), a, id);
        if s[0].id != id {
            assert(seq_balance(u, id) == seq_balance(u.drop_first(), id));
            assert(seq_balance(s, id) == seq_balance(s.drop_first(), id));
        }
    }
}

/// The transfer service's state: every account it has ever credited.
pub struct Ledger {
    accounts: Vec<Account>,
}

impl Ledger {
    /// The ledger never holds two accounts with one id.
    pub closed spec fn wf(self) -> bool {
        ids_distinct(self.accounts@)
    }

    /// The balance the ledger records for `id`; zero for an id it has
    /// never credited.
    pub closed spec fn spec_balance(self, id: u64) -> int {
        seq_balance(self.accounts@, id)
    }

    /// The sum of every balance the ledger holds.
    pub closed spec fn total_of(self) -> int {
        seq_total(self.accounts@)
    }

    /// No single balance exceeds the sum of all balances.
    pub proof fn lemma_balance_le_total(self, id: u64)
        ensures
            0 <= self.spec_balance(id) <= self.total_of(),
    {
        lemma_seq_balance_le_total(self.accounts@, id);
    }

    /// An empty ledger: every balance is zero.
    pub fn new() -> (l: Ledger)
        ensures
            l.wf(),
            l.total_of() == 0,
            forall|id: u64| l.spec_balance(id) == 0,
    {
        let l = Ledger { accounts: Vec::new() };
        proof {
            assert forall|id: u64| l.spec_balance(id) == 0 by {
                lemma_seq_balance_absent(l.accounts@, id);
            }
        }
        l
    }

    /// Where `id` sits in the account vector, if anywhere.
    fn find_index(&self, id: u64) -> (r: Option<usize>)
        ensures
            match r {
                Some(i) => i < self.accounts@.len() && self.accounts@[i as int].id == id
                    && forall|j: int| 0 <= j < i ==> self.accounts@[j].id != id,
                None => forall|j: int|
                    0 <= j < self.accounts@.len() ==> self.accounts@[j].id != id,
            },
    {
        let mut i: usize = 0;
        while i < self.accounts.len()
            invariant
                i <= self.accounts@.len(),
                forall|j: int| 0 <= j < i ==> self.accounts@[j].id != id,
            decreases self.accounts@.len() - i,
        {
            if self.accounts[i].id == id {
                return Some(i);
            }
            i = i + 1;
        }
        None
    }

    /// The balance of `id`, zero for an account the ledger has never
    /// credited.
    pub fn balance_of(&self, id: u64) -> (r: u64)
        requires
            self.wf(),
        ensures
            r == self.spec_balance(id),
    {
        match self.find_index(id) {
            Some(i) => {
                proof {
                    lemma_seq_balance_at(self.accounts@, i as int);
                }
                self.accounts[i].balance
            },
            None => {
                proof {
                    lemma_seq_balance_absent(self.accounts@, id);
                }
                0
            },
        }
    }

    /// Credits `amount` to `id`, creating the account on first use.
    /// Only the target balance changes; the total grows by `amount`.
    pub fn deposit(&mut self, id: u64, amount: u64)
        requires
            old(self).wf(),
            old(self).spec_balance(id) + amount <= u64::MAX,
        ensures
            final(self).wf(),
            final(self).spec_balance(id) == old(self).spec_balance(id) + amount,
            forall|o: u64| o != id ==> final(self).spec_balance(o) == old(self).spec_balance(o),
            final(self).total_of() == old(self).total_of() + amount,
    {
        match self.find_index(id) {
            Some(i) => {
                proof {
                    lemma_seq_balance_at(self.accounts@, i as int);
                }
                let a = Account { id, balance: self.accounts[i].balance + amount };
                let ghost s = self.accounts@;
                self.accounts[i] = a;
                proof {
                    lemma_seq_update_total(s, i as int, a);
                    assert forall|o: u64|
                        #[trigger] self.spec_balance(o) == if o == id {
                            a.balance as int
                        } else {
                            seq_balance(s, o)
                        } by {
                        lemma_seq_update_balance(s, i as int, a, o);
                    }
                }
            },
            None => {
                let a = Account { id, balance: amount };
                let ghost s = self.accounts@;
                self.accounts.push(a);
                proof {
                    lemma_seq_balance_absent(s, id);
                    assert forall|o: u64|
                        #[trigger] self.spec_balance(o) == if o == id {
                            a.balance as int
                        } else {
                            seq_balance(s, o)
                        } by {
                        lemma_seq_push(s, a, o);
                    }
                    lemma_seq_push(s, a, id);
                }
            },
        }
    }

    /// Debits `amount` from `id` when the balance covers it; refuses
    /// with [`TransferError::InsufficientFunds`] otherwise, changing
    /// nothing.
    pub fn debit(&mut self, id: u64, amount: u64) -> (r: Result<(), TransferError>)
        requires
            old(self).wf(),
        ensures
            final(self).wf(),
            r is Ok <==> old(self).spec_balance(id) >= amount,
            r is Ok ==> final(self).spec_balance(id) == old(self).spec_balance(id) - amount
                && final(self).total_of() == old(self).total_of() - amount,
            r is Err ==> final(self).spec_balance(id) == old(self).spec_balance(id)
                && final(self).total_of() == old(self).total_of(),
            forall|o: u64| o != id ==> final(self).spec_balance(o) == old(self).spec_balance(o),
    {
        match self.find_index(id) {
            Some(i) => {
                proof {
                    lemma_seq_balance_at(self.accounts@, i as int);
                }
                let held = self.accounts[i].balance;
                if held < amount {
                    return Err(TransferError::InsufficientFunds);
                }
                let a = Account { id, balance: held - amount };
                let ghost s = self.accounts@;
                self.accounts[i] = a;
                proof {
                    lemma_seq_update_total(s, i as int, a);
                    assert forall|o: u64|
                        #[trigger] self.spec_balance(o) == if o == id {
                            a.balance as int
                        } else {
                            seq_balance(s, o)
                        } by {
                        lemma_seq_update_balance(s, i as int, a, o);
                    }
                }
                Ok(())
            },
            None => {
                proof {
                    lemma_seq_balance_absent(self.accounts@, id);
                }
                if amount == 0 {
                    Ok(())
                } else {
                    Err(TransferError::InsufficientFunds)
                }
            },
        }
    }

    /// Moves `amount` from one account to the other, atomically: on
    /// success exactly the two balances change and the total is
    /// conserved; on refusal nothing changes.
    pub fn transfer(&mut self, from: u64, to: u64, amount: u64) -> (r: Result<(), TransferError>)
        requires
            old(self).wf(),
            from != to ==> old(self).spec_balance(to) + amount <= u64::MAX,
        ensures
            final(self).wf(),
            final(self).total_of() == old(self).total_of(),
            r is Ok <==> old(self).spec_balance(from) >= amount,
            r is Ok && from != to ==> final(self).spec_balance(from) == old(self).spec_balance(
                from,
            ) - amount && final(self).spec_balance(to) == old(self).spec_balance(to) + amount,
            r is Err || from == to ==> forall|o: u64|
                final(self).spec_balance(o) == old(self).spec_balance(o),
            forall|o: u64|
                o != from && o != to ==> final(self).spec_balance(o) == old(self).spec_balance(o),
    {
        let held = self.balance_of(from);
        if held < amount {
            return Err(TransferError::InsufficientFunds);
        }
        if from == to {
            return Ok(());
        }
        let debited = self.debit(from, amount);
        proof {
            assert(debited is Ok);
        }
        self.deposit(to, amount);
        Ok(())
    }
}

} // verus!
