//! The custody authority: the escrow's sole, key-less controller.
//!
//! At initialization the lifecycle derives a capability bound to the
//! grant's identity pair.  Only a debit presented together with the
//! capability derived for exactly that pair can move value out of the
//! grant's escrow; the capability is never handed to either party.

use vstd::bytes::{spec_u64_to_le_bytes, u64_to_le_bytes};
use vstd::prelude::*;

use crate::ledger::Ledger;
use crate::pda::{Seeds, ToSeeds};

verus! {

/// Derivation artifacts of the custody addresses, persisted with the
/// grant so later operations can re-present the same derivation.
#[derive(Clone, Copy, PartialEq, Eq, Structural, Debug)]
pub struct Bumps {
    /// Artifact of the grant record's own address derivation.
    pub grant: u8,
    /// Artifact of the escrow authority's address derivation.
    pub escrow_authority: u8,
    /// Artifact of the escrow holding account's address derivation.
    pub escrow_token_account: u8,
}

/// Why an escrow debit was refused.
#[derive(Clone, Copy, PartialEq, Eq, Structural, Debug)]
pub enum CustodyError {
    /// The presented capability is not the one derived for this escrow.
    UnauthorizedDebit,
    /// The escrow holds less than the requested amount.
    InsufficientFunds,
}

/// The key-less signing capability bound to one grant's identity pair.
/// Neither party ever holds it; it exists only inside the lifecycle.
#[derive(Clone, Copy, PartialEq, Eq, Structural, Debug)]
pub struct CustodyAuthority {
    pub(crate) employer: u64,
    pub(crate) employee: u64,
    pub(crate) bumps: Bumps,
}

/// One grant's escrow: the balance held in custody for the identity
/// pair the escrow was opened for.
#[derive(Clone, Copy, PartialEq, Eq, Structural, Debug)]
pub struct EscrowAccount {
    pub(crate) employer: u64,
    pub(crate) employee: u64,
    pub(crate) balance: u64,
}

impl CustodyAuthority {
    /// Whether this capability was derived for exactly the given pair.
    pub closed spec fn scoped_to(self, employer: u64, employee: u64) -> bool {
        self.employer == employer && self.employee == employee
    }

    /// The seed material the capability is derived from: the two
    /// identities, little endian, followed by the authority bump.
    pub closed spec fn spec_seeds(self) -> Seq<Seq<u8>> {
        seq![
            spec_u64_to_le_bytes(self.employer),
            spec_u64_to_le_bytes(self.employee),
            seq![self.bumps.escrow_authority],
        ]
    }

    /// Derives the deterministic authority for a grant's identity pair.
    /// The derivation uses no key: it is a pure function of the pair.
    pub fn derive(employer: u64, employee: u64) -> (c: CustodyAuthority)
        ensures
            c.scoped_to(employer, employee),
    {
        let bumps = Bumps {
            grant: (employer % 251) as u8,
            escrow_authority: (employee % 251) as u8,
            escrow_token_account: ((employer % 127) + (employee % 127)) as u8,
        };
        CustodyAuthority { employer, employee, bumps }
    }

    /// Materializes the derivation seed material this capability
    /// presents when it signs a debit.
    pub fn custody_seeds(&self) -> (s: Seeds)
        ensures
            s.seeds_view() == self.spec_seeds(),
    {
        let mut items: Vec<Vec<u8>> = Vec::new();
        items.push(u64_to_le_bytes(self.employer));
        items.push(u64_to_le_bytes(self.employee));
        let mut bump: Vec<u8> = Vec::new();
        bump.push(self.bumps.escrow_authority);
        items.push(bump);
        let ghost parts = items@;
        let s = Seeds::new(items);
        proof {
            assert(s.seeds_view() =~= self.spec_seeds());
        }
        s
    }
}

impl EscrowAccount {
    /// The amount currently held in custody.
    pub closed spec fn spec_balance(self) -> int {
        self.balance as int
    }

    /// The employer identity the escrow was opened for.
    pub closed spec fn spec_employer(self) -> u64 {
        self.employer
    }

    /// The employee identity the escrow was opened for.
    pub closed spec fn spec_employee(self) -> u64 {
        self.employee
    }

    /// An escrow balance always fits the ledger's amount type.
    pub proof fn lemma_balance_bounds(self)
        ensures
            0 <= self.spec_balance() <= u64::MAX,
    {
    }

    /// Opens the escrow for a pair, holding its initial deposit.
    pub fn open(employer: u64, employee: u64, initial: u64) -> (e: EscrowAccount)
        ensures
            e.spec_employer() == employer,
            e.spec_employee() == employee,
            e.spec_balance() == initial,
    {
        EscrowAccount { employer, employee, balance: initial }
    }

    /// Reads the balance actually in custody right now.
    pub fn balance(&self) -> (r: u64)
        ensures
            r == self.spec_balance(),
    {
        self.balance
    }
}

/// A debit from escrow, authorized by a custody capability: refused
/// outright unless the capability is the one derived for exactly this
/// escrow's pair and the escrow covers the amount; otherwise the amount
/// moves atomically from custody into the ledger account `to`.
pub fn authorize_debit(
    auth: &CustodyAuthority,
    escrow: &mut EscrowAccount,
    ledger: &mut Ledger,
    to: u64,
    amount: u64,
) -> (r: Result<(), CustodyError>)
    requires
        old(ledger).wf(),
        old(ledger).spec_balance(to) + amount <= u64::MAX,
    ensures
        final(ledger).wf(),
        final(escrow).spec_employer() == old(escrow).spec_employer(),
        final(escrow).spec_employee() == old(escrow).spec_employee(),
        r is Ok <==> auth.scoped_to(old(escrow).spec_employer(), old(escrow).spec_employee())
            && old(escrow).spec_balance() >= amount,
        r is Ok ==> final(escrow).spec_balance() == old(escrow).spec_balance() - amount
            && final(ledger).spec_balance(to) == old(ledger).spec_balance(to) + amount
            && final(ledger).total_of() == old(ledger).total_of() + amount
            && (forall|o: u64|
                o != to ==> final(ledger).spec_balance(o) == old(ledger).spec_balance(o)),
        r is Err ==> final(escrow).spec_balance() == old(escrow).spec_balance()
            && final(ledger).total_of() == old(ledger).total_of()
            && (forall|o: u64| final(ledger).spec_balance(o) == old(ledger).spec_balance(o)),
{
    if !(auth.employer == escrow.employer && auth.employee == escrow.employee) {
        return Err(CustodyError::UnauthorizedDebit);
    }
    if escrow.balance < amount {
        return Err(CustodyError::InsufficientFunds);
    }
    escrow.balance = escrow.balance - amount;
    ledger.deposit(to, amount);
    Ok(())
}

} // verus!
