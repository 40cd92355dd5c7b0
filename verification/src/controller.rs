//! The grant lifecycle: Initialize, Withdraw, Revoke.
//!
//! The controller owns the grant records and the ledger the transfer
//! service keeps, and is the only writer of either.  Its well-formedness
//! predicate [`GrantLifecycleController::wf`] is established by
//! [`GrantLifecycleController::new`] and preserved by every operation,
//! so it holds in every reachable state.  Its heart is the custody
//! invariant: a live grant's escrow holds exactly the grant's total
//! less what was already issued, and a revoked grant's escrow is empty.

use vstd::bytes::{spec_u64_to_le_bytes, u64_to_le_bytes};
use vstd::prelude::*;

use crate::custody::{authorize_debit, Bumps, CustodyAuthority, EscrowAccount};
use crate::engine::{
    get_vesting_instance, lemma_vested_bounds, releasable, valid_params, GrantInputParams,
    GrantStateParams,
};
use crate::errors::TokenVestingError;
use crate::ledger::Ledger;

verus! {

/// The persisted record of one grant: schedule, issuance state, the
/// identities it binds, and the custody machinery of its escrow.
#[derive(Clone, Copy, PartialEq, Eq, Structural, Debug)]
pub struct Grant {
    /// The immutable schedule parameters.
    pub params: GrantInputParams,
    /// Cumulative amount ever released to the employee.
    pub already_issued_token_amount: u64,
    /// One-way flag: set by Revoke, never cleared.
    pub revoked: bool,
    /// One-way flag: set when Initialize persists the record.
    pub initialized: bool,
    /// The funding party's identity.
    pub employer: u64,
    /// The beneficiary's identity.
    pub employee: u64,
    /// The asset the grant is denominated in.
    pub mint: u64,
    /// Derivation artifacts of the custody addresses.
    pub bumps: Bumps,
    /// The escrow holding of this grant.  The type's internals are
    /// crate-private: no outside caller can fabricate one.
    pub escrow: EscrowAccount,
    /// The capability that alone can debit the escrow.  Likewise not
    /// constructible outside the crate.
    pub custody: CustodyAuthority,
}

impl Grant {
    /// The persisted record's fixed size: five 8-byte schedule
    /// integers, the 8-byte issued amount, the two 1-byte flags,
    /// three 8-byte identity and asset keys, and the three
    /// derivation-proof bytes.
    pub const LEN: usize = 5 * 8 + 8 + 1 + 1 + 3 * 8 + 3;

    /// The record's fixed-size persisted form, field by field in
    /// little-endian order.  The escrow balance is deliberately not
    /// part of it: custody holdings live in the escrow account, not
    /// in the record.
    pub open spec fn spec_record_bytes(self) -> Seq<u8> {
        spec_u64_to_le_bytes(self.params.cliff_seconds) + spec_u64_to_le_bytes(
            self.params.duration_seconds,
        ) + spec_u64_to_le_bytes(self.params.seconds_per_slice) + spec_u64_to_le_bytes(
            self.params.start_unix,
        ) + spec_u64_to_le_bytes(self.params.grant_token_amount) + spec_u64_to_le_bytes(
            self.already_issued_token_amount,
        ) + seq![
            if self.revoked {
                1u8
            } else {
                0u8
            },
            if self.initialized {
                1u8
            } else {
                0u8
            },
        ] + spec_u64_to_le_bytes(self.employer) + spec_u64_to_le_bytes(self.employee)
            + spec_u64_to_le_bytes(self.mint) + seq![
            self.bumps.grant,
            self.bumps.escrow_authority,
            self.bumps.escrow_token_account,
        ]
    }

    /// Serializes the record into its fixed-size persisted form.
    pub fn record_bytes(&self) -> (r: Vec<u8>)
        ensures
            r@ == self.spec_record_bytes(),
            r@.len() == Grant::LEN,
    {
        let mut out: Vec<u8> = Vec::new();
        let mut chunk = u64_to_le_bytes(self.params.cliff_seconds);
        out.append(&mut chunk);
        let mut chunk = u64_to_le_bytes(self.params.duration_seconds);
        out.append(&mut chunk);
        let mut chunk = u64_to_le_bytes(self.params.seconds_per_slice);
        out.append(&mut chunk);
        let mut chunk = u64_to_le_bytes(self.params.start_unix);
        out.append(&mut chunk);
        let mut chunk = u64_to_le_bytes(self.params.grant_token_amount);
        out.append(&mut chunk);
        let mut chunk = u64_to_le_bytes(self.already_issued_token_amount);
        out.append(&mut chunk);
        out.push(if self.revoked {
            1
        } else {
            0
        });
        out.push(if self.initialized {
            1
        } else {
            0
        });
        let mut chunk = u64_to_le_bytes(self.employer);
        out.append(&mut chunk);
        let mut chunk = u64_to_le_bytes(self.employee);
        out.append(&mut chunk);
        let mut chunk = u64_to_le_bytes(self.mint);
        out.append(&mut chunk);
        out.push(self.bumps.grant);
        out.push(self.bumps.escrow_authority);
        out.push(self.bumps.escrow_token_account);
        proof {
            assert(out@ =~= self.spec_record_bytes());
        }
        out
    }
}

/// The per-record custody invariant.
spec fn grant_ok(g: Grant) -> bool {
    &&& valid_params(g.params)
    &&& g.initialized
    &&& g.employer != g.employee
    &&& g.already_issued_token_amount <= g.params.grant_token_amount
    &&& g.escrow.spec_employer() == g.employer
    &&& g.escrow.spec_employee() == g.employee
    &&& g.custody.scoped_to(g.employer, g.employee)
    &&& g.escrow.spec_balance() == if g.revoked {
        0int
    } else {
        g.params.grant_token_amount - g.already_issued_token_amount
    }
}

/// The sum of every escrow balance held for the grants in `s`.
spec fn escrow_total(s: Seq<Grant>) -> int
    decreases s.len(),
{
    if s.len() == 0 {
        0
    } else {
        s[0].escrow.spec_balance() + escrow_total(s.drop_first())
    }
}

/// No two records bind the same (employer, employee) pair.
spec fn pairs_distinct(s: Seq<Grant>) -> bool {
    forall|i: int, j: int|
        0 <= i < j < s.len() ==> !(s[i].employer == s[j].employer && s[i].employee
            == s[j].employee)
}

/// Whether a record for the pair exists.
spec fn has_pair(s: Seq<Grant>, employer: u64, employee: u64) -> bool {
    exists|i: int| 0 <= i < s.len() && s[i].employer == employer && s[i].employee == employee
}

/// Where the record for the pair sits, when one exists.
spec fn pair_index(s: Seq<Grant>, employer: u64, employee: u64) -> int {
    choose|i: int| 0 <= i < s.len() && s[i].employer == employer && s[i].employee == employee
}

/// The record stored for the pair, if any.
spec fn seq_grant(s: Seq<Grant>, employer: u64, employee: u64) -> Option<Grant> {
    if has_pair(s, employer, employee) {
        Some(s[pair_index(s, employer, employee)])
    } else {
        None
    }
}

proof fn lemma_escrow_total_nonneg(s: Seq<Grant>)
    ensures
        escrow_total(s) >= 0,
    decreases s.len(),
{
    if s.len() > 0 {
        s[0].escrow.lemma_balance_bounds();
        lemma_escrow_total_nonneg(s.drop_first());
    }
}

proof fn lemma_escrow_le_total(s: Seq<Grant>, i: int)
    requires
        0 <= i < s.len(),
    ensures
        s[i].escrow.spec_balance() <= escrow_total(s),
    decreases s.len(),
{
    if i == 0 {
        lemma_escrow_total_nonneg(s.drop_first());
    } else {
        s[0].escrow.lemma_balance_bounds();
        lemma_escrow_le_total(s.drop_first(), i - 1);
    }
}

proof fn lemma_escrow_total_update(s: Seq<Grant>, i: int, g: Grant)
    requires
        0 <= i < s.len(),
    ensures
        escrow_total(s.update(i, g)) == escrow_total(s) - s[i].escrow.spec_balance()
            + g.escrow.spec_balance(),
    decreases s.len(),
{
    let u = s.update(i, g);
    if i == 0 {
        assert(u.drop_first() =~= s.drop_first());
    } else {
        assert(u.drop_first() =~= s.drop_first().update(i - 1, g));
        lemma_escrow_total_update(s.drop_first(), i - 1, g);
    }
}

proof fn lemma_escrow_total_push(s: Seq<Grant>, g: Grant)
    ensures
        escrow_total(s.push(g)) == escrow_total(s) + g.escrow.spec_balance(),
    decreases s.len(),
{
    let u = s.push(g);
    if s.len() == 0 {
        assert(u[0] == g);
        assert(u.drop_first() =~= Seq::<Grant>::empty());
        assert(escrow_total(u.drop_first()) == 0);
    } else {
        assert(u[0] == s[0]);
        assert(u.drop_first() =~= s.drop_first().push(g));
        lemma_escrow_total_push(s.drop_first(), g);
    }
}

/// With distinct pairs, the record at `i` is the one `seq_grant` finds
/// for its pair.
proof fn lemma_pair_at(s: Seq<Grant>, i: int)
    requires
        pairs_distinct(s),
        0 <= i < s.len(),
    ensures
        has_pair(s, s[i].employer, s[i].employee),
        pair_index(s, s[i].employer, s[i].employee) == i,
        seq_grant(s, s[i].employer, s[i].employee) == Some(s[i]),
{
    assert(has_pair(s, s[i].employer, s[i].employee));
    let j = pair_index(s, s[i].employer, s[i].employee);
    assert(0 <= j < s.len() && s[j].employer == s[i].employer && s[j].employee == s[i].employee);
    if i < j {
        assert(false);
    } else if j < i {
        assert(false);
    }
}

/// Updating the record at `i` without changing its pair leaves every
/// other pair's record as it was.
proof fn lemma_seq_grant_update(s: Seq<Grant>, i: int, g: Grant)
    requires
        pairs_distinct(s),
        0 <= i < s.len(),
        g.employer == s[i].employer,
        g.employee == s[i].employee,
    ensures
        pairs_distinct(s.update(i, g)),
        seq_grant(s.update(i, g), g.employer, g.employee) == Some(g),
        forall|e1: u64, e2: u64|
            !(e1 == g.employer && e2 == g.employee) ==> seq_grant(s.update(i, g), e1, e2)
                == seq_grant(s, e1, e2),
{
    let u = s.update(i, g);
    assert(forall|k: int|
        0 <= k < s.len() ==> u[k].employer == s[k].employer && u[k].employee == s[k].employee);
    assert(pairs_distinct(u));
    lemma_pair_at(u, i);
    assert forall|e1: u64, e2: u64| !(e1 == g.employer && e2 == g.employee) implies seq_grant(
        u,
        e1,
        e2,
    ) == seq_grant(s, e1, e2) by {
        if has_pair(s, e1, e2) {
            let j = pair_index(s, e1, e2);
            assert(0 <= j < s.len() && s[j].employer == e1 && s[j].employee == e2);
            lemma_pair_at(s, j);
            assert(j != i);
            assert(u[j] == s[j]);
            lemma_pair_at(u, j);
        } else {
            if has_pair(u, e1, e2) {
                let j = pair_index(u, e1, e2);
                assert(0 <= j < u.len() && u[j].employer == e1 && u[j].employee == e2);
                assert(j != i);
                assert(s[j].employer == e1 && s[j].employee == e2);
            }
        }
    }
}

/// Appending a record for a fresh pair leaves every other pair's
/// record as it was.
proof fn lemma_seq_grant_push(s: Seq<Grant>, g: Grant)
    requires
        pairs_distinct(s),
        !has_pair(s, g.employer, g.employee),
    ensures
        pairs_distinct(s.push(g)),
        seq_grant(s.push(g), g.employer, g.employee) == Some(g),
        forall|e1: u64, e2: u64|
            !(e1 == g.employer && e2 == g.employee) ==> seq_grant(s.push(g), e1, e2) == seq_grant(
                s,
                e1,
                e2,
            ),
{
    let u = s.push(g);
    assert(forall|k: int| 0 <= k < s.len() ==> u[k] == s[k]);
    assert(u[s.len() as int] == g);
    assert forall|i: int, j: int| 0 <= i < j < u.len() implies !(u[i].employer == u[j].employer
        && u[i].employee == u[j].employee) by {
        if j < s.len() {
        } else {
            assert(u[j] == g);
            if u[i].employer == g.employer && u[i].employee == g.employee {
                assert(has_pair(s, g.employer, g.employee));
            }
        }
    }
    lemma_pair_at(u, s.len() as int);
    assert forall|e1: u64, e2: u64| !(e1 == g.employer && e2 == g.employee) implies seq_grant(
        u,
        e1,
        e2,
    ) == seq_grant(s, e1, e2) by {
        if has_pair(s, e1, e2) {
            let j = pair_index(s, e1, e2);
            assert(0 <= j < s.len() && s[j].employer == e1 && s[j].employee == e2);
            lemma_pair_at(s, j);
            assert(u[j] == s[j]);
            lemma_pair_at(u, j);
        } else {
            if has_pair(u, e1, e2) {
                let j = pair_index(u, e1, e2);
                assert(0 <= j < u.len() && u[j].employer == e1 && u[j].employee == e2);
                assert(j != s.len() as int);
                assert(s[j].employer == e1 && s[j].employee == e2);
            }
        }
    }
}

/// The lifecycle controller: the grant record store, the transfer
/// service's ledger, and the running total of value in the system.
pub struct GrantLifecycleController {
    ledger: Ledger,
    grants: Vec<Grant>,
    supply: u64,
}

impl GrantLifecycleController {
    /// Well-formedness: distinct identity pairs, the custody invariant
    /// of every record, and conservation of the tracked supply across
    /// ledger balances and escrow holdings.  Established by [`Self::new`]
    /// and preserved by every operation, so it holds in every reachable
    /// state.
    pub closed spec fn wf(self) -> bool {
        &&& self.ledger.wf()
        &&& pairs_distinct(self.grants@)
        &&& forall|i: int| 0 <= i < self.grants@.len() ==> grant_ok(#[trigger] self.grants@[i])
        &&& self.ledger.total_of() + escrow_total(self.grants@) == self.supply
    }

    /// The ledger balance of an account.
    pub closed spec fn spec_balance(self, id: u64) -> int {
        self.ledger.spec_balance(id)
    }

    /// The record stored for the identity pair, if any.
    pub closed spec fn spec_grant(self, employer: u64, employee: u64) -> Option<Grant> {
        seq_grant(self.grants@, employer, employee)
    }

    /// The amount held in escrow for the identity pair; zero when no
    /// record exists.
    pub closed spec fn spec_escrow_balance(self, employer: u64, employee: u64) -> int {
        if has_pair(self.grants@, employer, employee) {
            self.grants@[pair_index(self.grants@, employer, employee)].escrow.spec_balance()
        } else {
            0
        }
    }

    /// All value the controller has ever admitted and not destroyed:
    /// ledger balances plus escrow holdings.
    pub closed spec fn total_supply(self) -> int {
        self.supply as int
    }

    /// Nothing observable differs between the two states.
    pub open spec fn same_state(self, other: Self) -> bool {
        &&& forall|id: u64| #[trigger] other.spec_balance(id) == self.spec_balance(id)
        &&& forall|e1: u64, e2: u64| #[trigger] other.spec_grant(e1, e2) == self.spec_grant(e1, e2)
        &&& forall|e1: u64, e2: u64| #[trigger]
            other.spec_escrow_balance(e1, e2) == self.spec_escrow_balance(e1, e2)
        &&& other.total_supply() == self.total_supply()
    }

    /// A fresh controller: no accounts, no grants, no value.
    pub fn new() -> (c: GrantLifecycleController)
        ensures
            c.wf(),
            c.total_supply() == 0,
            forall|id: u64| c.spec_balance(id) == 0,
            forall|e1: u64, e2: u64| c.spec_grant(e1, e2) is None,
    {
        let c = GrantLifecycleController { ledger: Ledger::new(), grants: Vec::new(), supply: 0 };
        proof {
            assert forall|e1: u64, e2: u64| c.spec_grant(e1, e2) is None by {
                assert(!has_pair(c.grants@, e1, e2));
            }
        }
        c
    }

    /// Admits `amount` of new value into the account `id`, refusing
    /// only when the system-wide supply would no longer fit the amount
    /// type.  This models the external funding deposit that precedes
    /// initialization.
    pub fn fund_account(&mut self, id: u64, amount: u64) -> (ok: bool)
        requires
            old(self).wf(),
        ensures
            final(self).wf(),
            ok <==> old(self).total_supply() + amount <= u64::MAX,
            ok ==> final(self).spec_balance(id) == old(self).spec_balance(id) + amount
                && (forall|o: u64|
                    o != id ==> final(self).spec_balance(o) == old(self).spec_balance(o))
                && final(self).total_supply() == old(self).total_supply() + amount
                && (forall|e1: u64, e2: u64|
                    #[trigger] final(self).spec_grant(e1, e2) == old(self).spec_grant(e1, e2))
                && (forall|e1: u64, e2: u64| #[trigger]
                    final(self).spec_escrow_balance(e1, e2) == old(self).spec_escrow_balance(
                        e1, e2)),
            !ok ==> old(self).same_state(*final(self)),
    {
        match self.supply.checked_add(amount) {
            None => false,
            Some(ns) => {
                proof {
                    self.ledger.lemma_balance_le_total(id);
                    lemma_escrow_total_nonneg(self.grants@);
                }
                self.ledger.deposit(id, amount);
                self.supply = ns;
                true
            },
        }
    }

    /// Where the record for the pair sits in the store, if anywhere.
    fn find_grant(&self, employer: u64, employee: u64) -> (r: Option<usize>)
        ensures
            match r {
                Some(i) => i < self.grants@.len() && self.grants@[i as int].employer == employer
                    && self.grants@[i as int].employee == employee,
                None => !has_pair(self.grants@, employer, employee),
            },
    {
        let mut i: usize = 0;
        while i < self.grants.len()
            invariant
                i <= self.grants@.len(),
                forall|j: int|
                    0 <= j < i ==> !(self.grants@[j].employer == employer
                        && self.grants@[j].employee == employee),
            decreases self.grants@.len() - i,
        {
            if self.grants[i].employer == employer && self.grants[i].employee == employee {
                return Some(i);
            }
            i = i + 1;
        }
        None
    }

    /// The ledger balance of an account.
    pub fn balance_of(&self, id: u64) -> (r: u64)
        requires
            self.wf(),
        ensures
            r == self.spec_balance(id),
    {
        self.ledger.balance_of(id)
    }

    /// A copy of the record stored for the pair, if any.
    pub fn get_grant(&self, employer: u64, employee: u64) -> (r: Option<Grant>)
        requires
            self.wf(),
        ensures
            r == self.spec_grant(employer, employee),
    {
        match self.find_grant(employer, employee) {
            Some(i) => {
                proof {
                    lemma_pair_at(self.grants@, i as int);
                }
                Some(self.grants[i])
            },
            None => None,
        }
    }

    /// Initialize refuses these requests outright: an invalid
    /// schedule, identical parties, or a pair that already has a
    /// record.
    pub open spec fn init_rejected(
        self,
        employer: u64,
        employee: u64,
        params: GrantInputParams,
    ) -> bool {
        ||| !valid_params(params)
        ||| employer == employee
        ||| self.spec_grant(employer, employee) is Some
    }

    /// How a successful Initialize changes the state: a fresh record
    /// for the pair with nothing issued, the gross total moved from
    /// the employer's account into the pair's escrow, and everything
    /// else untouched.
    pub open spec fn init_transition(
        self,
        post: Self,
        employer: u64,
        employee: u64,
        mint: u64,
        params: GrantInputParams,
    ) -> bool {
        &&& (post.spec_grant(employer, employee) matches Some(g) && g.params == params
            && g.already_issued_token_amount == 0 && !g.revoked && g.initialized && g.employer
            == employer && g.employee == employee && g.mint == mint)
        &&& post.spec_escrow_balance(employer, employee) == params.grant_token_amount
        &&& post.spec_balance(employer) == self.spec_balance(employer) - params.grant_token_amount
        &&& forall|o: u64| o != employer ==> post.spec_balance(o) == self.spec_balance(o)
        &&& forall|e1: u64, e2: u64|
            !(e1 == employer && e2 == employee) ==> #[trigger] post.spec_grant(e1, e2)
                == self.spec_grant(e1, e2)
        &&& forall|e1: u64, e2: u64|
            !(e1 == employer && e2 == employee) ==> #[trigger] post.spec_escrow_balance(e1, e2)
                == self.spec_escrow_balance(e1, e2)
        &&& post.total_supply() == self.total_supply()
    }

    /// Creates a grant: validates the schedule, takes exclusive
    /// ownership of the identity pair, moves the gross total from the
    /// employer into a fresh escrow under a newly derived custody
    /// authority, and persists the record.  The transfer and the
    /// record creation happen together or not at all: every refused
    /// request leaves the state exactly as it was.
    pub fn initialize(
        &mut self,
        employer: u64,
        employee: u64,
        mint: u64,
        params: GrantInputParams,
    ) -> (r: Result<(), TokenVestingError>)
        requires
            old(self).wf(),
        ensures
            final(self).wf(),
            match r {
                Ok(()) => !old(self).init_rejected(employer, employee, params)
                    && old(self).spec_balance(employer) >= params.grant_token_amount
                    && old(self).init_transition(*final(self), employer, employee, mint, params),
                Err(TokenVestingError::InvalidParams) => old(self).init_rejected(
                    employer,
                    employee,
                    params,
                ) && old(self).same_state(*final(self)),
                Err(TokenVestingError::TransferFailed) => !old(self).init_rejected(
                    employer,
                    employee,
                    params,
                ) && old(self).spec_balance(employer) < params.grant_token_amount
                    && old(self).same_state(*final(self)),
                Err(_) => false,
            },
    {
        let vesting_check = get_vesting_instance(
            &params,
            GrantStateParams { revoked: false, already_issued_token_amount: 0 },
        );
        if vesting_check.is_err() {
            return Err(TokenVestingError::InvalidParams);
        }
        if employer == employee {
            return Err(TokenVestingError::InvalidParams);
        }
        match self.find_grant(employer, employee) {
            Some(i) => {
                proof {
                    assert(has_pair(self.grants@, employer, employee));
                }
                return Err(TokenVestingError::InvalidParams);
            },
            None => {},
        }
        let amount = params.grant_token_amount;
        match self.ledger.debit(employer, amount) {
            Err(_) => {
                return Err(TokenVestingError::TransferFailed);
            },
            Ok(()) => {},
        }
        let authority = CustodyAuthority::derive(employer, employee);
        let escrow = EscrowAccount::open(employer, employee, amount);
        let g = Grant {
            params,
            already_issued_token_amount: 0,
            revoked: false,
            initialized: true,
            employer,
            employee,
            mint,
            bumps: authority.bumps,
            escrow,
            custody: authority,
        };
        let ghost s0 = self.grants@;
        self.grants.push(g);
        proof {
            lemma_escrow_total_push(s0, g);
            lemma_seq_grant_push(s0, g);
            assert(forall|i: int| 0 <= i < s0.len() ==> self.grants@[i] == s0[i]);
        }
        Ok(())
    }

    /// How a successful Withdraw changes the state: the issued amount
    /// advances by exactly what was released, the escrow shrinks by
    /// the same amount, the employee's account grows by it, and
    /// everything else is untouched.  When nothing is releasable the
    /// release amount is zero and no balance moves.
    pub open spec fn withdraw_transition(
        self,
        post: Self,
        employer: u64,
        employee: u64,
        now: u64,
        amount: int,
    ) -> bool {
        &&& (self.spec_grant(employer, employee) matches Some(g) && amount == releasable(
            g.params,
            g.already_issued_token_amount,
            now,
        ) && (post.spec_grant(employer, employee) matches Some(g2) && g2.params == g.params
            && g2.already_issued_token_amount == g.already_issued_token_amount + amount
            && !g2.revoked && g2.initialized && g2.employer == employer && g2.employee == employee
            && g2.mint == g.mint))
        &&& post.spec_escrow_balance(employer, employee) == self.spec_escrow_balance(
            employer,
            employee,
        ) - amount
        &&& post.spec_balance(employee) == self.spec_balance(employee) + amount
        &&& forall|o: u64| o != employee ==> post.spec_balance(o) == self.spec_balance(o)
        &&& forall|e1: u64, e2: u64|
            !(e1 == employer && e2 == employee) ==> #[trigger] post.spec_grant(e1, e2)
                == self.spec_grant(e1, e2)
        &&& forall|e1: u64, e2: u64|
            !(e1 == employer && e2 == employee) ==> #[trigger] post.spec_escrow_balance(e1, e2)
                == self.spec_escrow_balance(e1, e2)
        &&& post.total_supply() == self.total_supply()
    }

    /// Releases to the employee everything the schedule has unlocked
    /// and not yet issued, as of `now`.  Only the stored employee may
    /// call it, only on a live grant; the released amount is returned,
    /// and a fully exhausted grant releases zero and stays valid.
    /// Every refused request leaves the state exactly as it was.
    pub fn withdraw(&mut self, employer: u64, employee: u64, caller: u64, now: u64) -> (r: Result<
        u64,
        TokenVestingError,
    >)
        requires
            old(self).wf(),
        ensures
            final(self).wf(),
            match r {
                Ok(amount) => (old(self).spec_grant(employer, employee) matches Some(g)
                    && !g.revoked && caller == employee)
                    && old(self).withdraw_transition(*final(self), employer, employee, now, amount as int),
                Err(TokenVestingError::NotInitialized) => old(self).spec_grant(employer, employee) is None
                    && old(self).same_state(*final(self)),
                Err(TokenVestingError::NotAuthorized) => (old(self).spec_grant(employer, employee) matches Some(g)
                    && caller != g.employee) && old(self).same_state(*final(self)),
                Err(TokenVestingError::AlreadyRevoked) => (old(self).spec_grant(employer, employee) matches Some(g)
                    && caller == g.employee && g.revoked) && old(self).same_state(*final(self)),
                Err(_) => false,
            },
    {
        let i = match self.find_grant(employer, employee) {
            None => {
                return Err(TokenVestingError::NotInitialized);
            },
            Some(i) => i,
        };
        proof {
            lemma_pair_at(self.grants@, i as int);
            assert(grant_ok(self.grants@[i as int]));
        }
        let g = self.grants[i];
        if caller != g.employee {
            return Err(TokenVestingError::NotAuthorized);
        }
        if g.revoked {
            return Err(TokenVestingError::AlreadyRevoked);
        }
        let vesting = match get_vesting_instance(
            &g.params,
            GrantStateParams {
                revoked: g.revoked,
                already_issued_token_amount: g.already_issued_token_amount,
            },
        ) {
            Ok(v) => v,
            Err(e) => {
                proof {
                    assert(false);
                }
                return Err(e);
            },
        };
        let releasable_amount = vesting.get_releasable_amount(now);
        proof {
            lemma_vested_bounds(g.params, now);
        }
        if releasable_amount > 0 {
            let mut g2 = g;
            proof {
                self.ledger.lemma_balance_le_total(g.employee);
                lemma_escrow_le_total(self.grants@, i as int);
                lemma_escrow_total_nonneg(self.grants@);
            }
            let res = authorize_debit(
                &g.custody,
                &mut g2.escrow,
                &mut self.ledger,
                g.employee,
                releasable_amount,
            );
            match res {
                Ok(()) => {},
                Err(_) => {
                    proof {
                        assert(false);
                    }
                    return Err(TokenVestingError::TransferFailed);
                },
            }
            let issued2 = match g.already_issued_token_amount.checked_add(releasable_amount) {
                Some(v) => v,
                None => {
                    proof {
                        assert(false);
                    }
                    return Err(TokenVestingError::ArithmeticOverflow);
                },
            };
            g2.already_issued_token_amount = issued2;
            let ghost s0 = self.grants@;
            self.grants[i] = g2;
            proof {
                lemma_escrow_total_update(s0, i as int, g2);
                lemma_seq_grant_update(s0, i as int, g2);
                assert(forall|k: int| 0 <= k < s0.len() && k != i ==> self.grants@[k] == s0[k]);
            }
            Ok(releasable_amount)
        } else {
            Ok(releasable_amount)
        }
    }

    /// How a successful Revoke changes the state: the employee is
    /// paid whatever the schedule had unlocked and not yet issued as
    /// of `now`, the escrow's entire remaining balance is returned to
    /// the employer and the escrow is left empty, the record turns
    /// terminal, and value is conserved: what the employee ever
    /// received plus the employer's refund is exactly the grant total.
    pub open spec fn revoke_transition(
        self,
        post: Self,
        employer: u64,
        employee: u64,
        now: u64,
    ) -> bool {
        &&& (self.spec_grant(employer, employee) matches Some(g) && ({
            let pay = releasable(g.params, g.already_issued_token_amount, now);
            let issued2 = g.already_issued_token_amount + pay;
            let refund = g.params.grant_token_amount - issued2;
            &&& (post.spec_grant(employer, employee) matches Some(g2) && g2.params == g.params
                && g2.already_issued_token_amount == issued2 && g2.revoked && g2.initialized
                && g2.employer == employer && g2.employee == employee && g2.mint == g.mint)
            &&& post.spec_escrow_balance(employer, employee) == 0
            &&& post.spec_balance(employee) == self.spec_balance(employee) + pay
            &&& post.spec_balance(employer) == self.spec_balance(employer) + refund
            &&& issued2 + refund == g.params.grant_token_amount
            &&& forall|o: u64|
                o != employee && o != employer ==> post.spec_balance(o) == self.spec_balance(o)
        }))
        &&& forall|e1: u64, e2: u64|
            !(e1 == employer && e2 == employee) ==> #[trigger] post.spec_grant(e1, e2)
                == self.spec_grant(e1, e2)
        &&& forall|e1: u64, e2: u64|
            !(e1 == employer && e2 == employee) ==> #[trigger] post.spec_escrow_balance(e1, e2)
                == self.spec_escrow_balance(e1, e2)
        &&& post.total_supply() == self.total_supply()
    }

    /// Terminates a grant early: pays the employee the currently
    /// releasable amount, drains the escrow's actual remaining balance
    /// back to the employer, and marks the record revoked, all as one
    /// unit.  Only the stored employer may call it, only once: a
    /// second call is refused with `AlreadyRevoked` and changes
    /// nothing, as does every other refusal.
    pub fn revoke(&mut self, employer: u64, employee: u64, caller: u64, now: u64) -> (r: Result<
        (),
        TokenVestingError,
    >)
        requires
            old(self).wf(),
        ensures
            final(self).wf(),
            match r {
                Ok(()) => (old(self).spec_grant(employer, employee) matches Some(g) && !g.revoked
                    && caller == employer)
                    && old(self).revoke_transition(*final(self), employer, employee, now),
                Err(TokenVestingError::NotInitialized) => old(self).spec_grant(employer, employee) is None
                    && old(self).same_state(*final(self)),
                Err(TokenVestingError::NotAuthorized) => (old(self).spec_grant(employer, employee) matches Some(g)
                    && caller != g.employer) && old(self).same_state(*final(self)),
                Err(TokenVestingError::AlreadyRevoked) => (old(self).spec_grant(employer, employee) matches Some(g)
                    && caller == g.employer && g.revoked) && old(self).same_state(*final(self)),
                Err(_) => false,
            },
    {
        let i = match self.find_grant(employer, employee) {
            None => {
                return Err(TokenVestingError::NotInitialized);
            },
            Some(i) => i,
        };
        proof {
            lemma_pair_at(self.grants@, i as int);
            assert(grant_ok(self.grants@[i as int]));
        }
        let g = self.grants[i];
        if caller != g.employer {
            return Err(TokenVestingError::NotAuthorized);
        }
        if g.revoked {
            return Err(TokenVestingError::AlreadyRevoked);
        }
        let vesting = match get_vesting_instance(
            &g.params,
            GrantStateParams {
                revoked: g.revoked,
                already_issued_token_amount: g.already_issued_token_amount,
            },
        ) {
            Ok(v) => v,
            Err(e) => {
                proof {
                    assert(false);
                }
                return Err(e);
            },
        };
        let releasable_amount = vesting.get_releasable_amount(now);
        proof {
            lemma_vested_bounds(g.params, now);
            self.ledger.lemma_balance_le_total(g.employee);
            lemma_escrow_le_total(self.grants@, i as int);
            lemma_escrow_total_nonneg(self.grants@);
        }
        let mut g2 = g;
        if releasable_amount > 0 {
            let res = authorize_debit(
                &g.custody,
                &mut g2.escrow,
                &mut self.ledger,
                g.employee,
                releasable_amount,
            );
            match res {
                Ok(()) => {},
                Err(_) => {
                    proof {
                        assert(false);
                    }
                    return Err(TokenVestingError::TransferFailed);
                },
            }
            let issued2 = match g.already_issued_token_amount.checked_add(releasable_amount) {
                Some(v) => v,
                None => {
                    proof {
                        assert(false);
                    }
                    return Err(TokenVestingError::ArithmeticOverflow);
                },
            };
            g2.already_issued_token_amount = issued2;
        }
        let refund = g2.escrow.balance();
        proof {
            self.ledger.lemma_balance_le_total(g.employer);
        }
        let res2 = authorize_debit(&g.custody, &mut g2.escrow, &mut self.ledger, g.employer, refund);
        match res2 {
            Ok(()) => {},
            Err(_) => {
                proof {
                    assert(false);
                }
                return Err(TokenVestingError::TransferFailed);
            },
        }
        g2.revoked = true;
        let ghost s0 = self.grants@;
        self.grants[i] = g2;
        proof {
            lemma_escrow_total_update(s0, i as int, g2);
            lemma_seq_grant_update(s0, i as int, g2);
            assert(forall|k: int| 0 <= k < s0.len() && k != i ==> self.grants@[k] == s0[k]);
        }
        Ok(())
    }

    /// The custody invariant of every reachable state.  `new`
    /// establishes `wf` and every operation preserves it, so in any
    /// state a caller can ever hold: a grant's cumulative issuance
    /// lies between zero and its total, its schedule is valid, and
    /// its escrow holds exactly the unissued remainder while the
    /// grant is live and nothing once it is revoked.
    pub proof fn lemma_reachable_grant_bounds(self, employer: u64, employee: u64)
        requires
            self.wf(),
        ensures
            self.spec_grant(employer, employee) matches Some(g) ==> {
                &&& 0 <= g.already_issued_token_amount <= g.params.grant_token_amount
                &&& valid_params(g.params)
                &&& g.initialized
                &&& g.employer == employer
                &&& g.employee == employee
                &&& self.spec_escrow_balance(employer, employee) == if g.revoked {
                    0int
                } else {
                    g.params.grant_token_amount - g.already_issued_token_amount
                }
            },
    {
        if has_pair(self.grants@, employer, employee) {
            let j = pair_index(self.grants@, employer, employee);
            assert(0 <= j < self.grants@.len() && self.grants@[j].employer == employer
                && self.grants@[j].employee == employee);
            assert(grant_ok(self.grants@[j]));
        }
    }

    /// The amount currently held in escrow for the pair.
    pub fn escrow_balance(&self, employer: u64, employee: u64) -> (r: u64)
        requires
            self.wf(),
        ensures
            r == self.spec_escrow_balance(employer, employee),
    {
        match self.find_grant(employer, employee) {
            Some(i) => {
                proof {
                    lemma_pair_at(self.grants@, i as int);
                }
                self.grants[i].escrow.balance()
            },
            None => 0,
        }
    }
}

} // verus!
