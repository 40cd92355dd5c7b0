use token_vesting_program::controller::{Grant, GrantLifecycleController};
use token_vesting_program::engine::GrantInputParams;
use token_vesting_program::errors::TokenVestingError;

const EMPLOYER: u64 = 11;
const EMPLOYEE: u64 = 22;
const OUTSIDER: u64 = 33;
const MINT: u64 = 7;

fn linear_schedule() -> GrantInputParams {
    GrantInputParams {
        cliff_seconds: 0,
        duration_seconds: 100,
        seconds_per_slice: 10,
        start_unix: 1000,
        grant_token_amount: 1000,
    }
}

fn funded_controller(employer_balance: u64) -> GrantLifecycleController {
    let mut c = GrantLifecycleController::new();
    assert!(c.fund_account(EMPLOYER, employer_balance));
    c
}

#[test]
fn initialize_moves_total_into_escrow() {
    let mut c = funded_controller(1500);
    c.initialize(EMPLOYER, EMPLOYEE, MINT, linear_schedule()).unwrap();
    assert_eq!(c.balance_of(EMPLOYER), 500);
    assert_eq!(c.escrow_balance(EMPLOYER, EMPLOYEE), 1000);
    let g = c.get_grant(EMPLOYER, EMPLOYEE).unwrap();
    assert_eq!(g.params, linear_schedule());
    assert_eq!(g.already_issued_token_amount, 0);
    assert!(!g.revoked);
    assert!(g.initialized);
    assert_eq!(g.employer, EMPLOYER);
    assert_eq!(g.employee, EMPLOYEE);
    assert_eq!(g.mint, MINT);
}

#[test]
fn withdraw_releases_vested_then_nothing_more() {
    let mut c = funded_controller(1000);
    c.initialize(EMPLOYER, EMPLOYEE, MINT, linear_schedule()).unwrap();
    let released = c.withdraw(EMPLOYER, EMPLOYEE, EMPLOYEE, 1050).unwrap();
    assert_eq!(released, 500);
    assert_eq!(c.balance_of(EMPLOYEE), 500);
    assert_eq!(c.escrow_balance(EMPLOYER, EMPLOYEE), 500);
    assert_eq!(
        c.get_grant(EMPLOYER, EMPLOYEE).unwrap().already_issued_token_amount,
        500
    );
    let again = c.withdraw(EMPLOYER, EMPLOYEE, EMPLOYEE, 1050).unwrap();
    assert_eq!(again, 0);
    assert_eq!(c.balance_of(EMPLOYEE), 500);
    assert_eq!(
        c.get_grant(EMPLOYER, EMPLOYEE).unwrap().already_issued_token_amount,
        500
    );
}

#[test]
fn withdraw_before_cliff_releases_nothing() {
    let mut c = funded_controller(1000);
    let mut p = linear_schedule();
    p.cliff_seconds = 30;
    c.initialize(EMPLOYER, EMPLOYEE, MINT, p).unwrap();
    let released = c.withdraw(EMPLOYER, EMPLOYEE, EMPLOYEE, 1010).unwrap();
    assert_eq!(released, 0);
    assert_eq!(c.balance_of(EMPLOYEE), 0);
    assert_eq!(c.escrow_balance(EMPLOYER, EMPLOYEE), 1000);
}

#[test]
fn issued_amount_never_decreases_over_withdrawals() {
    let mut c = funded_controller(1000);
    c.initialize(EMPLOYER, EMPLOYEE, MINT, linear_schedule()).unwrap();
    let mut last_issued: u64 = 0;
    for t in [1000, 1015, 1015, 1049, 1050, 1090, 1100, 1200] {
        c.withdraw(EMPLOYER, EMPLOYEE, EMPLOYEE, t).unwrap();
        let issued = c.get_grant(EMPLOYER, EMPLOYEE).unwrap().already_issued_token_amount;
        assert!(issued >= last_issued);
        last_issued = issued;
    }
    assert_eq!(last_issued, 1000);
    assert_eq!(c.balance_of(EMPLOYEE), 1000);
    assert_eq!(c.escrow_balance(EMPLOYER, EMPLOYEE), 0);
}

#[test]
fn revoke_settles_both_sides() {
    let mut c = funded_controller(1000);
    c.initialize(EMPLOYER, EMPLOYEE, MINT, linear_schedule()).unwrap();
    assert_eq!(c.withdraw(EMPLOYER, EMPLOYEE, EMPLOYEE, 1050).unwrap(), 500);
    c.revoke(EMPLOYER, EMPLOYEE, EMPLOYER, 1050).unwrap();
    // vested(1050) == 500 == issued: the employee is paid nothing more,
    // the employer gets the remaining escrow balance back.
    assert_eq!(c.balance_of(EMPLOYEE), 500);
    assert_eq!(c.balance_of(EMPLOYER), 500);
    assert_eq!(c.escrow_balance(EMPLOYER, EMPLOYEE), 0);
    let g = c.get_grant(EMPLOYER, EMPLOYEE).unwrap();
    assert!(g.revoked);
    // Conservation: issued plus refund is the grant total.
    assert_eq!(g.already_issued_token_amount + c.balance_of(EMPLOYER), 1000);
}

#[test]
fn revoke_pays_outstanding_vested_amount_first() {
    let mut c = funded_controller(1000);
    c.initialize(EMPLOYER, EMPLOYEE, MINT, linear_schedule()).unwrap();
    c.revoke(EMPLOYER, EMPLOYEE, EMPLOYER, 1070).unwrap();
    assert_eq!(c.balance_of(EMPLOYEE), 700);
    assert_eq!(c.balance_of(EMPLOYER), 300);
    assert_eq!(c.escrow_balance(EMPLOYER, EMPLOYEE), 0);
    assert_eq!(
        c.get_grant(EMPLOYER, EMPLOYEE).unwrap().already_issued_token_amount,
        700
    );
}

#[test]
fn second_revoke_is_refused_and_changes_nothing() {
    let mut c = funded_controller(1000);
    c.initialize(EMPLOYER, EMPLOYEE, MINT, linear_schedule()).unwrap();
    c.revoke(EMPLOYER, EMPLOYEE, EMPLOYER, 1050).unwrap();
    let employer_before = c.balance_of(EMPLOYER);
    let employee_before = c.balance_of(EMPLOYEE);
    let g_before = c.get_grant(EMPLOYER, EMPLOYEE).unwrap();
    assert_eq!(
        c.revoke(EMPLOYER, EMPLOYEE, EMPLOYER, 1090).unwrap_err(),
        TokenVestingError::AlreadyRevoked
    );
    assert_eq!(c.balance_of(EMPLOYER), employer_before);
    assert_eq!(c.balance_of(EMPLOYEE), employee_before);
    assert_eq!(c.get_grant(EMPLOYER, EMPLOYEE).unwrap(), g_before);
}

#[test]
fn withdraw_after_revoke_is_refused() {
    let mut c = funded_controller(1000);
    c.initialize(EMPLOYER, EMPLOYEE, MINT, linear_schedule()).unwrap();
    c.revoke(EMPLOYER, EMPLOYEE, EMPLOYER, 1050).unwrap();
    assert_eq!(
        c.withdraw(EMPLOYER, EMPLOYEE, EMPLOYEE, 1100).unwrap_err(),
        TokenVestingError::AlreadyRevoked
    );
}

#[test]
fn outsider_cannot_withdraw() {
    let mut c = funded_controller(1000);
    c.initialize(EMPLOYER, EMPLOYEE, MINT, linear_schedule()).unwrap();
    assert_eq!(
        c.withdraw(EMPLOYER, EMPLOYEE, OUTSIDER, 1050).unwrap_err(),
        TokenVestingError::NotAuthorized
    );
    // The employer cannot pose as the employee either.
    assert_eq!(
        c.withdraw(EMPLOYER, EMPLOYEE, EMPLOYER, 1050).unwrap_err(),
        TokenVestingError::NotAuthorized
    );
    assert_eq!(
        c.get_grant(EMPLOYER, EMPLOYEE).unwrap().already_issued_token_amount,
        0
    );
    assert_eq!(c.balance_of(OUTSIDER), 0);
    assert_eq!(c.balance_of(EMPLOYEE), 0);
}

#[test]
fn outsider_cannot_revoke() {
    let mut c = funded_controller(1000);
    c.initialize(EMPLOYER, EMPLOYEE, MINT, linear_schedule()).unwrap();
    assert_eq!(
        c.revoke(EMPLOYER, EMPLOYEE, OUTSIDER, 1050).unwrap_err(),
        TokenVestingError::NotAuthorized
    );
    assert_eq!(
        c.revoke(EMPLOYER, EMPLOYEE, EMPLOYEE, 1050).unwrap_err(),
        TokenVestingError::NotAuthorized
    );
    assert!(!c.get_grant(EMPLOYER, EMPLOYEE).unwrap().revoked);
}

#[test]
fn lifecycle_on_missing_grant_is_refused() {
    let mut c = funded_controller(1000);
    assert_eq!(
        c.withdraw(EMPLOYER, EMPLOYEE, EMPLOYEE, 1050).unwrap_err(),
        TokenVestingError::NotInitialized
    );
    assert_eq!(
        c.revoke(EMPLOYER, EMPLOYEE, EMPLOYER, 1050).unwrap_err(),
        TokenVestingError::NotInitialized
    );
}

#[test]
fn invalid_schedule_creates_nothing_and_moves_nothing() {
    let mut c = funded_controller(1000);
    let mut p = linear_schedule();
    p.cliff_seconds = 200;
    assert_eq!(
        c.initialize(EMPLOYER, EMPLOYEE, MINT, p).unwrap_err(),
        TokenVestingError::InvalidParams
    );
    assert_eq!(c.balance_of(EMPLOYER), 1000);
    assert!(c.get_grant(EMPLOYER, EMPLOYEE).is_none());
    assert_eq!(
        c.withdraw(EMPLOYER, EMPLOYEE, EMPLOYEE, 1050).unwrap_err(),
        TokenVestingError::NotInitialized
    );
}

#[test]
fn underfunded_employer_cannot_initialize() {
    let mut c = funded_controller(999);
    assert_eq!(
        c.initialize(EMPLOYER, EMPLOYEE, MINT, linear_schedule()).unwrap_err(),
        TokenVestingError::TransferFailed
    );
    assert_eq!(c.balance_of(EMPLOYER), 999);
    assert!(c.get_grant(EMPLOYER, EMPLOYEE).is_none());
}

#[test]
fn one_grant_per_identity_pair() {
    let mut c = funded_controller(3000);
    c.initialize(EMPLOYER, EMPLOYEE, MINT, linear_schedule()).unwrap();
    assert_eq!(
        c.initialize(EMPLOYER, EMPLOYEE, MINT, linear_schedule()).unwrap_err(),
        TokenVestingError::InvalidParams
    );
    // A different pair is fine, and the two grants settle independently.
    c.initialize(EMPLOYER, OUTSIDER, MINT, linear_schedule()).unwrap();
    assert_eq!(c.withdraw(EMPLOYER, EMPLOYEE, EMPLOYEE, 1050).unwrap(), 500);
    assert_eq!(c.escrow_balance(EMPLOYER, OUTSIDER), 1000);
    assert_eq!(c.escrow_balance(EMPLOYER, EMPLOYEE), 500);
}

#[test]
fn a_revoked_pair_cannot_be_reinitialized() {
    let mut c = funded_controller(2000);
    c.initialize(EMPLOYER, EMPLOYEE, MINT, linear_schedule()).unwrap();
    c.revoke(EMPLOYER, EMPLOYEE, EMPLOYER, 1000).unwrap();
    assert_eq!(
        c.initialize(EMPLOYER, EMPLOYEE, MINT, linear_schedule()).unwrap_err(),
        TokenVestingError::InvalidParams
    );
}

#[test]
fn identical_parties_are_rejected() {
    let mut c = funded_controller(1000);
    assert_eq!(
        c.initialize(EMPLOYER, EMPLOYER, MINT, linear_schedule()).unwrap_err(),
        TokenVestingError::InvalidParams
    );
}

#[test]
fn persisted_record_has_a_fixed_size() {
    let mut c = funded_controller(1000);
    c.initialize(EMPLOYER, EMPLOYEE, MINT, linear_schedule()).unwrap();
    c.withdraw(EMPLOYER, EMPLOYEE, EMPLOYEE, 1050).unwrap();
    let g = c.get_grant(EMPLOYER, EMPLOYEE).unwrap();
    let bytes = g.record_bytes();
    assert_eq!(bytes.len(), Grant::LEN);
    assert_eq!(bytes.len(), 77);
    // The schedule integers lead, little endian; the issued amount
    // follows them.
    assert_eq!(&bytes[0..8], 0u64.to_le_bytes().as_slice());
    assert_eq!(&bytes[8..16], 100u64.to_le_bytes().as_slice());
    assert_eq!(&bytes[16..24], 10u64.to_le_bytes().as_slice());
    assert_eq!(&bytes[24..32], 1000u64.to_le_bytes().as_slice());
    assert_eq!(&bytes[32..40], 1000u64.to_le_bytes().as_slice());
    assert_eq!(&bytes[40..48], 500u64.to_le_bytes().as_slice());
    assert_eq!(bytes[48], 0);
    assert_eq!(bytes[49], 1);
}

#[test]
fn funding_is_refused_when_supply_would_overflow() {
    let mut c = GrantLifecycleController::new();
    assert!(c.fund_account(EMPLOYER, u64::MAX));
    assert!(!c.fund_account(EMPLOYEE, 1));
    assert_eq!(c.balance_of(EMPLOYEE), 0);
}
