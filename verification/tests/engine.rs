use token_vesting_program::engine::{
    get_vesting_instance, vested_amount, GrantInputParams, GrantStateParams,
};
use token_vesting_program::errors::TokenVestingError;

fn schedule(
    cliff_seconds: u64,
    duration_seconds: u64,
    seconds_per_slice: u64,
    start_unix: u64,
    grant_token_amount: u64,
) -> GrantInputParams {
    GrantInputParams {
        cliff_seconds,
        duration_seconds,
        seconds_per_slice,
        start_unix,
        grant_token_amount,
    }
}

fn fresh_state() -> GrantStateParams {
    GrantStateParams { revoked: false, already_issued_token_amount: 0 }
}

#[test]
fn vested_halfway_through_linear_schedule() {
    let p = schedule(0, 100, 10, 1000, 1000);
    assert_eq!(vested_amount(&p, 1050), 500);
}

#[test]
fn partial_slice_does_not_vest() {
    let p = schedule(0, 100, 10, 1000, 1000);
    assert_eq!(vested_amount(&p, 1055), 500);
    assert_eq!(vested_amount(&p, 1059), 500);
    assert_eq!(vested_amount(&p, 1060), 600);
}

#[test]
fn nothing_vests_before_cliff() {
    let p = schedule(30, 100, 10, 1000, 1000);
    assert_eq!(vested_amount(&p, 1010), 0);
    assert_eq!(vested_amount(&p, 1029), 0);
    assert_eq!(vested_amount(&p, 1030), 300);
}

#[test]
fn nothing_vests_before_start() {
    let p = schedule(0, 100, 10, 1000, 1000);
    assert_eq!(vested_amount(&p, 0), 0);
    assert_eq!(vested_amount(&p, 999), 0);
    assert_eq!(vested_amount(&p, 1000), 0);
}

#[test]
fn everything_vests_at_duration() {
    let p = schedule(30, 100, 10, 1000, 1000);
    assert_eq!(vested_amount(&p, 1100), 1000);
    assert_eq!(vested_amount(&p, u64::MAX), 1000);
}

#[test]
fn slice_longer_than_duration_vests_only_at_end() {
    let p = schedule(0, 100, 400, 1000, 1000);
    assert_eq!(vested_amount(&p, 1050), 0);
    assert_eq!(vested_amount(&p, 1099), 0);
    assert_eq!(vested_amount(&p, 1100), 1000);
}

#[test]
fn uneven_slice_truncates_until_duration() {
    // 100 seconds in slices of 30: three whole slices, the remainder
    // unlocks only once the full duration has elapsed.
    let p = schedule(0, 100, 30, 1000, 1000);
    assert_eq!(vested_amount(&p, 1029), 0);
    assert_eq!(vested_amount(&p, 1030), 333);
    assert_eq!(vested_amount(&p, 1090), 1000);
    assert_eq!(vested_amount(&p, 1099), 1000);
    assert_eq!(vested_amount(&p, 1100), 1000);
}

#[test]
fn large_amounts_do_not_overflow() {
    let p = schedule(0, 1_000_000, 1, 1_000_000, u64::MAX);
    assert_eq!(vested_amount(&p, 1_500_000), u64::MAX / 2);
    assert_eq!(vested_amount(&p, 2_000_000), u64::MAX);
}

#[test]
fn releasable_subtracts_already_issued() {
    let p = schedule(0, 100, 10, 1000, 1000);
    let v = get_vesting_instance(
        &p,
        GrantStateParams { revoked: false, already_issued_token_amount: 300 },
    )
    .unwrap();
    assert_eq!(v.get_releasable_amount(1050), 200);
}

#[test]
fn releasable_clamps_to_zero_on_drift() {
    let p = schedule(0, 100, 10, 1000, 1000);
    let v = get_vesting_instance(
        &p,
        GrantStateParams { revoked: false, already_issued_token_amount: 700 },
    )
    .unwrap();
    assert_eq!(v.get_releasable_amount(1050), 0);
}

#[test]
fn releasable_is_monotonic_in_time() {
    let p = schedule(25, 100, 7, 1000, 999);
    let v = get_vesting_instance(
        &p,
        GrantStateParams { revoked: false, already_issued_token_amount: 100 },
    )
    .unwrap();
    let mut last: u64 = 0;
    for t in 900u64..1200 {
        let r = v.get_releasable_amount(t);
        assert!(r >= last);
        last = r;
    }
}

#[test]
fn zero_duration_is_rejected() {
    let p = schedule(0, 0, 10, 1000, 1000);
    assert_eq!(
        get_vesting_instance(&p, fresh_state()).unwrap_err(),
        TokenVestingError::InvalidParams
    );
}

#[test]
fn zero_slice_is_rejected() {
    let p = schedule(0, 100, 0, 1000, 1000);
    assert_eq!(
        get_vesting_instance(&p, fresh_state()).unwrap_err(),
        TokenVestingError::InvalidParams
    );
}

#[test]
fn cliff_beyond_duration_is_rejected() {
    let p = schedule(200, 100, 10, 1000, 1000);
    assert_eq!(
        get_vesting_instance(&p, fresh_state()).unwrap_err(),
        TokenVestingError::InvalidParams
    );
}

#[test]
fn zero_amount_is_rejected() {
    let p = schedule(0, 100, 10, 1000, 0);
    assert_eq!(
        get_vesting_instance(&p, fresh_state()).unwrap_err(),
        TokenVestingError::InvalidParams
    );
}

#[test]
fn valid_schedule_is_accepted() {
    let p = schedule(100, 100, 10, 1000, 1);
    let v = get_vesting_instance(
        &p,
        GrantStateParams { revoked: true, already_issued_token_amount: 1 },
    )
    .unwrap();
    assert_eq!(v.params, p);
    assert!(v.revoked);
    assert_eq!(v.already_issued_token_amount, 1);
}
