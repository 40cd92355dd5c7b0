//! The vesting schedule engine: pure, stateless computation.
//!
//! A schedule unlocks a fixed total amount over time: nothing before the
//! cliff, everything once the full duration has elapsed, and in between a
//! pro-rata share of the total for each completed slice.  Floor division
//! is deliberate throughout: a partially elapsed slice does not vest.

use vstd::arithmetic::div_mod::{
    lemma_div_is_ordered, lemma_div_of0, lemma_div_pos_is_pos, lemma_multiply_divide_le,
};
use vstd::arithmetic::mul::{
    lemma_mul_inequality, lemma_mul_left_inequality, lemma_mul_nonnegative,
    lemma_mul_upper_bound,
};
use vstd::prelude::*;

use crate::errors::TokenVestingError;

verus! {

/// The immutable parameters of a grant: its schedule and total amount.
#[derive(Clone, Copy, PartialEq, Eq, Structural, Debug)]
pub struct GrantInputParams {
    /// Minimum elapsed seconds before any amount vests.
    pub cliff_seconds: u64,
    /// Elapsed seconds after which the whole amount has vested.
    pub duration_seconds: u64,
    /// Length in seconds of one vesting slice.
    pub seconds_per_slice: u64,
    /// Absolute start of the schedule, in unix seconds.
    pub start_unix: u64,
    /// The total amount the grant locks and eventually releases.
    pub grant_token_amount: u64,
}

/// The mutable issuance state of a grant, as the engine sees it.
#[derive(Clone, Copy, PartialEq, Eq, Structural, Debug)]
pub struct GrantStateParams {
    /// Whether the grant has been revoked.
    pub revoked: bool,
    /// Cumulative amount ever released to the employee.
    pub already_issued_token_amount: u64,
}

/// A validated schedule together with the issuance state it is read
/// against.  Constructed by [`get_vesting_instance`], which is the only
/// path that admits a schedule into the engine.
#[derive(Clone, Copy, PartialEq, Eq, Structural, Debug)]
pub struct Vesting {
    /// The validated schedule parameters.
    pub params: GrantInputParams,
    /// Whether the grant has been revoked.
    pub revoked: bool,
    /// Cumulative amount ever released to the employee.
    pub already_issued_token_amount: u64,
}

/// What `validate` accepts: a positive duration and slice length, a
/// cliff no longer than the duration, and a positive total amount.
pub open spec fn valid_params(p: GrantInputParams) -> bool {
    &&& p.duration_seconds > 0
    &&& p.seconds_per_slice > 0
    &&& p.cliff_seconds <= p.duration_seconds
    &&& p.grant_token_amount > 0
}

/// Seconds elapsed since the schedule's start, clamped at zero.
pub open spec fn elapsed_of(p: GrantInputParams, now: u64) -> int {
    if now <= p.start_unix {
        0
    } else {
        now - p.start_unix
    }
}

/// How many whole slices the schedule's duration contains.
pub open spec fn total_slices_of(p: GrantInputParams) -> int {
    p.duration_seconds as int / p.seconds_per_slice as int
}

/// The cumulative amount the schedule has unlocked as of `now`,
/// independent of withdrawals: zero before the cliff, the whole amount
/// once the duration has elapsed, and otherwise a floor-divided
/// pro-rata share of the completed slices.  When the slice length
/// exceeds the duration no slice ever completes early, so nothing
/// vests until the duration has elapsed.
pub open spec fn vested(p: GrantInputParams, now: u64) -> int {
    let e = elapsed_of(p, now);
    if e < p.cliff_seconds {
        0
    } else if e >= p.duration_seconds {
        p.grant_token_amount as int
    } else if total_slices_of(p) == 0 {
        0
    } else {
        (p.grant_token_amount * (e / p.seconds_per_slice as int)) / total_slices_of(p)
    }
}

/// What may be withdrawn now: the vested amount minus what was already
/// issued, clamped at zero so accounting drift can never make it
/// negative.
pub open spec fn releasable(p: GrantInputParams, issued: u64, now: u64) -> int {
    if vested(p, now) >= issued {
        vested(p, now) - issued
    } else {
        0
    }
}

/// The vested amount always lies between zero and the grant's total.
pub proof fn lemma_vested_bounds(p: GrantInputParams, now: u64)
    requires
        valid_params(p),
    ensures
        0 <= vested(p, now) <= p.grant_token_amount,
{
    let e = elapsed_of(p, now);
    let t = p.grant_token_amount as int;
    let s = p.seconds_per_slice as int;
    let ts = total_slices_of(p);
    if e < p.cliff_seconds {
    } else if e >= p.duration_seconds {
    } else if ts == 0 {
    } else {
        let se = e / s;
        lemma_div_pos_is_pos(e, s);
        lemma_mul_nonnegative(t, se);
        lemma_div_pos_is_pos(t * se, ts);
        lemma_div_is_ordered(e, p.duration_seconds as int, s);
        lemma_mul_inequality(se, ts, t);
        lemma_multiply_divide_le(t * se, ts, t);
    }
}

/// Vesting is monotonically non-decreasing in time.
pub proof fn lemma_vested_monotonic(p: GrantInputParams, t1: u64, t2: u64)
    requires
        valid_params(p),
        t1 <= t2,
    ensures
        vested(p, t1) <= vested(p, t2),
{
    let e1 = elapsed_of(p, t1);
    let e2 = elapsed_of(p, t2);
    let t = p.grant_token_amount as int;
    let s = p.seconds_per_slice as int;
    let ts = total_slices_of(p);
    lemma_vested_bounds(p, t1);
    lemma_vested_bounds(p, t2);
    if e1 >= p.cliff_seconds && e1 < p.duration_seconds && e2 < p.duration_seconds && ts != 0 {
        lemma_div_is_ordered(e1, e2, s);
        lemma_mul_left_inequality(t, e1 / s, e2 / s);
        lemma_div_is_ordered(t * (e1 / s), t * (e2 / s), ts);
    }
}

/// With the issued amount held fixed, the releasable amount is
/// monotonically non-decreasing in time.
pub proof fn lemma_releasable_monotonic(p: GrantInputParams, issued: u64, t1: u64, t2: u64)
    requires
        valid_params(p),
        t1 <= t2,
    ensures
        releasable(p, issued, t1) <= releasable(p, issued, t2),
{
    lemma_vested_monotonic(p, t1, t2);
}

/// Nothing vests strictly before the cliff has elapsed.
pub proof fn lemma_vested_zero_before_cliff(p: GrantInputParams, now: u64)
    requires
        valid_params(p),
        (now as int) < p.start_unix + p.cliff_seconds,
    ensures
        vested(p, now) == 0,
{
    let e = elapsed_of(p, now);
    let s = p.seconds_per_slice as int;
    let ts = total_slices_of(p);
    if e >= p.cliff_seconds {
        lemma_div_of0(s);
        if ts != 0 {
            lemma_div_of0(ts);
        }
    }
}

/// Once the full duration has elapsed, the whole amount has vested.
pub proof fn lemma_vested_total_after_duration(p: GrantInputParams, now: u64)
    requires
        valid_params(p),
        now as int >= p.start_unix + p.duration_seconds,
    ensures
        vested(p, now) == p.grant_token_amount,
{
}

/// Validates schedule parameters and, when they pass, pairs them with
/// the issuance state as a [`Vesting`] instance; invalid parameters are
/// rejected with [`TokenVestingError::InvalidParams`].
pub fn get_vesting_instance(params: &GrantInputParams, state: GrantStateParams) -> (r: Result<
    Vesting,
    TokenVestingError,
>)
    ensures
        match r {
            Ok(v) => valid_params(*params) && v == (Vesting {
                params: *params,
                revoked: state.revoked,
                already_issued_token_amount: state.already_issued_token_amount,
            }),
            Err(e) => e == TokenVestingError::InvalidParams && !valid_params(*params),
        },
{
    if params.duration_seconds == 0 || params.seconds_per_slice == 0
        || params.cliff_seconds > params.duration_seconds || params.grant_token_amount == 0 {
        return Err(TokenVestingError::InvalidParams);
    }
    Ok(
        Vesting {
            params: *params,
            revoked: state.revoked,
            already_issued_token_amount: state.already_issued_token_amount,
        },
    )
}

/// The cumulative amount unlocked as of `now`, computed with a wide
/// intermediate so the pro-rata product cannot overflow.
pub fn vested_amount(params: &GrantInputParams, now: u64) -> (r: u64)
    requires
        valid_params(*params),
    ensures
        r == vested(*params, now),
        r <= params.grant_token_amount,
{
    proof {
        lemma_vested_bounds(*params, now);
    }
    let elapsed: u64 = if now <= params.start_unix {
        0
    } else {
        now - params.start_unix
    };
    if elapsed < params.cliff_seconds {
        0
    } else if elapsed >= params.duration_seconds {
        params.grant_token_amount
    } else {
        let total_slices: u64 = params.duration_seconds / params.seconds_per_slice;
        if total_slices == 0 {
            0
        } else {
            let slices_elapsed: u64 = elapsed / params.seconds_per_slice;
            proof {
                lemma_mul_upper_bound(
                    params.grant_token_amount as int,
                    u64::MAX as int,
                    slices_elapsed as int,
                    u64::MAX as int,
                );
                assert((u64::MAX as int) * (u64::MAX as int) <= u128::MAX as int)
                    by (nonlinear_arith);
            }
            let wide: u128 = (params.grant_token_amount as u128) * (slices_elapsed as u128);
            let q: u128 = wide / (total_slices as u128);
            q as u64
        }
    }
}

impl Vesting {
    /// A vesting instance is well formed when its schedule passed
    /// validation.
    pub open spec fn wf(self) -> bool {
        valid_params(self.params)
    }

    /// What may be released to the employee as of `current_time_unix`:
    /// the vested amount less what was already issued, never negative.
    pub fn get_releasable_amount(&self, current_time_unix: u64) -> (r: u64)
        requires
            self.wf(),
        ensures
            r == releasable(self.params, self.already_issued_token_amount, current_time_unix),
    {
        let v = vested_amount(&self.params, current_time_unix);
        if v >= self.already_issued_token_amount {
            v - self.already_issued_token_amount
        } else {
            0
        }
    }
}

} // verus!
