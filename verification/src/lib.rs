//! Escrow-based token vesting between a funder (the employer) and a
//! beneficiary (the employee).
//!
//! A grant locks a fixed total amount in a custody account controlled
//! exclusively by this library's logic, then releases it incrementally
//! according to a cliff-plus-linear-slices schedule.  Early termination
//! (revoke) settles both sides: the employee receives everything the
//! schedule has unlocked so far, the employer is refunded the rest.
//!
//! The crate is organised in dependency order:
//! - [`engine`]: pure schedule arithmetic (validation, vested and
//!   releasable amounts) together with the lemmas that pin its shape;
//! - [`ledger`]: an in-memory realization of the atomic value-transfer
//!   collaborator that the lifecycle consumes;
//! - [`pda`] and [`custody`]: the key-less authority that is the sole
//!   controller of a grant's escrow;
//! - [`controller`]: the grant lifecycle state machine
//!   (initialize / withdraw / revoke) with its custody invariants.

pub mod controller;
pub mod custody;
pub mod engine;
pub mod errors;
pub mod ledger;
pub mod pda;
