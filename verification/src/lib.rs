//! A deterministic fungible-token ledger with time-gated release schedules.
//!
//! The crate tracks ownership of a fixed-supply divisible asset across
//! addresses, supports direct transfer and destruction of holdings, and
//! enforces two independent vesting mechanisms — an owner vesting schedule
//! and a pool gradual-release schedule — that unlock pre-allocated amounts
//! into spendable balance only after scheduled timestamps elapse.
//!
//! The hosting environment (which persists state, supplies the logical
//! clock and authenticates the caller) is an external collaborator: every
//! operation here takes an explicitly passed, exclusively owned [`state::State`]
//! handle together with plain values, and returns plain values.

pub mod contract;
pub mod decimal;
pub mod distribution;
pub mod error;
pub mod ledger;
pub mod metadata;
pub mod msg;
pub mod release;
pub mod state;

pub use state::State;
