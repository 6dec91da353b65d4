use vstd::prelude::*;

pub mod account;
pub mod config;
pub mod contract;
pub mod error;
pub mod laws;
pub mod reward;

pub use account::{Account, AccountJson};
pub use config::Config;
pub use contract::{PoolJson, PoolState, StakingContract, StorageKey};
pub use error::StakingError;

verus! {

/// Token amount.
pub type Balance = u128;

/// Block height.
pub type BlockHeight = u64;

/// Epoch number.
pub type EpochHeight = u64;

/// Wall-clock time in nanoseconds.
pub type Timestamp = u64;

} // verus!
