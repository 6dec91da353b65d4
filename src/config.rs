use vstd::prelude::*;

use crate::error::StakingError;
use crate::EpochHeight;

verus! {

/// Epochs that unstaked principal stays locked before it can be withdrawn.
pub const NUM_EPOCHS_TO_UNLOCK: EpochHeight = 1;

/// Numerator of the per-block reward rate of the default configuration.
pub const DEFAULT_REWARD_NUMERATOR: u64 = 715;

/// Denominator of the per-block reward rate of the default configuration.
pub const DEFAULT_REWARD_DENOMINATOR: u64 = 100_000_000_000;

/// The per-block reward rate `reward_numerator / reward_denominator`, fixed
/// when the contract is created.
#[derive(Clone, Copy, Debug, PartialEq, Eq, Structural)]
pub struct Config {
    pub reward_numerator: u64,
    pub reward_denominator: u64,
}

impl Config {
    pub open spec fn valid(self) -> bool {
        self.reward_denominator > 0
    }

    /// A rate with the given parts; a zero denominator is refused.
    pub fn new(reward_numerator: u64, reward_denominator: u64) -> (r: Result<Config, StakingError>)
        ensures
            reward_denominator == 0 ==> r == Err::<Config, StakingError>(
                StakingError::InvalidConfig,
            ),
            reward_denominator > 0 ==> r == Ok::<Config, StakingError>(
                (Config { reward_numerator, reward_denominator }),
            ),
    {
        if reward_denominator == 0 {
            Err(StakingError::InvalidConfig)
        } else {
            Ok(Config { reward_numerator, reward_denominator })
        }
    }
}

impl Default for Config {
    fn default() -> (r: Config)
        ensures
            r.reward_numerator == DEFAULT_REWARD_NUMERATOR,
            r.reward_denominator == DEFAULT_REWARD_DENOMINATOR,
    {
        Config {
            reward_numerator: DEFAULT_REWARD_NUMERATOR,
            reward_denominator: DEFAULT_REWARD_DENOMINATOR,
        }
    }
}

} // verus!
