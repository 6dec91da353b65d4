use vstd::prelude::*;

use crate::{Balance, BlockHeight, EpochHeight, Timestamp};

verus! {

/// The per-account ledger entry: staked principal, realized reward and the
/// checkpoint from which reward is still to be realized, and the principal
/// that waits for its lock-up to end.
#[derive(Clone, Copy, Debug, PartialEq, Eq, Structural)]
pub struct Account {
    pub stake_balance: Balance,
    pub pre_reward: Balance,
    pub last_block_balance_change: BlockHeight,
    pub unstake_balance: Balance,
    pub unstake_start_timestamp: Timestamp,
    pub unstake_available_epoch: EpochHeight,
}

/// What a caller sees of one account: balances, realized plus unrealized
/// reward, and whether the pending unstake can be withdrawn now.
#[derive(Debug)]
pub struct AccountJson {
    pub account_id: String,
    pub stake_balance: Balance,
    pub unstake_balance: Balance,
    pub reward: Balance,
    pub can_withdraw: bool,
    pub unstake_start_timestamp: Timestamp,
    pub unstake_available_epoch: EpochHeight,
    pub current_epoch: EpochHeight,
}

impl Account {
    /// A freshly registered account: everything zero but the checkpoint.
    pub open spec fn spec_registered(checkpoint: BlockHeight) -> Account {
        Account {
            stake_balance: 0,
            pre_reward: 0,
            last_block_balance_change: checkpoint,
            unstake_balance: 0,
            unstake_start_timestamp: 0,
            unstake_available_epoch: 0,
        }
    }

    /// The pending unstake is non-empty and its lock-up has ended.
    pub open spec fn spec_withdrawable(self, current_epoch: EpochHeight) -> bool {
        self.unstake_balance > 0 && current_epoch >= self.unstake_available_epoch
    }

    pub fn registered(checkpoint: BlockHeight) -> (r: Account)
        ensures
            r == Account::spec_registered(checkpoint),
    {
        Account {
            stake_balance: 0,
            pre_reward: 0,
            last_block_balance_change: checkpoint,
            unstake_balance: 0,
            unstake_start_timestamp: 0,
            unstake_available_epoch: 0,
        }
    }

    pub fn can_withdraw(&self, current_epoch: EpochHeight) -> (r: bool)
        ensures
            r == self.spec_withdrawable(current_epoch),
    {
        self.unstake_balance > 0 && current_epoch >= self.unstake_available_epoch
    }
}

impl AccountJson {
    /// The view of `account`, given the reward accrued since its checkpoint.
    pub fn from(
        account_id: String,
        new_reward: Balance,
        account: Account,
        current_epoch: EpochHeight,
    ) -> (r: AccountJson)
        requires
            account.pre_reward + new_reward <= u128::MAX,
        ensures
            r.account_id == account_id,
            r.stake_balance == account.stake_balance,
            r.unstake_balance == account.unstake_balance,
            r.reward == account.pre_reward + new_reward,
            r.can_withdraw == account.spec_withdrawable(current_epoch),
            r.unstake_start_timestamp == account.unstake_start_timestamp,
            r.unstake_available_epoch == account.unstake_available_epoch,
            r.current_epoch == current_epoch,
    {
        AccountJson {
            account_id,
            stake_balance: account.stake_balance,
            unstake_balance: account.unstake_balance,
            reward: account.pre_reward + new_reward,
            can_withdraw: account.can_withdraw(current_epoch),
            unstake_start_timestamp: account.unstake_start_timestamp,
            unstake_available_epoch: account.unstake_available_epoch,
            current_epoch,
        }
    }
}

} // verus!
