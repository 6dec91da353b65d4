use vstd::prelude::*;

use crate::account::{Account, AccountJson};
use crate::config::{Config, NUM_EPOCHS_TO_UNLOCK};
use crate::error::StakingError;
use crate::reward::{accrue_active, spec_active_accrual};
use crate::{Balance, BlockHeight, EpochHeight, Timestamp};

verus! {

/// Key prefixes of the contract's persistent collections.
#[derive(Clone, Copy, Debug, PartialEq, Eq, Structural)]
pub enum StorageKey {
    AccountKey,
}

/// The fleet-wide aggregate, checkpointed the same way as an account.
#[derive(Clone, Copy, Debug, PartialEq, Eq, Structural)]
pub struct PoolState {
    pub total_stake_balance: Balance,
    pub total_paid_reward_balance: Balance,
    /// Number of accounts whose stake is not zero.
    pub total_staker: Balance,
    pub pre_reward: Balance,
    pub last_block_balance_change: BlockHeight,
    pub paused: bool,
    pub paused_in_block: BlockHeight,
}

/// What a caller sees of the pool.
#[derive(Clone, Copy, Debug, PartialEq, Eq, Structural)]
pub struct PoolJson {
    pub total_stake_balance: Balance,
    pub total_reward: Balance,
    pub total_stakers: Balance,
    pub is_paused: bool,
}

/// The staking ledger: configuration, the pool aggregate, every registered
/// account keyed by its identity, and the pauses that have ended, in order.
pub struct StakingContract {
    pub owner_id: String,
    pub ft_contract_id: String,
    pub config: Config,
    pub pool: PoolState,
    pub accounts: Vec<(String, Account)>,
    pub pause_history: Vec<(BlockHeight, BlockHeight)>,
}

/// Sum of the staked principal of all entries.
pub open spec fn sum_stake(entries: Seq<(String, Account)>) -> int
    decreases entries.len(),
{
    if entries.len() == 0 {
        0
    } else {
        sum_stake(entries.drop_last()) + entries.last().1.stake_balance
    }
}

/// Number of entries whose staked principal is not zero.
pub open spec fn count_stakers(entries: Seq<(String, Account)>) -> int
    decreases entries.len(),
{
    if entries.len() == 0 {
        0
    } else {
        count_stakers(entries.drop_last()) + if entries.last().1.stake_balance > 0 {
            1int
        } else {
            0int
        }
    }
}

/// Identities are distinct.
pub open spec fn unique_ids(entries: Seq<(String, Account)>) -> bool {
    forall|i: int, j: int|
        0 <= i < entries.len() && 0 <= j < entries.len() && i != j ==> #[trigger] entries[i].0@
            != #[trigger] entries[j].0@
}

pub proof fn lemma_sums_push(entries: Seq<(String, Account)>, entry: (String, Account))
    ensures
        sum_stake(entries.push(entry)) == sum_stake(entries) + entry.1.stake_balance,
        count_stakers(entries.push(entry)) == count_stakers(entries) + if entry.1.stake_balance
            > 0 {
            1int
        } else {
            0int
        },
{
    assert(entries.push(entry).drop_last() =~= entries);
}

pub proof fn lemma_sums_update(entries: Seq<(String, Account)>, i: int, entry: (String, Account))
    requires
        0 <= i < entries.len(),
    ensures
        sum_stake(entries.update(i, entry)) == sum_stake(entries) - entries[i].1.stake_balance
            + entry.1.stake_balance,
        count_stakers(entries.update(i, entry)) == count_stakers(entries) - (if entries[i].1.stake_balance
            > 0 {
            1int
        } else {
            0int
        }) + (if entry.1.stake_balance > 0 {
            1int
        } else {
            0int
        }),
    decreases entries.len(),
{
    let updated = entries.update(i, entry);
    if i == entries.len() - 1 {
        assert(updated.drop_last() =~= entries.drop_last());
    } else {
        assert(updated.drop_last() =~= entries.drop_last().update(i, entry));
        lemma_sums_update(entries.drop_last(), i, entry);
    }
}

/// Replacing an entry by one with the same identity keeps identities distinct.
pub proof fn lemma_unique_ids_update(entries: Seq<(String, Account)>, i: int, entry: (String, Account))
    requires
        unique_ids(entries),
        0 <= i < entries.len(),
        entry.0@ == entries[i].0@,
    ensures
        unique_ids(entries.update(i, entry)),
{
    assert forall|x: int, y: int|
        0 <= x < entries.len() && 0 <= y < entries.len() && x != y implies #[trigger] entries.update(
        i,
        entry,
    )[x].0@ != #[trigger] entries.update(i, entry)[y].0@ by {
        assert(entries[x].0@ != entries[y].0@);
    }
}

pub proof fn lemma_stake_within_sum(entries: Seq<(String, Account)>, i: int)
    requires
        0 <= i < entries.len(),
    ensures
        entries[i].1.stake_balance <= sum_stake(entries),
        entries[i].1.stake_balance > 0 ==> count_stakers(entries) >= 1,
        count_stakers(entries) <= entries.len(),
    decreases entries.len(),
{
    lemma_sums_nonneg(entries.drop_last());
    if i < entries.len() - 1 {
        lemma_stake_within_sum(entries.drop_last(), i);
    }
}

pub proof fn lemma_sums_nonneg(entries: Seq<(String, Account)>)
    ensures
        sum_stake(entries) >= 0,
        0 <= count_stakers(entries) <= entries.len(),
    decreases entries.len(),
{
    if entries.len() > 0 {
        lemma_sums_nonneg(entries.drop_last());
    }
}

impl StakingContract {
    /// The ledger invariant: a valid rate, distinct identities, and an
    /// aggregate that matches the accounts.
    pub open spec fn wf(&self) -> bool {
        &&& self.config.valid()
        &&& unique_ids(self.accounts@)
        &&& sum_stake(self.accounts@) == self.pool.total_stake_balance
        &&& count_stakers(self.accounts@) == self.pool.total_staker
    }

    pub open spec fn has_account(&self, id: Seq<char>) -> bool {
        exists|i: int| 0 <= i < self.accounts@.len() && #[trigger] self.accounts@[i].0@ == id
    }

    /// Position of the account of `id`; meaningful when `has_account(id)`.
    pub open spec fn index_of(&self, id: Seq<char>) -> int {
        choose|i: int| 0 <= i < self.accounts@.len() && #[trigger] self.accounts@[i].0@ == id
    }

    pub open spec fn account_of(&self, id: Seq<char>) -> Account {
        self.accounts@[self.index_of(id)].1
    }

    /// The block used for accrual: frozen at the pause block while paused.
    pub open spec fn spec_effective_block(&self, current_block: BlockHeight) -> BlockHeight {
        if self.pool.paused {
            self.pool.paused_in_block
        } else {
            current_block
        }
    }

    /// `account` with its pending reward folded in and its checkpoint moved
    /// to the effective block.
    pub open spec fn spec_realize_account(&self, account: Account, current_block: BlockHeight) -> Result<
        Account,
        StakingError,
    > {
        match spec_active_accrual(
            account.stake_balance,
            self.config.reward_numerator,
            self.config.reward_denominator,
            account.last_block_balance_change,
            self.spec_effective_block(current_block),
            self.pause_history@,
        ) {
            Err(e) => Err(e),
            Ok(delta) => if account.pre_reward + delta > u128::MAX {
                Err(StakingError::ArithmeticOverflow)
            } else {
                Ok(
                    Account {
                        pre_reward: (account.pre_reward + delta) as u128,
                        last_block_balance_change: self.spec_effective_block(current_block),
                        ..account
                    },
                )
            },
        }
    }

    /// The pool aggregate with its pending reward folded in, accrued on the
    /// current total stake, and its checkpoint moved to the effective block.
    pub open spec fn spec_realize_pool(&self, current_block: BlockHeight) -> Result<
        PoolState,
        StakingError,
    > {
        match spec_active_accrual(
            self.pool.total_stake_balance,
            self.config.reward_numerator,
            self.config.reward_denominator,
            self.pool.last_block_balance_change,
            self.spec_effective_block(current_block),
            self.pause_history@,
        ) {
            Err(e) => Err(e),
            Ok(delta) => if self.pool.pre_reward + delta > u128::MAX {
                Err(StakingError::ArithmeticOverflow)
            } else {
                Ok(
                    PoolState {
                        pre_reward: (self.pool.pre_reward + delta) as u128,
                        last_block_balance_change: self.spec_effective_block(current_block),
                        ..self.pool
                    },
                )
            },
        }
    }

    pub fn effective_block(&self, current_block: BlockHeight) -> (r: BlockHeight)
        ensures
            r == self.spec_effective_block(current_block),
    {
        if self.pool.paused {
            self.pool.paused_in_block
        } else {
            current_block
        }
    }

    /// Position of the account of `account_id`, if it is registered.
    pub fn find_account(&self, account_id: &String) -> (r: Option<usize>)
        requires
            unique_ids(self.accounts@),
        ensures
            r.is_none() == !self.has_account(account_id@),
            r matches Some(i) ==> i == self.index_of(account_id@) && i < self.accounts@.len(),
    {
        let mut i: usize = 0;
        while i < self.accounts.len()
            invariant
                i <= self.accounts@.len(),
                unique_ids(self.accounts@),
                forall|j: int| 0 <= j < i ==> #[trigger] self.accounts@[j].0@ != account_id@,
            decreases self.accounts@.len() - i,
        {
            if self.accounts[i].0 == *account_id {
                proof {
                    let k = self.index_of(account_id@);
                    assert(self.accounts@[i as int].0@ == account_id@);
                    assert(self.has_account(account_id@));
                    assert(self.accounts@[k].0@ == account_id@);
                    if k != i as int {
                        assert(self.accounts@[i as int].0@ != self.accounts@[k].0@);
                    }
                }
                return Some(i);
            }
            i = i + 1;
        }
        None
    }

    /// Reward that `account` has accrued since its checkpoint and not yet
    /// realized.
    pub fn internal_calculate_account_reward(&self, account: &Account, current_block: BlockHeight) -> (r:
        Result<Balance, StakingError>)
        requires
            self.config.valid(),
        ensures
            r == spec_active_accrual(
                account.stake_balance,
                self.config.reward_numerator,
                self.config.reward_denominator,
                account.last_block_balance_change,
                self.spec_effective_block(current_block),
                self.pause_history@,
            ),
    {
        let until = self.effective_block(current_block);
        accrue_active(
            account.stake_balance,
            self.config.reward_numerator,
            self.config.reward_denominator,
            account.last_block_balance_change,
            until,
            &self.pause_history,
        )
    }

    /// Reward that the whole pool has accrued since its checkpoint and not
    /// yet realized.
    pub fn internal_calculate_global_reward(&self, current_block: BlockHeight) -> (r: Result<
        Balance,
        StakingError,
    >)
        requires
            self.config.valid(),
        ensures
            r == spec_active_accrual(
                self.pool.total_stake_balance,
                self.config.reward_numerator,
                self.config.reward_denominator,
                self.pool.last_block_balance_change,
                self.spec_effective_block(current_block),
                self.pause_history@,
            ),
    {
        let until = self.effective_block(current_block);
        accrue_active(
            self.pool.total_stake_balance,
            self.config.reward_numerator,
            self.config.reward_denominator,
            self.pool.last_block_balance_change,
            until,
            &self.pause_history,
        )
    }

    pub fn realize_account(&self, account: Account, current_block: BlockHeight) -> (r: Result<
        Account,
        StakingError,
    >)
        requires
            self.config.valid(),
        ensures
            r == self.spec_realize_account(account, current_block),
    {
        let delta = match self.internal_calculate_account_reward(&account, current_block) {
            Err(e) => {
                return Err(e);
            },
            Ok(d) => d,
        };
        match account.pre_reward.checked_add(delta) {
            None => Err(StakingError::ArithmeticOverflow),
            Some(pre_reward) => Ok(
                Account {
                    pre_reward,
                    last_block_balance_change: self.effective_block(current_block),
                    ..account
                },
            ),
        }
    }

    pub fn realize_pool(&self, current_block: BlockHeight) -> (r: Result<PoolState, StakingError>)
        requires
            self.config.valid(),
        ensures
            r == self.spec_realize_pool(current_block),
    {
        let delta = match self.internal_calculate_global_reward(current_block) {
            Err(e) => {
                return Err(e);
            },
            Ok(d) => d,
        };
        match self.pool.pre_reward.checked_add(delta) {
            None => Err(StakingError::ArithmeticOverflow),
            Some(pre_reward) => Ok(
                PoolState {
                    pre_reward,
                    last_block_balance_change: self.effective_block(current_block),
                    ..self.pool
                },
            ),
        }
    }
}


impl StakingContract {
    /// An empty pool with its checkpoint at `current_block`.
    pub open spec fn spec_initial_pool(current_block: BlockHeight) -> PoolState {
        PoolState {
            total_stake_balance: 0,
            total_paid_reward_balance: 0,
            total_staker: 0,
            pre_reward: 0,
            last_block_balance_change: current_block,
            paused: false,
            paused_in_block: 0,
        }
    }

    /// A contract with no accounts; a zero rate denominator is refused.
    pub fn new(
        owner_id: String,
        ft_contract_id: String,
        config: Config,
        current_block: BlockHeight,
    ) -> (r: Result<StakingContract, StakingError>)
        ensures
            !config.valid() ==> r is Err && r->Err_0 == StakingError::InvalidConfig,
            config.valid() ==> r is Ok && {
                let c = r->Ok_0;
                &&& c.wf()
                &&& c.owner_id == owner_id
                &&& c.ft_contract_id == ft_contract_id
                &&& c.config == config
                &&& c.pool == StakingContract::spec_initial_pool(current_block)
                &&& c.accounts@.len() == 0
                &&& c.pause_history@.len() == 0
            },
    {
        if config.reward_denominator == 0 {
            return Err(StakingError::InvalidConfig);
        }
        Ok(StakingContract::empty(owner_id, ft_contract_id, config, current_block))
    }

    fn empty(owner_id: String, ft_contract_id: String, config: Config, current_block: BlockHeight) -> (r:
        StakingContract)
        requires
            config.valid(),
        ensures
            r.wf(),
            r.owner_id == owner_id,
            r.ft_contract_id == ft_contract_id,
            r.config == config,
            r.pool == StakingContract::spec_initial_pool(current_block),
            r.accounts@.len() == 0,
            r.pause_history@.len() == 0,
    {
        let c = StakingContract {
            owner_id,
            ft_contract_id,
            config,
            pool: PoolState {
                total_stake_balance: 0,
                total_paid_reward_balance: 0,
                total_staker: 0,
                pre_reward: 0,
                last_block_balance_change: current_block,
                paused: false,
                paused_in_block: 0,
            },
            accounts: Vec::new(),
            pause_history: Vec::new(),
        };
        proof {
            assert(c.accounts@ =~= Seq::<(String, Account)>::empty());
        }
        c
    }

    /// A contract with the default reward rate.
    pub fn new_default_config(
        owner_id: String,
        ft_contract_id: String,
        current_block: BlockHeight,
    ) -> (r: StakingContract)
        ensures
            r.wf(),
            r.owner_id == owner_id,
            r.ft_contract_id == ft_contract_id,
            r.config.reward_numerator == crate::config::DEFAULT_REWARD_NUMERATOR,
            r.config.reward_denominator == crate::config::DEFAULT_REWARD_DENOMINATOR,
            r.pool == StakingContract::spec_initial_pool(current_block),
            r.accounts@.len() == 0,
            r.pause_history@.len() == 0,
    {
        StakingContract::empty(owner_id, ft_contract_id, Config::default(), current_block)
    }

    /// Registers `account_id` with an empty account checkpointed at the
    /// effective block, unless it is registered already. Returns whether it
    /// was added.
    pub fn storage_deposit(&mut self, account_id: String, current_block: BlockHeight) -> (r: bool)
        requires
            old(self).wf(),
        ensures
            final(self).wf(),
            r == !old(self).has_account(account_id@),
            final(self).has_account(account_id@),
            final(self).config == old(self).config,
            final(self).pool == old(self).pool,
            final(self).pause_history == old(self).pause_history,
            final(self).owner_id == old(self).owner_id,
            final(self).ft_contract_id == old(self).ft_contract_id,
            !r ==> final(self).accounts == old(self).accounts,
            r ==> final(self).accounts@ == old(self).accounts@.push(
                (account_id, Account::spec_registered(old(self).spec_effective_block(current_block))),
            ),
    {
        if self.find_account(&account_id).is_some() {
            return false;
        }
        let checkpoint = self.effective_block(current_block);
        let entry = (account_id, Account::registered(checkpoint));
        proof {
            lemma_sums_push(self.accounts@, entry);
        }
        self.accounts.push(entry);
        proof {
            let n = self.accounts@.len() - 1;
            assert(self.accounts@[n].0@ == account_id@);
            assert(self.has_account(account_id@));
        }
        true
    }

    /// 1 when `account_id` is registered, else 0.
    pub fn storage_balance_of(&self, account_id: &String) -> (r: Balance)
        requires
            self.wf(),
        ensures
            r == if self.has_account(account_id@) {
                1u128
            } else {
                0u128
            },
    {
        if self.find_account(account_id).is_some() {
            1
        } else {
            0
        }
    }

    pub fn is_paused(&self) -> (r: bool)
        ensures
            r == self.pool.paused,
    {
        self.pool.paused
    }

    /// Outcome of staking `amount` more for `id`: the account and the pool,
    /// both realized first, with the amount added to each.
    pub open spec fn spec_stake(&self, id: Seq<char>, amount: Balance, current_block: BlockHeight) -> Result<
        (Account, PoolState),
        StakingError,
    > {
        if !self.has_account(id) {
            Err(StakingError::AccountNotFound)
        } else {
            match self.spec_realize_account(self.account_of(id), current_block) {
                Err(e) => Err(e),
                Ok(a) => match self.spec_realize_pool(current_block) {
                    Err(e) => Err(e),
                    Ok(p) => if a.stake_balance + amount > u128::MAX || p.total_stake_balance
                        + amount > u128::MAX {
                        Err(StakingError::ArithmeticOverflow)
                    } else {
                        Ok(
                            (
                                Account { stake_balance: (a.stake_balance + amount) as u128, ..a },
                                PoolState {
                                    total_stake_balance: (p.total_stake_balance + amount) as u128,
                                    total_staker: if a.stake_balance == 0 && amount > 0 {
                                        (p.total_staker + 1) as u128
                                    } else {
                                        p.total_staker
                                    },
                                    ..p
                                },
                            ),
                        )
                    },
                },
            }
        }
    }

    /// Stakes `amount` more for `account_id`.
    pub fn stake(&mut self, account_id: &String, amount: Balance, current_block: BlockHeight) -> (r:
        Result<(), StakingError>)
        requires
            old(self).wf(),
        ensures
            final(self).wf(),
            match old(self).spec_stake(account_id@, amount, current_block) {
                Err(e) => r == Err::<(), StakingError>(e) && *final(self) == *old(self),
                Ok((a, p)) => {
                    let i = old(self).index_of(account_id@);
                    &&& r is Ok
                    &&& final(self).accounts@ == old(self).accounts@.update(
                        i,
                        (old(self).accounts@[i].0, a),
                    )
                    &&& final(self).pool == p
                    &&& final(self).config == old(self).config
                    &&& final(self).pause_history == old(self).pause_history
                    &&& final(self).owner_id == old(self).owner_id
                    &&& final(self).ft_contract_id == old(self).ft_contract_id
                },
            },
    {
        let i = match self.find_account(account_id) {
            None => {
                return Err(StakingError::AccountNotFound);
            },
            Some(i) => i,
        };
        let account = self.accounts[i].1;
        let a = match self.realize_account(account, current_block) {
            Err(e) => {
                return Err(e);
            },
            Ok(a) => a,
        };
        let p = match self.realize_pool(current_block) {
            Err(e) => {
                return Err(e);
            },
            Ok(p) => p,
        };
        let stake_balance = match a.stake_balance.checked_add(amount) {
            None => {
                return Err(StakingError::ArithmeticOverflow);
            },
            Some(v) => v,
        };
        let total_stake_balance = match p.total_stake_balance.checked_add(amount) {
            None => {
                return Err(StakingError::ArithmeticOverflow);
            },
            Some(v) => v,
        };
        let n_accounts = self.accounts.len();
        proof {
            lemma_sums_nonneg(self.accounts@);
            assert(p.total_staker <= n_accounts);
        }
        let total_staker = if a.stake_balance == 0 && amount > 0 {
            p.total_staker + 1
        } else {
            p.total_staker
        };
        let key = self.accounts[i].0.clone();
        let entry = (key, Account { stake_balance, ..a });
        proof {
            lemma_sums_update(self.accounts@, i as int, entry);
            lemma_unique_ids_update(self.accounts@, i as int, entry);
        }
        self.accounts.set(i, entry);
        self.pool = PoolState { total_stake_balance, total_staker, ..p };
        Ok(())
    }
}


impl StakingContract {
    /// Outcome of moving `amount` of `id`'s stake into its pending unstake:
    /// the account and the pool, both realized first, the amount taken off
    /// the stake of each, and the lock-up restarted from `current_epoch`.
    pub open spec fn spec_request_unstake(
        &self,
        id: Seq<char>,
        amount: Balance,
        current_block: BlockHeight,
        current_epoch: EpochHeight,
        now: Timestamp,
    ) -> Result<(Account, PoolState), StakingError> {
        if !self.has_account(id) {
            Err(StakingError::AccountNotFound)
        } else if amount > self.account_of(id).stake_balance {
            Err(StakingError::InsufficientStakeBalance)
        } else {
            match self.spec_realize_account(self.account_of(id), current_block) {
                Err(e) => Err(e),
                Ok(a) => match self.spec_realize_pool(current_block) {
                    Err(e) => Err(e),
                    Ok(p) => if a.unstake_balance + amount > u128::MAX || current_epoch
                        + NUM_EPOCHS_TO_UNLOCK > u64::MAX {
                        Err(StakingError::ArithmeticOverflow)
                    } else {
                        Ok(
                            (
                                Account {
                                    stake_balance: (a.stake_balance - amount) as u128,
                                    unstake_balance: (a.unstake_balance + amount) as u128,
                                    unstake_start_timestamp: now,
                                    unstake_available_epoch: (current_epoch
                                        + NUM_EPOCHS_TO_UNLOCK) as u64,
                                    ..a
                                },
                                PoolState {
                                    total_stake_balance: (p.total_stake_balance - amount) as u128,
                                    total_staker: if a.stake_balance > 0 && a.stake_balance
                                        == amount {
                                        (p.total_staker - 1) as u128
                                    } else {
                                        p.total_staker
                                    },
                                    ..p
                                },
                            ),
                        )
                    },
                },
            }
        }
    }

    /// Moves `amount` of `account_id`'s stake into its pending unstake.
    pub fn request_unstake(
        &mut self,
        account_id: &String,
        amount: Balance,
        current_block: BlockHeight,
        current_epoch: EpochHeight,
        now: Timestamp,
    ) -> (r: Result<(), StakingError>)
        requires
            old(self).wf(),
        ensures
            final(self).wf(),
            match old(self).spec_request_unstake(
                account_id@,
                amount,
                current_block,
                current_epoch,
                now,
            ) {
                Err(e) => r == Err::<(), StakingError>(e) && *final(self) == *old(self),
                Ok((a, p)) => {
                    let i = old(self).index_of(account_id@);
                    &&& r is Ok
                    &&& final(self).accounts@ == old(self).accounts@.update(
                        i,
                        (old(self).accounts@[i].0, a),
                    )
                    &&& final(self).pool == p
                    &&& final(self).config == old(self).config
                    &&& final(self).pause_history == old(self).pause_history
                    &&& final(self).owner_id == old(self).owner_id
                    &&& final(self).ft_contract_id == old(self).ft_contract_id
                },
            },
    {
        let i = match self.find_account(account_id) {
            None => {
                return Err(StakingError::AccountNotFound);
            },
            Some(i) => i,
        };
        let account = self.accounts[i].1;
        if amount > account.stake_balance {
            return Err(StakingError::InsufficientStakeBalance);
        }
        let a = match self.realize_account(account, current_block) {
            Err(e) => {
                return Err(e);
            },
            Ok(a) => a,
        };
        let p = match self.realize_pool(current_block) {
            Err(e) => {
                return Err(e);
            },
            Ok(p) => p,
        };
        let unstake_balance = match a.unstake_balance.checked_add(amount) {
            None => {
                return Err(StakingError::ArithmeticOverflow);
            },
            Some(v) => v,
        };
        let unstake_available_epoch = match current_epoch.checked_add(NUM_EPOCHS_TO_UNLOCK) {
            None => {
                return Err(StakingError::ArithmeticOverflow);
            },
            Some(v) => v,
        };
        proof {
            lemma_stake_within_sum(self.accounts@, i as int);
        }
        let total_staker = if a.stake_balance > 0 && a.stake_balance == amount {
            p.total_staker - 1
        } else {
            p.total_staker
        };
        let key = self.accounts[i].0.clone();
        let entry = (
            key,
            Account {
                stake_balance: a.stake_balance - amount,
                unstake_balance,
                unstake_start_timestamp: now,
                unstake_available_epoch,
                ..a
            },
        );
        proof {
            lemma_sums_update(self.accounts@, i as int, entry);
            lemma_unique_ids_update(self.accounts@, i as int, entry);
        }
        self.accounts.set(i, entry);
        self.pool = PoolState {
            total_stake_balance: p.total_stake_balance - amount,
            total_staker,
            ..p
        };
        Ok(())
    }

    /// Outcome of withdrawing `id`'s pending unstake: the account with it
    /// emptied, and the amount to pay out.
    pub open spec fn spec_withdraw(&self, id: Seq<char>, current_epoch: EpochHeight) -> Result<
        (Account, Balance),
        StakingError,
    > {
        if !self.has_account(id) {
            Err(StakingError::AccountNotFound)
        } else if self.account_of(id).unstake_balance == 0 {
            Err(StakingError::NothingToWithdraw)
        } else if current_epoch < self.account_of(id).unstake_available_epoch {
            Err(StakingError::NotYetWithdrawable)
        } else {
            Ok(
                (
                    Account { unstake_balance: 0, ..self.account_of(id) },
                    self.account_of(id).unstake_balance,
                ),
            )
        }
    }

    /// Empties `account_id`'s pending unstake once its lock-up has ended and
    /// returns the amount that is to be paid out.
    pub fn withdraw(&mut self, account_id: &String, current_epoch: EpochHeight) -> (r: Result<
        Balance,
        StakingError,
    >)
        requires
            old(self).wf(),
        ensures
            final(self).wf(),
            match old(self).spec_withdraw(account_id@, current_epoch) {
                Err(e) => r == Err::<Balance, StakingError>(e) && *final(self) == *old(self),
                Ok((a, amount)) => {
                    let i = old(self).index_of(account_id@);
                    &&& r == Ok::<Balance, StakingError>(amount)
                    &&& final(self).accounts@ == old(self).accounts@.update(
                        i,
                        (old(self).accounts@[i].0, a),
                    )
                    &&& final(self).pool == old(self).pool
                    &&& final(self).config == old(self).config
                    &&& final(self).pause_history == old(self).pause_history
                    &&& final(self).owner_id == old(self).owner_id
                    &&& final(self).ft_contract_id == old(self).ft_contract_id
                },
            },
    {
        let i = match self.find_account(account_id) {
            None => {
                return Err(StakingError::AccountNotFound);
            },
            Some(i) => i,
        };
        let account = self.accounts[i].1;
        if account.unstake_balance == 0 {
            return Err(StakingError::NothingToWithdraw);
        }
        if current_epoch < account.unstake_available_epoch {
            return Err(StakingError::NotYetWithdrawable);
        }
        let key = self.accounts[i].0.clone();
        let entry = (key, Account { unstake_balance: 0, ..account });
        proof {
            lemma_sums_update(self.accounts@, i as int, entry);
            lemma_unique_ids_update(self.accounts@, i as int, entry);
        }
        self.accounts.set(i, entry);
        Ok(account.unstake_balance)
    }

    /// Freezes the reward clock at `current_block`; a pool that is paused
    /// already stays as it is.
    pub fn pause(&mut self, current_block: BlockHeight)
        requires
            old(self).wf(),
        ensures
            final(self).wf(),
            old(self).pool.paused ==> *final(self) == *old(self),
            !old(self).pool.paused ==> final(self).pool == (PoolState {
                paused: true,
                paused_in_block: current_block,
                ..old(self).pool
            }),
            final(self).accounts == old(self).accounts,
            final(self).config == old(self).config,
            final(self).pause_history == old(self).pause_history,
            final(self).owner_id == old(self).owner_id,
            final(self).ft_contract_id == old(self).ft_contract_id,
    {
        if !self.pool.paused {
            self.pool = PoolState { paused: true, paused_in_block: current_block, ..self.pool };
        }
    }

    /// Outcome of resuming the clock at `current_block`: the pool realized
    /// with the clock still frozen, then checkpointed at `current_block`.
    pub open spec fn spec_unpause(&self, current_block: BlockHeight) -> Result<
        PoolState,
        StakingError,
    > {
        if current_block < self.pool.paused_in_block {
            Err(StakingError::ClockRegression)
        } else {
            match self.spec_realize_pool(current_block) {
                Err(e) => Err(e),
                Ok(p) => Ok(
                    PoolState { paused: false, last_block_balance_change: current_block, ..p },
                ),
            }
        }
    }

    /// Resumes the reward clock at `current_block` and records the pause that
    /// ends, so that no account accrues reward over it. A pool that is not
    /// paused stays as it is.
    pub fn unpause(&mut self, current_block: BlockHeight) -> (r: Result<(), StakingError>)
        requires
            old(self).wf(),
        ensures
            final(self).wf(),
            !old(self).pool.paused ==> r is Ok && *final(self) == *old(self),
            old(self).pool.paused ==> match old(self).spec_unpause(current_block) {
                Err(e) => r == Err::<(), StakingError>(e) && *final(self) == *old(self),
                Ok(p) => {
                    &&& r is Ok
                    &&& final(self).pool == p
                    &&& final(self).pause_history@ == old(self).pause_history@.push(
                        (old(self).pool.paused_in_block, current_block),
                    )
                    &&& final(self).accounts == old(self).accounts
                    &&& final(self).config == old(self).config
                    &&& final(self).owner_id == old(self).owner_id
                    &&& final(self).ft_contract_id == old(self).ft_contract_id
                },
            },
    {
        if !self.pool.paused {
            return Ok(());
        }
        if current_block < self.pool.paused_in_block {
            return Err(StakingError::ClockRegression);
        }
        let p = match self.realize_pool(current_block) {
            Err(e) => {
                return Err(e);
            },
            Ok(p) => p,
        };
        self.pause_history.push((self.pool.paused_in_block, current_block));
        self.pool = PoolState { paused: false, last_block_balance_change: current_block, ..p };
        Ok(())
    }

    /// Realized plus unrealized reward of `id`.
    pub open spec fn spec_account_reward(&self, id: Seq<char>, current_block: BlockHeight) -> Result<
        Balance,
        StakingError,
    > {
        if !self.has_account(id) {
            Err(StakingError::AccountNotFound)
        } else {
            match self.spec_realize_account(self.account_of(id), current_block) {
                Err(e) => Err(e),
                Ok(a) => Ok(a.pre_reward),
            }
        }
    }

    /// Realized plus unrealized reward of `account_id`, without changing
    /// anything.
    pub fn get_account_reward(&self, account_id: &String, current_block: BlockHeight) -> (r: Result<
        Balance,
        StakingError,
    >)
        requires
            self.wf(),
        ensures
            r == self.spec_account_reward(account_id@, current_block),
    {
        let i = match self.find_account(account_id) {
            None => {
                return Err(StakingError::AccountNotFound);
            },
            Some(i) => i,
        };
        match self.realize_account(self.accounts[i].1, current_block) {
            Err(e) => Err(e),
            Ok(a) => Ok(a.pre_reward),
        }
    }

    /// The view of `account_id`'s account, without changing anything.
    pub fn get_account_id(
        &self,
        account_id: String,
        current_block: BlockHeight,
        current_epoch: EpochHeight,
    ) -> (r: Result<AccountJson, StakingError>)
        requires
            self.wf(),
        ensures
            match self.spec_account_reward(account_id@, current_block) {
                Err(e) => r is Err && r->Err_0 == e,
                Ok(reward) => {
                    let a = self.account_of(account_id@);
                    &&& r is Ok
                    &&& r->Ok_0.account_id == account_id
                    &&& r->Ok_0.stake_balance == a.stake_balance
                    &&& r->Ok_0.unstake_balance == a.unstake_balance
                    &&& r->Ok_0.reward == reward
                    &&& r->Ok_0.can_withdraw == a.spec_withdrawable(current_epoch)
                    &&& r->Ok_0.unstake_start_timestamp == a.unstake_start_timestamp
                    &&& r->Ok_0.unstake_available_epoch == a.unstake_available_epoch
                    &&& r->Ok_0.current_epoch == current_epoch
                },
            },
    {
        let i = match self.find_account(&account_id) {
            None => {
                return Err(StakingError::AccountNotFound);
            },
            Some(i) => i,
        };
        let account = self.accounts[i].1;
        let new_reward = match self.internal_calculate_account_reward(&account, current_block) {
            Err(e) => {
                return Err(e);
            },
            Ok(d) => d,
        };
        if account.pre_reward > u128::MAX - new_reward {
            return Err(StakingError::ArithmeticOverflow);
        }
        Ok(AccountJson::from(account_id, new_reward, account, current_epoch))
    }

    /// The view of the pool, without changing anything.
    pub fn get_pool_info(&self, current_block: BlockHeight) -> (r: Result<PoolJson, StakingError>)
        requires
            self.wf(),
        ensures
            match self.spec_realize_pool(current_block) {
                Err(e) => r == Err::<PoolJson, StakingError>(e),
                Ok(p) => r == Ok::<PoolJson, StakingError>(
                    (PoolJson {
                        total_stake_balance: self.pool.total_stake_balance,
                        total_reward: p.pre_reward,
                        total_stakers: self.pool.total_staker,
                        is_paused: self.pool.paused,
                    }),
                ),
            },
    {
        match self.realize_pool(current_block) {
            Err(e) => Err(e),
            Ok(p) => Ok(
                PoolJson {
                    total_stake_balance: self.pool.total_stake_balance,
                    total_reward: p.pre_reward,
                    total_stakers: self.pool.total_staker,
                    is_paused: self.pool.paused,
                },
            ),
        }
    }
}

} // verus!
