use vstd::prelude::*;

verus! {

/// Every way an operation of the staking ledger can fail. A failed operation
/// leaves the ledger exactly as it was.
#[derive(Clone, Copy, Debug, PartialEq, Eq, Structural)]
pub enum StakingError {
    /// The identity has no registered account.
    AccountNotFound,
    /// An unstake request asks for more than the account has staked.
    InsufficientStakeBalance,
    /// The lock-up epoch of the pending unstake has not been reached yet.
    NotYetWithdrawable,
    /// The account holds no unstaked principal to withdraw.
    NothingToWithdraw,
    /// The reward rate has a zero denominator.
    InvalidConfig,
    /// The effective block lies below a checkpoint that accrual starts from.
    ClockRegression,
    /// An amount does not fit in 128 bits.
    ArithmeticOverflow,
}

} // verus!
