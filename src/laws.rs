use vstd::arithmetic::div_mod::{
    lemma_div_is_ordered,
    lemma_div_is_ordered_by_denominator,
    lemma_fundamental_div_mod,
    lemma_mod_bound,
};
use vstd::arithmetic::mul::lemma_mul_strict_inequality_converse;
use vstd::prelude::*;

use crate::account::Account;
use crate::contract::{sum_stake, StakingContract};
use crate::reward::{active_products_fit, active_reward, final_cursor, spec_accrue};
use crate::BlockHeight;

verus! {

/// Accrual never shrinks when the balance, the rate numerator or the elapsed
/// span grows, and never grows when the rate denominator grows.
pub proof fn lemma_accrue_monotone(
    balance1: int,
    balance2: int,
    numerator1: int,
    numerator2: int,
    denominator1: int,
    denominator2: int,
    elapsed1: int,
    elapsed2: int,
)
    requires
        0 <= balance1 <= balance2,
        0 <= numerator1 <= numerator2,
        0 <= elapsed1 <= elapsed2,
        0 < denominator2 <= denominator1,
    ensures
        spec_accrue(balance1, numerator1, denominator1, elapsed1) <= spec_accrue(
            balance2,
            numerator2,
            denominator2,
            elapsed2,
        ),
{
    let x1 = balance1 * numerator1 * elapsed1;
    let x2 = balance2 * numerator2 * elapsed2;
    assert(0 <= x1 <= x2) by (nonlinear_arith)
        requires
            0 <= balance1 <= balance2,
            0 <= numerator1 <= numerator2,
            0 <= elapsed1 <= elapsed2,
            x1 == balance1 * numerator1 * elapsed1,
            x2 == balance2 * numerator2 * elapsed2,
    ;
    lemma_div_is_ordered_by_denominator(x1, denominator2, denominator1);
    lemma_div_is_ordered(x1, x2, denominator2);
}

/// Accruing two consecutive spans separately never pays more than accruing
/// them as one span.
pub proof fn lemma_accrue_split(balance: int, numerator: int, denominator: int, first: int, second: int)
    requires
        balance >= 0,
        numerator >= 0,
        denominator > 0,
        first >= 0,
        second >= 0,
    ensures
        spec_accrue(balance, numerator, denominator, first) + spec_accrue(
            balance,
            numerator,
            denominator,
            second,
        ) <= spec_accrue(balance, numerator, denominator, first + second),
{
    let a = balance * numerator * first;
    let b = balance * numerator * second;
    assert(balance * numerator * (first + second) == a + b) by (nonlinear_arith)
        requires
            a == balance * numerator * first,
            b == balance * numerator * second,
    ;
    let d = denominator;
    lemma_fundamental_div_mod(a, d);
    lemma_fundamental_div_mod(b, d);
    lemma_fundamental_div_mod(a + b, d);
    lemma_mod_bound(a, d);
    lemma_mod_bound(b, d);
    lemma_mod_bound(a + b, d);
    let qa = a / d;
    let qb = b / d;
    let q = (a + b) / d;
    assert((qa + qb) * d < (q + 1) * d) by (nonlinear_arith)
        requires
            a == d * qa + a % d,
            b == d * qb + b % d,
            a + b == d * q + (a + b) % d,
            0 <= a % d,
            0 <= b % d,
            (a + b) % d < d,
    ;
    lemma_mul_strict_inequality_converse(qa + qb, q + 1, d);
}

/// Sum of the total spans of `pieces`.
pub open spec fn total_span(pieces: Seq<nat>) -> int
    decreases pieces.len(),
{
    if pieces.len() == 0 {
        0
    } else {
        total_span(pieces.drop_last()) + pieces.last()
    }
}

/// Reward paid when each span of `pieces` is realized on its own.
pub open spec fn accrue_each(balance: int, numerator: int, denominator: int, pieces: Seq<nat>) -> int
    decreases pieces.len(),
{
    if pieces.len() == 0 {
        0
    } else {
        accrue_each(balance, numerator, denominator, pieces.drop_last()) + spec_accrue(
            balance,
            numerator,
            denominator,
            pieces.last() as int,
        )
    }
}

/// Splitting one accrual interval into any number of separate realizations
/// never pays more than realizing the whole interval at once.
pub proof fn lemma_split_never_overpays(
    balance: int,
    numerator: int,
    denominator: int,
    pieces: Seq<nat>,
)
    requires
        balance >= 0,
        numerator >= 0,
        denominator > 0,
    ensures
        accrue_each(balance, numerator, denominator, pieces) <= spec_accrue(
            balance,
            numerator,
            denominator,
            total_span(pieces),
        ),
        total_span(pieces) >= 0,
    decreases pieces.len(),
{
    if pieces.len() == 0 {
        assert(balance * numerator * 0 == 0) by (nonlinear_arith);
    } else {
        let rest = pieces.drop_last();
        lemma_split_never_overpays(balance, numerator, denominator, rest);
        lemma_accrue_split(balance, numerator, denominator, total_span(rest), pieces.last() as int);
    }
}

/// With every recorded pause ending no later than `until`, accrual that
/// starts at `until` itself yields nothing and stays at `until`.
proof fn lemma_caught_up(balance: int, numerator: int, denominator: int, until: int, pauses: Seq<(u64, u64)>)
    requires
        denominator > 0,
        forall|k: int| 0 <= k < pauses.len() ==> #[trigger] pauses[k].1 <= until,
    ensures
        final_cursor(until, pauses) == until,
        active_reward(balance, numerator, denominator, until, until, pauses) == 0,
        active_products_fit(balance, numerator, until, until, pauses),
    decreases pauses.len(),
{
    if pauses.len() == 0 {
        assert(balance * numerator * 0 == 0) by (nonlinear_arith);
    } else {
        assert(pauses[0].1 <= until);
        let rest = pauses.drop_first();
        assert forall|k: int| 0 <= k < rest.len() implies #[trigger] rest[k].1 <= until by {
            assert(rest[k] == pauses[k + 1]);
        }
        lemma_caught_up(balance, numerator, denominator, until, rest);
    }
}

/// Every recorded pause ends no later than where the walk from `cursor` stops.
proof fn lemma_pauses_end_before_cursor(cursor: int, pauses: Seq<(u64, u64)>)
    ensures
        forall|k: int|
            0 <= k < pauses.len() ==> #[trigger] pauses[k].1 <= final_cursor(cursor, pauses),
    decreases pauses.len(),
{
    if pauses.len() > 0 {
        let end = pauses[0].1 as int;
        let next = if end > cursor {
            end
        } else {
            cursor
        };
        let rest = pauses.drop_first();
        lemma_pauses_end_before_cursor(next, rest);
        crate::reward::lemma_cursor_advances(next, rest);
        assert forall|k: int| 0 <= k < pauses.len() implies #[trigger] pauses[k].1
            <= final_cursor(cursor, pauses) by {
            if k > 0 {
                assert(pauses[k] == rest[k - 1]);
            }
        }
    }
}

/// Realizing an account a second time at the same effective block changes
/// nothing.
pub proof fn lemma_realize_account_idempotent(
    contract: StakingContract,
    account: Account,
    current_block: BlockHeight,
)
    requires
        contract.config.valid(),
        contract.spec_realize_account(account, current_block) is Ok,
    ensures
        contract.spec_realize_account(
            contract.spec_realize_account(account, current_block)->Ok_0,
            current_block,
        ) == contract.spec_realize_account(account, current_block),
{
    let e = contract.spec_effective_block(current_block);
    let realized = contract.spec_realize_account(account, current_block)->Ok_0;
    lemma_pauses_end_before_cursor(
        account.last_block_balance_change as int,
        contract.pause_history@,
    );
    lemma_caught_up(
        realized.stake_balance as int,
        contract.config.reward_numerator as int,
        contract.config.reward_denominator as int,
        e as int,
        contract.pause_history@,
    );
    assert(contract.spec_realize_account(realized, current_block) == Ok::<
        Account,
        crate::error::StakingError,
    >(realized));
}

/// Realizing the pool a second time at the same effective block changes
/// nothing.
pub proof fn lemma_realize_pool_idempotent(
    contract: StakingContract,
    current_block: BlockHeight,
)
    requires
        contract.config.valid(),
        contract.spec_realize_pool(current_block) is Ok,
    ensures
        ({
            let realized = StakingContract {
                pool: contract.spec_realize_pool(current_block)->Ok_0,
                ..contract
            };
            realized.spec_realize_pool(current_block) == Ok::<
                crate::contract::PoolState,
                crate::error::StakingError,
            >(realized.pool)
        }),
{
    let e = contract.spec_effective_block(current_block);
    let p = contract.spec_realize_pool(current_block)->Ok_0;
    lemma_pauses_end_before_cursor(
        contract.pool.last_block_balance_change as int,
        contract.pause_history@,
    );
    lemma_caught_up(
        p.total_stake_balance as int,
        contract.config.reward_numerator as int,
        contract.config.reward_denominator as int,
        e as int,
        contract.pause_history@,
    );
}

/// Pauses that ended by `cursor` no longer affect accrual from `cursor`.
proof fn lemma_old_pauses_skipped(
    balance: int,
    numerator: int,
    denominator: int,
    cursor: int,
    until: int,
    pauses: Seq<(u64, u64)>,
    last: (u64, u64),
)
    requires
        forall|k: int| 0 <= k < pauses.len() ==> #[trigger] pauses[k].1 <= cursor,
    ensures
        active_reward(balance, numerator, denominator, cursor, until, pauses.push(last))
            == active_reward(balance, numerator, denominator, cursor, until, seq![last]),
    decreases pauses.len(),
{
    if pauses.len() > 0 {
        assert(pauses[0].1 <= cursor);
        let rest = pauses.drop_first();
        assert(pauses.push(last).drop_first() =~= rest.push(last));
        assert(pauses.push(last)[0] == pauses[0]);
        assert forall|k: int| 0 <= k < rest.len() implies #[trigger] rest[k].1 <= cursor by {
            assert(rest[k] == pauses[k + 1]);
        }
        lemma_old_pauses_skipped(balance, numerator, denominator, cursor, until, rest, last);
    } else {
        assert(pauses.push(last) =~= seq![last]);
    }
}

/// A stake checkpointed at `checkpoint`, paused at block `paused_at` and
/// resumed `gap` blocks later, realized `after` blocks after the resume, earns
/// the reward up to the pause plus the reward since the resume, each rounded
/// down on its own; the gap earns nothing.
pub proof fn lemma_pause_skips_gap(
    balance: int,
    numerator: int,
    denominator: int,
    checkpoint: u64,
    pauses: Seq<(u64, u64)>,
    paused_at: u64,
    gap: u64,
    after: u64,
)
    requires
        balance >= 0,
        numerator >= 0,
        denominator > 0,
        forall|k: int| 0 <= k < pauses.len() ==> #[trigger] pauses[k].1 <= checkpoint,
        checkpoint <= paused_at,
        paused_at + gap + after <= u64::MAX,
    ensures
        active_reward(
            balance,
            numerator,
            denominator,
            checkpoint as int,
            paused_at + gap + after,
            pauses.push((paused_at, (paused_at + gap) as u64)),
        ) == spec_accrue(balance, numerator, denominator, paused_at - checkpoint) + spec_accrue(
            balance,
            numerator,
            denominator,
            after as int,
        ),
{
    let last = (paused_at, (paused_at + gap) as u64);
    let until = paused_at + gap + after;
    lemma_old_pauses_skipped(balance, numerator, denominator, checkpoint as int, until, pauses, last);
    let single = seq![last];
    assert(single.drop_first() =~= Seq::<(u64, u64)>::empty());
    assert(single[0] == last);
    assert(balance * numerator * 0 == 0) by (nonlinear_arith);
    let end = paused_at + gap;
    let next = if end > checkpoint {
        end
    } else {
        checkpoint as int
    };
    assert(active_reward(balance, numerator, denominator, next, until, single.drop_first())
        == spec_accrue(balance, numerator, denominator, until - next));
    if paused_at == checkpoint && gap == 0 {
        assert(until - next == after);
    } else {
        assert(next == end);
    }
}


/// In every well-formed ledger, which every operation preserves, the pool's
/// total stake is the sum of the stakes of all accounts.
pub proof fn lemma_total_stake_is_sum(contract: StakingContract)
    requires
        contract.wf(),
    ensures
        sum_stake(contract.accounts@) == contract.pool.total_stake_balance,
{
}

} // verus!
