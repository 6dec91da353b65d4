use vstd::prelude::*;

use crate::error::StakingError;

verus! {

/// `floor(balance * numerator * elapsed / denominator)`: the reward that
/// `balance` earns over `elapsed` blocks at the per-block rate
/// `numerator / denominator`.
pub open spec fn spec_accrue(balance: int, numerator: int, denominator: int, elapsed: int) -> int {
    balance * numerator * elapsed / denominator
}

/// Computes `floor(balance * numerator * elapsed / denominator)`, or `None`
/// when the product `balance * numerator * elapsed` does not fit in a `u128`.
pub fn accrue(balance: u128, numerator: u64, denominator: u64, elapsed: u64) -> (r: Option<u128>)
    requires
        denominator > 0,
    ensures
        balance * numerator * elapsed > u128::MAX ==> r.is_none(),
        balance * numerator * elapsed <= u128::MAX ==> r == Some(
            spec_accrue(balance as int, numerator as int, denominator as int, elapsed as int) as u128,
        ),
{
    let n: u128 = numerator as u128;
    let e: u128 = elapsed as u128;
    assert(n * e <= u128::MAX) by (nonlinear_arith)
        requires
            n <= u64::MAX,
            e <= u64::MAX,
    ;
    let ne: u128 = n * e;
    assert(balance * ne == balance * numerator * elapsed) by (nonlinear_arith)
        requires
            ne == numerator * elapsed,
    ;
    match balance.checked_mul(ne) {
        None => None,
        Some(p) => {
            assert(p / (denominator as u128) <= p) by (nonlinear_arith)
                requires
                    denominator > 0,
                    p >= 0,
            ;
            Some(p / (denominator as u128))
        },
    }
}

/// The block from which accrual resumes after walking the pause history:
/// each recorded pause `(start, end)` that ends after the cursor moves the
/// cursor to its end.
pub open spec fn final_cursor(cursor: int, pauses: Seq<(u64, u64)>) -> int
    decreases pauses.len(),
{
    if pauses.len() == 0 {
        cursor
    } else {
        let end = pauses[0].1 as int;
        final_cursor(if end > cursor { end } else { cursor }, pauses.drop_first())
    }
}

/// Reward of `balance` from block `cursor` up to block `until`, skipping
/// every recorded pause. Each active stretch between pauses is accrued (and
/// rounded down) on its own, as it would have been by a realization at the
/// moment the pause began.
pub open spec fn active_reward(
    balance: int,
    numerator: int,
    denominator: int,
    cursor: int,
    until: int,
    pauses: Seq<(u64, u64)>,
) -> int
    decreases pauses.len(),
{
    if pauses.len() == 0 {
        spec_accrue(balance, numerator, denominator, until - cursor)
    } else {
        let start = pauses[0].0 as int;
        let end = pauses[0].1 as int;
        let stretch = if end > cursor && start > cursor {
            spec_accrue(balance, numerator, denominator, start - cursor)
        } else {
            0
        };
        stretch + active_reward(
            balance,
            numerator,
            denominator,
            if end > cursor { end } else { cursor },
            until,
            pauses.drop_first(),
        )
    }
}

/// Whether every product `balance * numerator * stretch` formed while
/// computing `active_reward` fits in a `u128`.
pub open spec fn active_products_fit(
    balance: int,
    numerator: int,
    cursor: int,
    until: int,
    pauses: Seq<(u64, u64)>,
) -> bool
    decreases pauses.len(),
{
    if pauses.len() == 0 {
        balance * numerator * (until - cursor) <= u128::MAX
    } else {
        let start = pauses[0].0 as int;
        let end = pauses[0].1 as int;
        &&& (end > cursor && start > cursor ==> balance * numerator * (start - cursor) <= u128::MAX)
        &&& active_products_fit(
            balance,
            numerator,
            if end > cursor { end } else { cursor },
            until,
            pauses.drop_first(),
        )
    }
}

/// Outcome of accruing `balance` from `checkpoint` to `until` across the pause
/// history: a regression when the walk ends past `until`, an overflow when an
/// intermediate product or the sum does not fit, else the reward.
pub open spec fn spec_active_accrual(
    balance: u128,
    numerator: u64,
    denominator: u64,
    checkpoint: u64,
    until: u64,
    pauses: Seq<(u64, u64)>,
) -> Result<u128, StakingError> {
    let reward = active_reward(
        balance as int,
        numerator as int,
        denominator as int,
        checkpoint as int,
        until as int,
        pauses,
    );
    if final_cursor(checkpoint as int, pauses) > until {
        Err(StakingError::ClockRegression)
    } else if !active_products_fit(
        balance as int,
        numerator as int,
        checkpoint as int,
        until as int,
        pauses,
    ) || reward > u128::MAX {
        Err(StakingError::ArithmeticOverflow)
    } else {
        Ok(reward as u128)
    }
}

pub proof fn lemma_accrue_nonneg(balance: int, numerator: int, denominator: int, elapsed: int)
    requires
        balance >= 0,
        numerator >= 0,
        denominator > 0,
        elapsed >= 0,
    ensures
        spec_accrue(balance, numerator, denominator, elapsed) >= 0,
{
    assert(balance * numerator * elapsed >= 0) by (nonlinear_arith)
        requires
            balance >= 0,
            numerator >= 0,
            elapsed >= 0,
    ;
}

pub proof fn lemma_cursor_advances(cursor: int, pauses: Seq<(u64, u64)>)
    ensures
        cursor <= final_cursor(cursor, pauses),
    decreases pauses.len(),
{
    if pauses.len() > 0 {
        let end = pauses[0].1 as int;
        lemma_cursor_advances(if end > cursor { end } else { cursor }, pauses.drop_first());
    }
}

pub proof fn lemma_active_reward_nonneg(
    balance: int,
    numerator: int,
    denominator: int,
    cursor: int,
    until: int,
    pauses: Seq<(u64, u64)>,
)
    requires
        balance >= 0,
        numerator >= 0,
        denominator > 0,
        final_cursor(cursor, pauses) <= until,
    ensures
        active_reward(balance, numerator, denominator, cursor, until, pauses) >= 0,
    decreases pauses.len(),
{
    if pauses.len() == 0 {
        lemma_accrue_nonneg(balance, numerator, denominator, until - cursor);
    } else {
        let start = pauses[0].0 as int;
        let end = pauses[0].1 as int;
        if end > cursor && start > cursor {
            lemma_accrue_nonneg(balance, numerator, denominator, start - cursor);
        }
        lemma_active_reward_nonneg(
            balance,
            numerator,
            denominator,
            if end > cursor { end } else { cursor },
            until,
            pauses.drop_first(),
        );
    }
}


/// Walks the pause history from `checkpoint` and returns where accrual
/// resumes, saturating at `u64::MAX`.
fn resume_cursor(checkpoint: u64, pauses: &Vec<(u64, u64)>) -> (r: u64)
    ensures
        r as int == final_cursor(checkpoint as int, pauses@),
{
    let mut cursor: u64 = checkpoint;
    let mut i: usize = 0;
    assert(pauses@.subrange(0, pauses@.len() as int) =~= pauses@);
    while i < pauses.len()
        invariant
            i <= pauses@.len(),
            final_cursor(cursor as int, pauses@.subrange(i as int, pauses@.len() as int))
                == final_cursor(checkpoint as int, pauses@),
        decreases pauses@.len() - i,
    {
        let ghost rest = pauses@.subrange(i as int, pauses@.len() as int);
        assert(rest.drop_first() =~= pauses@.subrange(i + 1, pauses@.len() as int));
        let end: u64 = pauses[i].1;
        if end > cursor {
            cursor = end;
        }
        i = i + 1;
    }
    assert(pauses@.subrange(i as int, pauses@.len() as int).len() == 0);
    cursor
}

/// Reward earned by `balance` from `checkpoint` to `until`, with every
/// recorded pause left out; see `spec_active_accrual` for the outcome.
pub fn accrue_active(
    balance: u128,
    numerator: u64,
    denominator: u64,
    checkpoint: u64,
    until: u64,
    pauses: &Vec<(u64, u64)>,
) -> (r: Result<u128, StakingError>)
    requires
        denominator > 0,
    ensures
        r == spec_active_accrual(balance, numerator, denominator, checkpoint, until, pauses@),
{
    let b = Ghost(balance as int);
    let n = Ghost(numerator as int);
    let d = Ghost(denominator as int);
    if resume_cursor(checkpoint, pauses) > until {
        return Err(StakingError::ClockRegression);
    }
    let mut cursor: u64 = checkpoint;
    let mut acc: u128 = 0;
    let mut i: usize = 0;
    proof {
        assert(pauses@.subrange(0, pauses@.len() as int) =~= pauses@);
    }
    while i < pauses.len()
        invariant
            denominator > 0,
            i <= pauses@.len(),
            final_cursor(checkpoint as int, pauses@) <= until,
            final_cursor(cursor as int, pauses@.subrange(i as int, pauses@.len() as int))
                == final_cursor(checkpoint as int, pauses@),
            acc + active_reward(
                b@,
                n@,
                d@,
                cursor as int,
                until as int,
                pauses@.subrange(i as int, pauses@.len() as int),
            ) == active_reward(b@, n@, d@, checkpoint as int, until as int, pauses@),
            active_products_fit(
                b@,
                n@,
                cursor as int,
                until as int,
                pauses@.subrange(i as int, pauses@.len() as int),
            ) == active_products_fit(b@, n@, checkpoint as int, until as int, pauses@),
            b@ == balance,
            n@ == numerator,
            d@ == denominator,
        decreases pauses@.len() - i,
    {
        let ghost rest = pauses@.subrange(i as int, pauses@.len() as int);
        assert(rest.drop_first() =~= pauses@.subrange(i + 1, pauses@.len() as int));
        let start: u64 = pauses[i].0;
        let end: u64 = pauses[i].1;
        let ghost next: int = if end > cursor { end as int } else { cursor as int };
        proof {
            lemma_active_reward_nonneg(b@, n@, d@, next, until as int, rest.drop_first());
        }
        if end > cursor && start > cursor {
            match accrue(balance, numerator, denominator, start - cursor) {
                None => {
                    return Err(StakingError::ArithmeticOverflow);
                },
                Some(stretch) => {
                    match acc.checked_add(stretch) {
                        None => {
                            return Err(StakingError::ArithmeticOverflow);
                        },
                        Some(sum) => {
                            acc = sum;
                        },
                    }
                },
            }
        }
        if end > cursor {
            cursor = end;
        }
        i = i + 1;
    }
    let ghost rest = pauses@.subrange(i as int, pauses@.len() as int);
    assert(rest.len() == 0);
    match accrue(balance, numerator, denominator, until - cursor) {
        None => Err(StakingError::ArithmeticOverflow),
        Some(last) => {
            proof {
                lemma_accrue_nonneg(b@, n@, d@, until - cursor);
            }
            match acc.checked_add(last) {
                None => Err(StakingError::ArithmeticOverflow),
                Some(sum) => Ok(sum),
            }
        },
    }
}

} // verus!
