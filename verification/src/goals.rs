//! The goal tracker: evaluates a category's goal against its balance
//! and funding history. Evaluation is pure — it never mutates category
//! or month state — and all ratios are integer per-mille values, so no
//! floating point enters the ledger.

use vstd::prelude::*;
use crate::dates::{month_index_of, MonthKey};
use crate::entities::{Goal, GoalKind};
use crate::money::{fits_i64, split_evenly, split_share};

verus! {

/// What evaluating a goal reports.
pub enum GoalReport {
    /// How much of a no-deadline target is reached, in thousandths,
    /// capped at 1000.
    Progress { per_mille: i64 },
    /// What to budget in each remaining month to reach a dated target:
    /// one amount per month from the current month up to, but not
    /// including, the target month. Empty when the target is already
    /// met.
    FundingPlan { per_month: Vec<i64> },
    /// The target month has arrived or passed and the target is unmet.
    Overdue,
    /// What the current month still needs to reach a monthly funding
    /// level.
    MonthlyNeeded { amount: i64 },
}

/// A goal's own sanity conditions: targets are positive, funding
/// levels non-negative, and a deadline names a real month.
pub open spec fn goal_wf(g: Goal) -> bool {
    match g.kind {
        GoalKind::TargetCategoryBalance { target_balance } => target_balance > 0,
        GoalKind::TargetCategoryBalanceByDate { target_balance, by_date } => {
            &&& target_balance > 0
            &&& by_date.wf()
        },
        GoalKind::MonthlyFunding { funding_balance } => funding_balance >= 0,
    }
}

/// How much of a target the balance covers, in thousandths: zero for a
/// non-positive balance, one thousand once the target is reached, and
/// the floor of the exact ratio in between.
pub open spec fn progress_per_mille(balance: int, target: int) -> int {
    if balance <= 0 {
        0
    } else if balance >= target {
        1000
    } else {
        1000 * balance / target
    }
}

/// Evaluates a goal against the category's current balance, the amount
/// budgeted to it in the current month, and the current month itself.
/// Pure: the caller reads the report; no ledger state moves.
pub fn evaluate_goal(goal: &Goal, balance: i64, budgeted_this_month: i64, current: MonthKey) -> (r:
    GoalReport)
    requires
        goal_wf(*goal),
        current.wf(),
        (goal.kind matches GoalKind::TargetCategoryBalanceByDate { target_balance, .. }
            ==> fits_i64(target_balance - balance)),
        (goal.kind matches GoalKind::MonthlyFunding { funding_balance } ==> fits_i64(
            funding_balance - budgeted_this_month,
        )),
    ensures
        (goal.kind matches GoalKind::TargetCategoryBalance { target_balance } ==> r == (
        GoalReport::Progress {
            per_mille: progress_per_mille(balance as int, target_balance as int) as i64,
        })),
        (goal.kind matches GoalKind::TargetCategoryBalanceByDate { target_balance, by_date } ==> {
            let rem = by_date.index() - current.index();
            let need: int = if target_balance > balance {
                target_balance - balance
            } else {
                0
            };
            if rem <= 0 {
                if balance >= target_balance {
                    r matches GoalReport::FundingPlan { per_month } && per_month@.len() == 0
                } else {
                    r is Overdue
                }
            } else {
                r matches GoalReport::FundingPlan { per_month } && per_month@.len() == rem
                    && forall|i: int|
                    0 <= i < rem ==> per_month@[i] == split_share(need, rem, i)
            }
        }),
        (goal.kind matches GoalKind::MonthlyFunding { funding_balance } ==> r == (
        GoalReport::MonthlyNeeded {
            amount: (if funding_balance > budgeted_this_month {
                funding_balance - budgeted_this_month
            } else {
                0
            }) as i64,
        })),
{
    match goal.kind {
        GoalKind::TargetCategoryBalance { target_balance } => {
            let per_mille: i64 = if balance <= 0 {
                0
            } else if balance >= target_balance {
                1000
            } else {
                proof {
                    assert(0 <= 1000 * (balance as int) / (target_balance as int) < 1000)
                        by (nonlinear_arith)
                        requires 0 < balance < target_balance;
                }
                ((1000i128 * (balance as i128)) / (target_balance as i128)) as i64
            };
            GoalReport::Progress { per_mille }
        },
        GoalKind::TargetCategoryBalanceByDate { target_balance, by_date } => {
            let cur_idx = month_index_of(current);
            let by_idx = month_index_of(by_date);
            if by_idx <= cur_idx {
                if balance >= target_balance {
                    GoalReport::FundingPlan { per_month: Vec::new() }
                } else {
                    GoalReport::Overdue
                }
            } else {
                let rem = (by_idx - cur_idx) as usize;
                let need: i64 = if target_balance > balance {
                    target_balance - balance
                } else {
                    0
                };
                let per_month = split_evenly(need, rem);
                GoalReport::FundingPlan { per_month }
            }
        },
        GoalKind::MonthlyFunding { funding_balance } => {
            let amount: i64 = if funding_balance > budgeted_this_month {
                funding_balance - budgeted_this_month
            } else {
                0
            };
            GoalReport::MonthlyNeeded { amount }
        },
    }
}

} // verus!
