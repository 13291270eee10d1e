//! The transaction engine: committing a transaction onto the budget
//! and reversing a posted one. A commit touches exactly three owners —
//! the account, the category or transfer account, and the month — and
//! is atomic: every precondition is checked before anything mutates.

use vstd::prelude::*;
use crate::budget::Budget;
use crate::dates::MonthKey;
use crate::entities::{
    Account, BudgetError, Category, CategoryMonth, ClearedStatus, Month, PostedTransaction,
    Transaction,
};
use crate::money::fits_i64;

verus! {

/// An account after an amount has been posted to it: the balance moves
/// by the amount, which is routed into the cleared or the uncleared
/// part by the settlement status.
pub open spec fn account_posted(a: Account, amount: int, cleared: ClearedStatus) -> Account {
    Account {
        balance: (a.balance + amount) as i64,
        cleared_balance: if cleared.counts_as_cleared() {
            (a.cleared_balance + amount) as i64
        } else {
            a.cleared_balance
        },
        uncleared_balance: if !cleared.counts_as_cleared() {
            (a.uncleared_balance + amount) as i64
        } else {
            a.uncleared_balance
        },
        ..a
    }
}

/// A month after non-inflow activity has been posted to it.
pub open spec fn month_activity_posted(mo: Month, amount: int) -> Month {
    Month { activity: (mo.activity + amount) as i64, ..mo }
}

/// A month after inflow income has been posted to it: the income and
/// the amount still to be budgeted both grow by the amount.
pub open spec fn month_income_posted(mo: Month, amount: int) -> Month {
    Month {
        income: (mo.income + amount) as i64,
        to_be_budgeted: (mo.to_be_budgeted + amount) as i64,
        ..mo
    }
}

/// A later month after an earlier month's income changed: only the
/// carried-forward to-be-budgeted amount moves.
pub open spec fn month_tbb_shifted(mo: Month, amount: int) -> Month {
    Month { to_be_budgeted: (mo.to_be_budgeted + amount) as i64, ..mo }
}

/// A category's month entry after activity has been posted to it.
pub open spec fn cat_month_activity_posted(cm: CategoryMonth, amount: int) -> CategoryMonth {
    CategoryMonth {
        activity: (cm.activity + amount) as i64,
        balance: (cm.balance + amount) as i64,
        ..cm
    }
}

/// A later category month entry after an earlier month changed: only
/// the carried-forward balance moves.
pub open spec fn cat_month_balance_shifted(cm: CategoryMonth, amount: int) -> CategoryMonth {
    CategoryMonth { balance: (cm.balance + amount) as i64, ..cm }
}

/// Whether the budget has created a month under this key.
pub open spec fn has_month(b: Budget, key: MonthKey) -> bool {
    exists|i: int| 0 <= i < b.months@.len() && (#[trigger] b.months@[i]).month == key
}

/// The index of the month with this key (the months are gapless, so
/// the key is unique).
pub open spec fn spec_month_index(b: Budget, key: MonthKey) -> int {
    choose|i: int| 0 <= i < b.months@.len() && (#[trigger] b.months@[i]).month == key
}

/// Whether the transaction is posted against the designated inflow
/// category, feeding the month's income instead of category activity.
pub open spec fn posts_to_inflow(b: Budget, tx: Transaction) -> bool {
    &&& tx.category is Some
    &&& b.inflow_category is Some
    &&& tx.category->Some_0.0 == b.inflow_category->Some_0.0
}

/// In a gapless month sequence, the month key's position grows one per
/// index step.
pub proof fn lemma_month_index_distance(b: Budget, i: int, j: int)
    requires
        b.months_gapless(),
        0 <= i <= j < b.months@.len(),
    ensures
        b.months@[j].month.index() == b.months@[i].month.index() + (j - i),
    decreases j - i,
{
    if i < j {
        lemma_month_index_distance(b, i, j - 1);
    }
}

/// In a gapless month sequence, no two months share a key.
pub proof fn lemma_month_key_unique(b: Budget, i: int, j: int)
    requires
        b.months_gapless(),
        0 <= i < b.months@.len(),
        0 <= j < b.months@.len(),
        b.months@[i].month == b.months@[j].month,
    ensures
        i == j,
{
    if i <= j {
        lemma_month_index_distance(b, i, j);
    } else {
        lemma_month_index_distance(b, j, i);
    }
}

/// The first error a commit of `tx` runs into, in the order the engine
/// validates, or nothing when the commit is accepted.
pub open spec fn commit_check(b: Budget, tx: Transaction) -> Option<BudgetError> {
    if !tx.shape_ok() || (tx.is_transfer() && tx.transfer_account->Some_0.0 == tx.account.0) {
        Some(BudgetError::InvalidTransaction)
    } else if !tx.date.wf() {
        Some(BudgetError::InvalidTransaction)
    } else if tx.account.0 >= b.accounts@.len() || b.accounts@[tx.account.0 as int].is_deleted {
        Some(BudgetError::NotFound)
    } else if b.accounts@[tx.account.0 as int].is_closed {
        Some(BudgetError::ClosedAccount)
    } else if tx.is_transfer() {
        let t = tx.transfer_account->Some_0.0;
        if t >= b.accounts@.len() || b.accounts@[t as int].is_deleted {
            Some(BudgetError::NotFound)
        } else if b.accounts@[t as int].is_closed {
            Some(BudgetError::ClosedAccount)
        } else {
            None
        }
    } else {
        let c = tx.category->Some_0.0;
        if c >= b.categories@.len() {
            Some(BudgetError::NotFound)
        } else if !has_month(b, tx.date.ym) {
            Some(BudgetError::NotFound)
        } else {
            None
        }
    }
}

/// Every sum the posting may write into this account stays an `i64`.
pub open spec fn account_fits(a: Account, amount: int) -> bool {
    &&& fits_i64(a.balance + amount)
    &&& fits_i64(a.cleared_balance + amount)
    &&& fits_i64(a.uncleared_balance + amount)
}

/// Every sum an accepted commit of `tx` would write stays an `i64`:
/// the machine-limit precondition of `record_transaction`.
pub open spec fn commit_fits(b: Budget, tx: Transaction) -> bool {
    let a = tx.account.0 as int;
    let amt = tx.amount as int;
    &&& account_fits(b.accounts@[a], amt)
    &&& (tx.is_transfer() ==> account_fits(
        b.accounts@[tx.transfer_account->Some_0.0 as int],
        -amt,
    ))
    &&& (!tx.is_transfer() ==> {
        let m = spec_month_index(b, tx.date.ym);
        let c = tx.category->Some_0.0 as int;
        if posts_to_inflow(b, tx) {
            &&& fits_i64(b.months@[m].income + amt)
            &&& forall|k: int|
                m <= k < b.months@.len() ==> fits_i64(
                    (#[trigger] b.months@[k]).to_be_budgeted + amt,
                )
        } else {
            &&& fits_i64(b.months@[m].activity + amt)
            &&& fits_i64(b.categories@[c].monthly@[m].activity + amt)
            &&& forall|k: int|
                m <= k < b.months@.len() ==> fits_i64(
                    (#[trigger] b.categories@[c].monthly@[k]).balance + amt,
                )
        }
    })
}

/// Everything a transaction never touches is the same in two budget
/// states.
pub open spec fn tx_untouched(b0: Budget, b1: Budget) -> bool {
    &&& b1.name == b0.name
    &&& b1.settings == b0.settings
    &&& b1.payees@ == b0.payees@
    &&& b1.category_groups@ == b0.category_groups@
    &&& b1.inflow_category == b0.inflow_category
}

/// The months of `b1` are those of `b0` with income posted at `m` and
/// the to-be-budgeted amount carried forward into every later month.
pub open spec fn months_income_updated(s0: Seq<Month>, s1: Seq<Month>, m: int, amount: int) -> bool {
    &&& s1.len() == s0.len()
    &&& forall|k: int| 0 <= k < m ==> s1[k] == s0[k]
    &&& s1[m] == month_income_posted(s0[m], amount)
    &&& forall|k: int|
        m < k < s0.len() ==> s1[k] == month_tbb_shifted(#[trigger] s0[k], amount)
}

/// The categories of `b1` are those of `b0` with activity posted to
/// category `c` in month `m` and the balance carried forward into every
/// later month of that category.
pub open spec fn category_activity_updated(
    s0: Seq<Category>,
    s1: Seq<Category>,
    c: int,
    m: int,
    amount: int,
) -> bool {
    &&& s1.len() == s0.len()
    &&& forall|j: int| 0 <= j < s0.len() && j != c ==> s1[j] == s0[j]
    &&& s0[c].same_meta(s1[c])
    &&& s1[c].monthly@.len() == s0[c].monthly@.len()
    &&& forall|k: int| 0 <= k < m ==> s1[c].monthly@[k] == s0[c].monthly@[k]
    &&& s1[c].monthly@[m] == cat_month_activity_posted(s0[c].monthly@[m], amount)
    &&& forall|k: int|
        m < k < s0[c].monthly@.len() ==> s1[c].monthly@[k] == cat_month_balance_shifted(
            #[trigger] s0[c].monthly@[k],
            amount,
        )
}

/// How an accepted commit of `tx` turns `b0` into `b1`: exactly one
/// posted record is appended, the account (and, for a transfer, the
/// counter account) moves by the amount, and — for a non-transfer —
/// the owning month and category absorb the amount; a transfer touches
/// no category and no month.
pub open spec fn commit_rel(b0: Budget, b1: Budget, tx: Transaction) -> bool {
    let p = b1.transactions@.last();
    let a = tx.account.0 as int;
    let amt = tx.amount as int;
    &&& tx_untouched(b0, b1)
    &&& b1.transactions@.len() == b0.transactions@.len() + 1
    &&& forall|t: int| 0 <= t < b0.transactions@.len() ==> b1.transactions@[t] == b0.transactions@[t]
    &&& p.details == tx
    &&& !p.is_reversed
    &&& p.is_inflow == posts_to_inflow(b0, tx)
    &&& if tx.is_transfer() {
        let t = tx.transfer_account->Some_0.0 as int;
        &&& b1.accounts@ == b0.accounts@.update(a, account_posted(b0.accounts@[a], amt, tx.cleared))
            .update(t, account_posted(b0.accounts@[t], -amt, tx.cleared))
        &&& b1.months@ == b0.months@
        &&& b1.categories@ == b0.categories@
    } else {
        let m = p.month_index as int;
        let c = tx.category->Some_0.0 as int;
        &&& b1.accounts@ == b0.accounts@.update(a, account_posted(b0.accounts@[a], amt, tx.cleared))
        &&& m < b0.months@.len()
        &&& b0.months@[m].month == tx.date.ym
        &&& if posts_to_inflow(b0, tx) {
            &&& months_income_updated(b0.months@, b1.months@, m, amt)
            &&& b1.categories@ == b0.categories@
        } else {
            &&& b1.months@ == b0.months@.update(m, month_activity_posted(b0.months@[m], amt))
            &&& category_activity_updated(b0.categories@, b1.categories@, c, m, amt)
        }
    }
}

impl Budget {
    /// Posts an amount (or, with `subtract`, its negation) to one
    /// account, keeping the account balanced and the budget well
    /// formed; nothing else changes.
    fn apply_to_account(&mut self, a: usize, amount: i64, subtract: bool, cleared: ClearedStatus)
        requires
            old(self).wf(),
            a < old(self).accounts@.len(),
            account_fits(
                old(self).accounts@[a as int],
                if subtract { -(amount as int) } else { amount as int },
            ),
        ensures
            final(self).wf(),
            final(self).accounts@ == old(self).accounts@.update(
                a as int,
                account_posted(
                    old(self).accounts@[a as int],
                    if subtract { -(amount as int) } else { amount as int },
                    cleared,
                ),
            ),
            tx_untouched(*old(self), *final(self)),
            final(self).months@ == old(self).months@,
            final(self).categories@ == old(self).categories@,
            final(self).transactions@ == old(self).transactions@,
    {
        let ghost delta: int = if subtract { -(amount as int) } else { amount as int };
        let b = self.accounts[a].balance;
        self.accounts[a].balance = if subtract { b - amount } else { b + amount };
        match cleared {
            ClearedStatus::Cleared | ClearedStatus::Reconciled => {
                let cb = self.accounts[a].cleared_balance;
                self.accounts[a].cleared_balance = if subtract { cb - amount } else { cb + amount };
            },
            ClearedStatus::Uncleared => {
                let ub = self.accounts[a].uncleared_balance;
                self.accounts[a].uncleared_balance = if subtract { ub - amount } else { ub + amount };
            },
        }
        proof {
            assert(final(self).accounts@ =~= old(self).accounts@.update(
                a as int,
                account_posted(old(self).accounts@[a as int], delta, cleared),
            ));
            assert forall|i: int|
                0 <= i < final(self).accounts@.len() implies (#[trigger] final(self).accounts@[i]).balanced() by {
                assert(old(self).accounts@[i].balanced());
            }
            assert forall|t: int|
                0 <= t < final(self).transactions@.len() && !(#[trigger] final(self).transactions@[t]).is_reversed implies final(self).posted_ok(
                final(self).transactions@[t],
            ) by {
                assert(old(self).posted_ok(old(self).transactions@[t]));
            }
        }
    }

    /// Posts inflow income (or, with `subtract`, its negation) to month
    /// `m` and carries the to-be-budgeted change into every later
    /// month, keeping the month chain intact; nothing else changes.
    fn apply_month_income(&mut self, m: usize, amount: i64, subtract: bool)
        requires
            old(self).wf(),
            m < old(self).months@.len(),
            fits_i64(
                old(self).months@[m as int].income + if subtract {
                    -(amount as int)
                } else {
                    amount as int
                },
            ),
            forall|k: int|
                m <= k < old(self).months@.len() ==> fits_i64(
                    (#[trigger] old(self).months@[k]).to_be_budgeted + if subtract {
                        -(amount as int)
                    } else {
                        amount as int
                    },
                ),
        ensures
            final(self).wf(),
            months_income_updated(
                old(self).months@,
                final(self).months@,
                m as int,
                if subtract { -(amount as int) } else { amount as int },
            ),
            tx_untouched(*old(self), *final(self)),
            final(self).accounts@ == old(self).accounts@,
            final(self).categories@ == old(self).categories@,
            final(self).transactions@ == old(self).transactions@,
    {
        let ghost delta: int = if subtract { -(amount as int) } else { amount as int };
        let n = self.months.len();
        let mut k = m;
        while k < n
            invariant
                m <= k <= n,
                n == self.months@.len(),
                self.months@.len() == old(self).months@.len(),
                forall|j: int| 0 <= j < m ==> self.months@[j] == old(self).months@[j],
                forall|j: int|
                    m <= j < k ==> self.months@[j] == month_tbb_shifted(
                        #[trigger] old(self).months@[j],
                        delta,
                    ),
                forall|j: int| k <= j < n ==> self.months@[j] == old(self).months@[j],
                delta == if subtract { -(amount as int) } else { amount as int },
                forall|j: int|
                    m <= j < n ==> fits_i64(
                        (#[trigger] old(self).months@[j]).to_be_budgeted + delta,
                    ),
                self.accounts@ == old(self).accounts@,
                self.categories@ == old(self).categories@,
                self.transactions@ == old(self).transactions@,
                tx_untouched(*old(self), *self),
            decreases n - k,
        {
            let t = self.months[k].to_be_budgeted;
            self.months[k].to_be_budgeted = if subtract { t - amount } else { t + amount };
            k = k + 1;
        }
        let inc = self.months[m].income;
        self.months[m].income = if subtract { inc - amount } else { inc + amount };
        proof {
            lemma_wf_after_income(*old(self), *final(self), m as int, delta);
        }
    }

    /// Posts non-inflow activity (or its negation) to month `m`;
    /// the month chain is untouched, nothing else changes.
    fn apply_month_activity(&mut self, m: usize, amount: i64, subtract: bool)
        requires
            old(self).wf(),
            m < old(self).months@.len(),
            fits_i64(
                old(self).months@[m as int].activity + if subtract {
                    -(amount as int)
                } else {
                    amount as int
                },
            ),
        ensures
            final(self).wf(),
            final(self).months@ == old(self).months@.update(
                m as int,
                month_activity_posted(
                    old(self).months@[m as int],
                    if subtract { -(amount as int) } else { amount as int },
                ),
            ),
            tx_untouched(*old(self), *final(self)),
            final(self).accounts@ == old(self).accounts@,
            final(self).categories@ == old(self).categories@,
            final(self).transactions@ == old(self).transactions@,
    {
        let ghost delta: int = if subtract { -(amount as int) } else { amount as int };
        let act = self.months[m].activity;
        self.months[m].activity = if subtract { act - amount } else { act + amount };
        proof {
            assert(final(self).months@ =~= old(self).months@.update(
                m as int,
                month_activity_posted(old(self).months@[m as int], delta),
            ));
            lemma_wf_months_replaced(*old(self), *final(self));
        }
    }

    /// Posts activity (or its negation) to category `c` in month `m`
    /// and carries the balance change into every later month of the
    /// category, keeping the category chain intact; nothing else
    /// changes.
    fn apply_category_activity(&mut self, c: usize, m: usize, amount: i64, subtract: bool)
        requires
            old(self).wf(),
            c < old(self).categories@.len(),
            m < old(self).months@.len(),
            fits_i64(
                old(self).categories@[c as int].monthly@[m as int].activity + if subtract {
                    -(amount as int)
                } else {
                    amount as int
                },
            ),
            forall|k: int|
                m <= k < old(self).months@.len() ==> fits_i64(
                    (#[trigger] old(self).categories@[c as int].monthly@[k]).balance + if subtract {
                        -(amount as int)
                    } else {
                        amount as int
                    },
                ),
        ensures
            final(self).wf(),
            category_activity_updated(
                old(self).categories@,
                final(self).categories@,
                c as int,
                m as int,
                if subtract { -(amount as int) } else { amount as int },
            ),
            tx_untouched(*old(self), *final(self)),
            final(self).accounts@ == old(self).accounts@,
            final(self).months@ == old(self).months@,
            final(self).transactions@ == old(self).transactions@,
    {
        let ghost delta: int = if subtract { -(amount as int) } else { amount as int };
        let n = self.categories[c].monthly.len();
        proof {
            assert(n == old(self).months@.len());
        }
        let mut k = m;
        while k < n
            invariant
                m <= k <= n,
                c < self.categories@.len(),
                self.categories@.len() == old(self).categories@.len(),
                n == self.categories@[c as int].monthly@.len(),
                n == old(self).categories@[c as int].monthly@.len(),
                forall|j: int|
                    0 <= j < self.categories@.len() && j != c ==> self.categories@[j] == old(self).categories@[j],
                old(self).categories@[c as int].same_meta(self.categories@[c as int]),
                forall|j: int|
                    0 <= j < m ==> self.categories@[c as int].monthly@[j] == old(self).categories@[c as int].monthly@[j],
                forall|j: int|
                    m <= j < k ==> self.categories@[c as int].monthly@[j]
                        == cat_month_balance_shifted(
                        #[trigger] old(self).categories@[c as int].monthly@[j],
                        delta,
                    ),
                forall|j: int|
                    k <= j < n ==> self.categories@[c as int].monthly@[j] == old(self).categories@[c as int].monthly@[j],
                delta == if subtract { -(amount as int) } else { amount as int },
                forall|j: int|
                    m <= j < n ==> fits_i64(
                        (#[trigger] old(self).categories@[c as int].monthly@[j]).balance + delta,
                    ),
                self.accounts@ == old(self).accounts@,
                self.months@ == old(self).months@,
                self.transactions@ == old(self).transactions@,
                tx_untouched(*old(self), *self),
            decreases n - k,
        {
            let bal = self.categories[c].monthly[k].balance;
            self.categories[c].monthly[k].balance = if subtract { bal - amount } else { bal + amount };
            k = k + 1;
        }
        let act = self.categories[c].monthly[m].activity;
        self.categories[c].monthly[m].activity = if subtract { act - amount } else { act + amount };
        proof {
            lemma_wf_after_category_activity(*old(self), *final(self), c as int, m as int, delta);
        }
    }
}

/// The error a reversal of the posted transaction at `i` runs into, or
/// nothing when the reversal is accepted.
pub open spec fn reverse_check(b: Budget, i: int) -> Option<BudgetError> {
    if i >= b.transactions@.len() || b.transactions@[i].is_reversed {
        Some(BudgetError::NotFound)
    } else {
        None
    }
}

/// Every sum an accepted reversal of the posted transaction at `i`
/// would write stays an `i64`.
pub open spec fn reverse_fits(b: Budget, i: int) -> bool {
    let p = b.transactions@[i];
    let tx = p.details;
    let a = tx.account.0 as int;
    let amt = tx.amount as int;
    &&& account_fits(b.accounts@[a], -amt)
    &&& (tx.is_transfer() ==> account_fits(b.accounts@[tx.transfer_account->Some_0.0 as int], amt))
    &&& (!tx.is_transfer() ==> {
        let m = p.month_index as int;
        let c = tx.category->Some_0.0 as int;
        if p.is_inflow {
            &&& fits_i64(b.months@[m].income - amt)
            &&& forall|k: int|
                m <= k < b.months@.len() ==> fits_i64(
                    (#[trigger] b.months@[k]).to_be_budgeted - amt,
                )
        } else {
            &&& fits_i64(b.months@[m].activity - amt)
            &&& fits_i64(b.categories@[c].monthly@[m].activity - amt)
            &&& forall|k: int|
                m <= k < b.months@.len() ==> fits_i64(
                    (#[trigger] b.categories@[c].monthly@[k]).balance - amt,
                )
        }
    })
}

/// How an accepted reversal of the posted transaction at `i` turns `b0`
/// into `b1`: the record is soft-deleted and the exact negation of the
/// commit's effects is applied to every balance the commit touched.
pub open spec fn reverse_rel(b0: Budget, b1: Budget, i: int) -> bool {
    let p = b0.transactions@[i];
    let tx = p.details;
    let a = tx.account.0 as int;
    let amt = tx.amount as int;
    &&& tx_untouched(b0, b1)
    &&& b1.transactions@ == b0.transactions@.update(i, (PostedTransaction { is_reversed: true, ..p }))
    &&& if tx.is_transfer() {
        let t = tx.transfer_account->Some_0.0 as int;
        &&& b1.accounts@ == b0.accounts@.update(
            a,
            account_posted(b0.accounts@[a], -amt, tx.cleared),
        ).update(t, account_posted(b0.accounts@[t], amt, tx.cleared))
        &&& b1.months@ == b0.months@
        &&& b1.categories@ == b0.categories@
    } else {
        let m = p.month_index as int;
        let c = tx.category->Some_0.0 as int;
        &&& b1.accounts@ == b0.accounts@.update(
            a,
            account_posted(b0.accounts@[a], -amt, tx.cleared),
        )
        &&& if p.is_inflow {
            &&& months_income_updated(b0.months@, b1.months@, m, -amt)
            &&& b1.categories@ == b0.categories@
        } else {
            &&& b1.months@ == b0.months@.update(m, month_activity_posted(b0.months@[m], -amt))
            &&& category_activity_updated(b0.categories@, b1.categories@, c, m, -amt)
        }
    }
}

impl Budget {
    /// Applies a validated transfer: the amount moves out of the
    /// account and, equal and opposite, into the counter account; no
    /// category and no month is touched.
    #[verifier::spinoff_prover]
    #[verifier::rlimit(60)]
    fn commit_transfer(&mut self, tx: Transaction, a: usize, t: usize)
        requires
            old(self).wf(),
            commit_fits(*old(self), tx),
            tx.shape_ok(),
            tx.date.wf(),
            tx.is_transfer(),
            a == tx.account.0,
            t == tx.transfer_account->Some_0.0,
            t != a,
            a < old(self).accounts@.len(),
            t < old(self).accounts@.len(),
        ensures
            final(self).wf(),
            commit_rel(*old(self), *final(self), tx),
    {
        let amount = tx.amount;
        let cleared = tx.cleared;
        self.apply_to_account(a, amount, false, cleared);
        proof {
            assert(self.accounts@[t as int] == old(self).accounts@[t as int]);
        }
        self.apply_to_account(t, amount, true, cleared);
        let ghost pre_push = *self;
        self.transactions.push(
            PostedTransaction { details: tx, month_index: 0, is_inflow: false, is_reversed: false },
        );
        proof {
            assert forall|j: int|
                0 <= j < final(self).transactions@.len() && !(#[trigger] final(self).transactions@[j]).is_reversed implies final(self).posted_ok(
                final(self).transactions@[j],
            ) by {
                if j < pre_push.transactions@.len() {
                    assert(pre_push.posted_ok(pre_push.transactions@[j]));
                }
            }
        }
    }

    /// Applies a validated non-transfer transaction: the amount moves
    /// into the account and is absorbed by the owning month and, unless
    /// the category is the designated inflow one, by the category's
    /// envelope.
    #[verifier::spinoff_prover]
    #[verifier::rlimit(60)]
    fn commit_normal(&mut self, tx: Transaction, c: usize, m: usize)
        requires
            old(self).wf(),
            commit_fits(*old(self), tx),
            tx.shape_ok(),
            tx.date.wf(),
            !tx.is_transfer(),
            c == tx.category->Some_0.0,
            tx.account.0 < old(self).accounts@.len(),
            c < old(self).categories@.len(),
            m < old(self).months@.len(),
            old(self).months@[m as int].month == tx.date.ym,
        ensures
            final(self).wf(),
            commit_rel(*old(self), *final(self), tx),
    {
        proof {
            assert(has_month(*old(self), tx.date.ym));
            let w = spec_month_index(*old(self), tx.date.ym);
            assert(0 <= w < old(self).months@.len() && old(self).months@[w].month == tx.date.ym);
            lemma_month_key_unique(*old(self), m as int, w);
        }
        let a = tx.account.0;
        let amount = tx.amount;
        let cleared = tx.cleared;
        self.apply_to_account(a, amount, false, cleared);
        let is_inflow = match self.inflow_category {
            Some(ic) => ic.0 == c,
            None => false,
        };
        if is_inflow {
            self.apply_month_income(m, amount, false);
        } else {
            self.apply_month_activity(m, amount, false);
            self.apply_category_activity(c, m, amount, false);
        }
        let ghost pre_push = *self;
        self.transactions.push(
            PostedTransaction { details: tx, month_index: m, is_inflow, is_reversed: false },
        );
        proof {
            assert(final(self).months@[m as int].month == old(self).months@[m as int].month);
            assert forall|j: int|
                0 <= j < final(self).transactions@.len() && !(#[trigger] final(self).transactions@[j]).is_reversed implies final(self).posted_ok(
                final(self).transactions@[j],
            ) by {
                if j < pre_push.transactions@.len() {
                    assert(pre_push.posted_ok(pre_push.transactions@[j]));
                }
            }
        }
    }

    /// Commits a transaction: validates every reference first and, only
    /// if all validation passes, atomically posts the amount to the
    /// account, to the counter account for a transfer, and otherwise to
    /// the owning category and month (or to the month's income, for the
    /// designated inflow category). On failure the exact first error is
    /// returned and nothing has changed.
    #[verifier::rlimit(60)]
    pub fn record_transaction(&mut self, tx: Transaction) -> (r: Result<(), BudgetError>)
        requires
            old(self).wf(),
            commit_check(*old(self), tx) is None ==> commit_fits(*old(self), tx),
        ensures
            final(self).wf(),
            match r {
                Ok(()) => {
                    &&& commit_check(*old(self), tx) is None
                    &&& commit_rel(*old(self), *final(self), tx)
                },
                Err(e) => {
                    &&& commit_check(*old(self), tx) == Some(e)
                    &&& *final(self) == *old(self)
                },
            },
    {
        let shape_ok = match (&tx.category, &tx.transfer_account) {
            (Some(_), None) => true,
            (None, Some(_)) => true,
            _ => false,
        };
        if !shape_ok {
            return Err(BudgetError::InvalidTransaction);
        }
        match tx.transfer_account {
            Some(t) => {
                if t.0 == tx.account.0 {
                    return Err(BudgetError::InvalidTransaction);
                }
            },
            None => {},
        }
        if tx.date.ym.year > crate::dates::MAX_YEAR || tx.date.ym.month < 1 || tx.date.ym.month
            > 12 || tx.date.day < 1 || tx.date.day > crate::dates::days_in_month_exec(
            tx.date.ym.year,
            tx.date.ym.month,
        ) {
            return Err(BudgetError::InvalidTransaction);
        }
        let a = tx.account.0;
        if a >= self.accounts.len() {
            return Err(BudgetError::NotFound);
        }
        if self.accounts[a].is_deleted {
            return Err(BudgetError::NotFound);
        }
        if self.accounts[a].is_closed {
            return Err(BudgetError::ClosedAccount);
        }
        match tx.transfer_account {
            Some(t) => {
                if t.0 >= self.accounts.len() || self.accounts[t.0].is_deleted {
                    return Err(BudgetError::NotFound);
                }
                if self.accounts[t.0].is_closed {
                    return Err(BudgetError::ClosedAccount);
                }
                self.commit_transfer(tx, a, t.0);
                Ok(())
            },
            None => {
                let c = match tx.category {
                    Some(c) => c,
                    None => {
                        return Err(BudgetError::InvalidTransaction);
                    },
                };
                if c.0 >= self.categories.len() {
                    return Err(BudgetError::NotFound);
                }
                let mi_opt = self.find_month_index(tx.date.ym);
                let m = match mi_opt {
                    Some(m) => m,
                    None => {
                        return Err(BudgetError::NotFound);
                    },
                };
                self.commit_normal(tx, c.0, m);
                Ok(())
            },
        }
    }

    /// Reverses the posted transaction at index `i`: soft-deletes the
    /// record and applies the exact negation of the commit's effects to
    /// every balance the commit touched. Fails with `NotFound` exactly
    /// when the index was never issued or the transaction is already
    /// reversed, and then changes nothing.
    #[verifier::rlimit(100)]
    pub fn reverse_transaction(&mut self, i: usize) -> (r: Result<(), BudgetError>)
        requires
            old(self).wf(),
            reverse_check(*old(self), i as int) is None ==> reverse_fits(*old(self), i as int),
        ensures
            final(self).wf(),
            match r {
                Ok(()) => {
                    &&& reverse_check(*old(self), i as int) is None
                    &&& reverse_rel(*old(self), *final(self), i as int)
                },
                Err(e) => {
                    &&& reverse_check(*old(self), i as int) == Some(e)
                    &&& *final(self) == *old(self)
                },
            },
    {
        if i >= self.transactions.len() {
            return Err(BudgetError::NotFound);
        }
        if self.transactions[i].is_reversed {
            return Err(BudgetError::NotFound);
        }
        proof {
            assert(old(self).posted_ok(old(self).transactions@[i as int]));
        }
        let a = self.transactions[i].details.account.0;
        let amount = self.transactions[i].details.amount;
        let cleared = self.transactions[i].details.cleared;
        let transfer = self.transactions[i].details.transfer_account;
        let category = self.transactions[i].details.category;
        let m = self.transactions[i].month_index;
        let is_inflow = self.transactions[i].is_inflow;
        match transfer {
            Some(t) => {
                self.apply_to_account(a, amount, true, cleared);
                proof {
                    assert(self.accounts@[t.0 as int] == old(self).accounts@[t.0 as int]);
                }
                self.apply_to_account(t.0, amount, false, cleared);
            },
            None => {
                self.apply_to_account(a, amount, true, cleared);
                if is_inflow {
                    self.apply_month_income(m, amount, true);
                } else {
                    self.apply_month_activity(m, amount, true);
                    match category {
                        Some(c) => {
                            self.apply_category_activity(c.0, m, amount, true);
                        },
                        None => {},
                    }
                }
            },
        }
        let ghost pre_mark = *self;
        self.transactions[i].is_reversed = true;
        proof {
            assert(final(self).transactions@ =~= old(self).transactions@.update(
                i as int,
                (PostedTransaction { is_reversed: true, ..old(self).transactions@[i as int] }),
            ));
            assert forall|j: int|
                0 <= j < final(self).transactions@.len() && !(#[trigger] final(self).transactions@[j]).is_reversed implies final(self).posted_ok(
                final(self).transactions@[j],
            ) by {
                assert(pre_mark.posted_ok(pre_mark.transactions@[j]));
            }
        }
        Ok(())
    }
}

/// What a committed-then-reversed budget shares with the state before
/// the commit: every balance is back, bit-exact, and the ledger differs
/// only by the one record, now marked reversed.
pub open spec fn roundtrip_restored(b0: Budget, b2: Budget, tx: Transaction) -> bool {
    &&& b2.accounts@ == b0.accounts@
    &&& b2.months@ == b0.months@
    &&& b2.categories@.len() == b0.categories@.len()
    &&& forall|c: int|
        0 <= c < b0.categories@.len() ==> {
            &&& (#[trigger] b0.categories@[c]).same_meta(b2.categories@[c])
            &&& b2.categories@[c].monthly@ == b0.categories@[c].monthly@
        }
    &&& b2.transactions@.len() == b0.transactions@.len() + 1
    &&& forall|t: int|
        0 <= t < b0.transactions@.len() ==> b2.transactions@[t] == b0.transactions@[t]
    &&& b2.transactions@.last().details == tx
    &&& b2.transactions@.last().is_reversed
    &&& tx_untouched(b0, b2)
}

/// The round trip on one account: posting an amount and then its
/// negation puts the account back, bit-exact.
#[verifier::spinoff_prover]
proof fn lemma_roundtrip_account_single(
    s0: Seq<Account>,
    s1: Seq<Account>,
    s2: Seq<Account>,
    a: int,
    amt: int,
    cleared: ClearedStatus,
)
    requires
        0 <= a < s0.len(),
        account_fits(s0[a], amt),
        s1 == s0.update(a, account_posted(s0[a], amt, cleared)),
        s2 == s1.update(a, account_posted(s1[a], -amt, cleared)),
    ensures
        s2 == s0,
{
    assert(s2 =~= s0);
}

/// The round trip on the two accounts of a transfer.
#[verifier::spinoff_prover]
proof fn lemma_roundtrip_account_transfer(
    s0: Seq<Account>,
    s1: Seq<Account>,
    s2: Seq<Account>,
    a: int,
    t: int,
    amt: int,
    cleared: ClearedStatus,
)
    requires
        0 <= a < s0.len(),
        0 <= t < s0.len(),
        a != t,
        account_fits(s0[a], amt),
        account_fits(s0[t], -amt),
        s1 == s0.update(a, account_posted(s0[a], amt, cleared)).update(
            t,
            account_posted(s0[t], -amt, cleared),
        ),
        s2 == s1.update(a, account_posted(s1[a], -amt, cleared)).update(
            t,
            account_posted(s1[t], amt, cleared),
        ),
    ensures
        s2 == s0,
{
    assert(s2 =~= s0);
}

/// The round trip on the months when the commit posted inflow income.
#[verifier::spinoff_prover]
proof fn lemma_roundtrip_months_income(
    s0: Seq<Month>,
    s1: Seq<Month>,
    s2: Seq<Month>,
    m: int,
    amt: int,
)
    requires
        0 <= m < s0.len(),
        fits_i64(s0[m].income + amt),
        forall|k: int| m <= k < s0.len() ==> fits_i64((#[trigger] s0[k]).to_be_budgeted + amt),
        months_income_updated(s0, s1, m, amt),
        months_income_updated(s1, s2, m, -amt),
    ensures
        s2 == s0,
{
    assert(s2 =~= s0);
}

/// The round trip on the months when the commit posted activity.
#[verifier::spinoff_prover]
proof fn lemma_roundtrip_months_activity(
    s0: Seq<Month>,
    s1: Seq<Month>,
    s2: Seq<Month>,
    m: int,
    amt: int,
)
    requires
        0 <= m < s0.len(),
        fits_i64(s0[m].activity + amt),
        s1 == s0.update(m, month_activity_posted(s0[m], amt)),
        s2 == s1.update(m, month_activity_posted(s1[m], -amt)),
    ensures
        s2 == s0,
{
    assert(s2 =~= s0);
}

/// The round trip on the categories when the commit posted activity to
/// category `c`.
#[verifier::spinoff_prover]
proof fn lemma_roundtrip_categories(
    s0: Seq<Category>,
    s1: Seq<Category>,
    s2: Seq<Category>,
    c: int,
    m: int,
    amt: int,
)
    requires
        0 <= c < s0.len(),
        0 <= m < s0[c].monthly@.len(),
        forall|k: int|
            m <= k < s0[c].monthly@.len() ==> fits_i64((#[trigger] s0[c].monthly@[k]).balance + amt),
        fits_i64(s0[c].monthly@[m].activity + amt),
        category_activity_updated(s0, s1, c, m, amt),
        category_activity_updated(s1, s2, c, m, -amt),
    ensures
        s2.len() == s0.len(),
        forall|j: int|
            0 <= j < s0.len() ==> {
                &&& (#[trigger] s0[j]).same_meta(s2[j])
                &&& s2[j].monthly@ == s0[j].monthly@
            },
{
    assert forall|j: int|
        0 <= j < s0.len() implies {
        &&& (#[trigger] s0[j]).same_meta(s2[j])
        &&& s2[j].monthly@ == s0[j].monthly@
    } by {
        if j == c {
            assert(s2[j].monthly@ =~= s0[j].monthly@);
        } else {
            assert(s2[j] == s0[j]);
        }
    }
}

/// Reversing a commit is a round trip: after `record_transaction` and
/// then `reverse_transaction` of the record it appended, every account,
/// category and month balance is bit-exactly what it was before the
/// commit, and the ledger differs only by the one record, now marked
/// reversed.
#[verifier::spinoff_prover]
#[verifier::rlimit(100)]
pub proof fn lemma_reverse_restores_balances(b0: Budget, b1: Budget, b2: Budget, tx: Transaction)
    requires
        b0.wf(),
        commit_check(b0, tx) is None,
        commit_fits(b0, tx),
        commit_rel(b0, b1, tx),
        reverse_rel(b1, b2, b0.transactions@.len() as int),
    ensures
        roundtrip_restored(b0, b2, tx),
{
    let i = b0.transactions@.len() as int;
    let p = b1.transactions@[i];
    let a = tx.account.0 as int;
    let amt = tx.amount as int;
    assert(p.details == tx);
    if tx.is_transfer() {
        let t = tx.transfer_account->Some_0.0 as int;
        lemma_roundtrip_account_transfer(
            b0.accounts@,
            b1.accounts@,
            b2.accounts@,
            a,
            t,
            amt,
            tx.cleared,
        );
        assert(b2.months@ == b0.months@);
    } else {
        lemma_roundtrip_account_single(b0.accounts@, b1.accounts@, b2.accounts@, a, amt, tx.cleared);
        let m = p.month_index as int;
        assert(m == spec_month_index(b0, tx.date.ym)) by {
            assert(has_month(b0, tx.date.ym));
            let w = spec_month_index(b0, tx.date.ym);
            lemma_month_key_unique(b0, m, w);
        }
        if p.is_inflow {
            lemma_roundtrip_months_income(b0.months@, b1.months@, b2.months@, m, amt);
        } else {
            let c = tx.category->Some_0.0 as int;
            lemma_roundtrip_months_activity(b0.months@, b1.months@, b2.months@, m, amt);
            lemma_roundtrip_categories(
                b0.categories@,
                b1.categories@,
                b2.categories@,
                c,
                m,
                amt,
            );
        }
    }
    assert(b2.transactions@.last() == (PostedTransaction { is_reversed: true, ..p }));
}

/// A transfer touches no envelope and no month: committing a transfer
/// leaves every category and every month exactly as it was.
pub proof fn lemma_transfer_touches_no_category_or_month(b0: Budget, b1: Budget, tx: Transaction)
    requires
        commit_rel(b0, b1, tx),
        tx.is_transfer(),
    ensures
        b1.categories@ == b0.categories@,
        b1.months@ == b0.months@,
{
}

/// Well-formedness survives replacing months so long as their keys,
/// budgeted amounts and to-be-budgeted chain are untouched.
pub(crate) proof fn lemma_wf_months_replaced(b0: Budget, b1: Budget)
    requires
        b0.wf(),
        b1.accounts@ == b0.accounts@,
        b1.categories@ == b0.categories@,
        b1.transactions@ == b0.transactions@,
        b1.payees@ == b0.payees@,
        b1.category_groups@ == b0.category_groups@,
        b1.months@.len() == b0.months@.len(),
        forall|k: int|
            0 <= k < b0.months@.len() ==> {
                &&& (#[trigger] b1.months@[k]).month == b0.months@[k].month
                &&& b1.months@[k].budgeted == b0.months@[k].budgeted
                &&& b1.months@[k].income == b0.months@[k].income
                &&& b1.months@[k].to_be_budgeted == b0.months@[k].to_be_budgeted
            },
        b1.inflow_category == b0.inflow_category,
    ensures
        b1.wf(),
{
    assert forall|t: int|
        0 <= t < b1.transactions@.len() && !(#[trigger] b1.transactions@[t]).is_reversed implies b1.posted_ok(
        b1.transactions@[t],
    ) by {
        assert(b0.posted_ok(b0.transactions@[t]));
    }
}

/// Well-formedness survives posting income at month `m` with the
/// to-be-budgeted amount carried into the later months.
proof fn lemma_wf_after_income(b0: Budget, b1: Budget, m: int, delta: int)
    requires
        b0.wf(),
        0 <= m < b0.months@.len(),
        months_income_updated(b0.months@, b1.months@, m, delta),
        fits_i64(b0.months@[m].income + delta),
        forall|k: int|
            m <= k < b0.months@.len() ==> fits_i64(
                (#[trigger] b0.months@[k]).to_be_budgeted + delta,
            ),
        b1.accounts@ == b0.accounts@,
        b1.categories@ == b0.categories@,
        b1.transactions@ == b0.transactions@,
        b1.payees@ == b0.payees@,
        b1.category_groups@ == b0.category_groups@,
        b1.inflow_category == b0.inflow_category,
    ensures
        b1.wf(),
{
    assert forall|i: int| 0 <= i < b1.months@.len() implies (#[trigger] b1.months@[i]).month
        == b0.months@[i].month by {}
    assert forall|i: int| 0 <= i < b1.months@.len() implies (#[trigger] b1.months@[i]).to_be_budgeted
        == b1.prev_tbb(i) + b1.months@[i].income - b1.months@[i].budgeted by {
        assert(b0.months@[i].to_be_budgeted == b0.prev_tbb(i) + b0.months@[i].income
            - b0.months@[i].budgeted);
        if i > 0 {
            assert(b0.months@[i - 1].to_be_budgeted == b0.prev_tbb(i - 1) + b0.months@[i - 1].income
                - b0.months@[i - 1].budgeted);
        }
    }
    assert forall|t: int|
        0 <= t < b1.transactions@.len() && !(#[trigger] b1.transactions@[t]).is_reversed implies b1.posted_ok(
        b1.transactions@[t],
    ) by {
        assert(b0.posted_ok(b0.transactions@[t]));
    }
}

/// Well-formedness survives posting category activity at month `m`
/// with the balance carried into the category's later months.
proof fn lemma_wf_after_category_activity(b0: Budget, b1: Budget, c: int, m: int, delta: int)
    requires
        b0.wf(),
        0 <= c < b0.categories@.len(),
        0 <= m < b0.months@.len(),
        category_activity_updated(b0.categories@, b1.categories@, c, m, delta),
        fits_i64(b0.categories@[c].monthly@[m].activity + delta),
        forall|k: int|
            m <= k < b0.categories@[c].monthly@.len() ==> fits_i64(
                (#[trigger] b0.categories@[c].monthly@[k]).balance + delta,
            ),
        b1.accounts@ == b0.accounts@,
        b1.months@ == b0.months@,
        b1.transactions@ == b0.transactions@,
        b1.payees@ == b0.payees@,
        b1.category_groups@ == b0.category_groups@,
        b1.inflow_category == b0.inflow_category,
    ensures
        b1.wf(),
{
    assert forall|j: int, k: int|
        0 <= j < b1.categories@.len() && 0 <= k < b1.categories@[j].monthly@.len() implies (
    #[trigger] b1.categories@[j].monthly@[k]).balance == b1.prev_cat_balance(j, k)
        + b1.categories@[j].monthly@[k].budgeted + b1.categories@[j].monthly@[k].activity by {
        assert(b0.categories@[j].monthly@[k].balance == b0.prev_cat_balance(j, k)
            + b0.categories@[j].monthly@[k].budgeted + b0.categories@[j].monthly@[k].activity);
        if k > 0 {
            assert(b0.categories@[j].monthly@[k - 1].balance == b0.prev_cat_balance(j, k - 1)
                + b0.categories@[j].monthly@[k - 1].budgeted + b0.categories@[j].monthly@[k
                - 1].activity);
        }
    }
    assert forall|j: int|
        0 <= j < b1.categories@.len() implies (#[trigger] b1.categories@[j]).monthly@.len()
        == b1.months@.len() by {
        assert(b0.categories@[j].monthly@.len() == b0.months@.len());
    }
    assert forall|j: int|
        0 <= j < b1.categories@.len() implies (#[trigger] b1.categories@[j]).category_group.0
        < b1.category_groups@.len() by {
        assert(b0.categories@[j].category_group.0 < b0.category_groups@.len());
    }
    assert forall|t: int|
        0 <= t < b1.transactions@.len() && !(#[trigger] b1.transactions@[t]).is_reversed implies b1.posted_ok(
        b1.transactions@[t],
    ) by {
        assert(b0.posted_ok(b0.transactions@[t]));
    }
}

} // verus!
