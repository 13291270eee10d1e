//! The month rollup engine: advancing the gapless month sequence and
//! re-budgeting a category for a month, chaining the carry-forward
//! effect into every later month's category balance and to-be-budgeted
//! amount.

use vstd::prelude::*;
use crate::budget::Budget;
use crate::dates::MonthKey;
use crate::engine::{cat_month_balance_shifted, has_month, month_tbb_shifted, spec_month_index};
use crate::engine::lemma_month_key_unique;
use crate::entities::{BudgetError, Category, CategoryMonth, Month};
use crate::money::fits_i64;

verus! {

/// The error `advance_month` runs into, or nothing when the new month
/// is accepted: the key must be well formed and follow the last month.
pub open spec fn advance_check(b: Budget, key: MonthKey) -> Option<BudgetError> {
    if !key.wf() {
        Some(BudgetError::MonthOutOfOrder)
    } else if b.months@.len() > 0 && key.index() != b.months@.last().month.index() + 1 {
        Some(BudgetError::MonthOutOfOrder)
    } else {
        None
    }
}

/// How an accepted `advance_month` turns `b0` into `b1`: one fresh
/// month is appended, starting from the previous month's to-be-budgeted
/// amount and otherwise zeroed, and every category grows one entry that
/// carries its balance forward.
pub open spec fn advance_rel(b0: Budget, b1: Budget, key: MonthKey) -> bool {
    let n = b0.months@.len() as int;
    let mo = b1.months@.last();
    &&& b1.months@.len() == n + 1
    &&& forall|k: int| 0 <= k < n ==> b1.months@[k] == b0.months@[k]
    &&& mo.month == key
    &&& mo.income == 0
    &&& mo.budgeted == 0
    &&& mo.activity == 0
    &&& mo.to_be_budgeted == (if n == 0 {
        0int
    } else {
        b0.months@.last().to_be_budgeted as int
    })
    &&& mo.age_of_money == 0
    &&& !mo.is_deleted
    &&& mo.note@ == Seq::<char>::empty()
    &&& b1.categories@.len() == b0.categories@.len()
    &&& forall|c: int|
        0 <= c < b0.categories@.len() ==> {
            &&& (#[trigger] b0.categories@[c]).same_meta(b1.categories@[c])
            &&& b1.categories@[c].monthly@.len() == b0.categories@[c].monthly@.len() + 1
            &&& forall|k: int|
                0 <= k < b0.categories@[c].monthly@.len() ==> b1.categories@[c].monthly@[k]
                    == b0.categories@[c].monthly@[k]
            &&& b1.categories@[c].monthly@.last().budgeted == 0
            &&& b1.categories@[c].monthly@.last().activity == 0
            &&& b1.categories@[c].monthly@.last().balance == (if b0.categories@[c].monthly@.len()
                == 0 {
                0int
            } else {
                b0.categories@[c].monthly@.last().balance as int
            })
        }
    &&& b1.accounts@ == b0.accounts@
    &&& b1.transactions@ == b0.transactions@
    &&& b1.payees@ == b0.payees@
    &&& b1.category_groups@ == b0.category_groups@
    &&& b1.name == b0.name
    &&& b1.settings == b0.settings
    &&& b1.inflow_category == b0.inflow_category
}

/// A month's budgeted total after a category's allocation moved by
/// `delta`: the to-be-budgeted amount moves the opposite way.
pub open spec fn month_budget_posted(mo: Month, delta: int) -> Month {
    Month {
        budgeted: (mo.budgeted + delta) as i64,
        to_be_budgeted: (mo.to_be_budgeted - delta) as i64,
        ..mo
    }
}

/// A category's month entry after its budgeted amount was set to
/// `amount`, having been `delta` lower before.
pub open spec fn cat_month_budget_set(cm: CategoryMonth, amount: i64, delta: int) -> CategoryMonth {
    CategoryMonth { budgeted: amount, activity: cm.activity, balance: (cm.balance + delta) as i64 }
}

/// The error `set_category_budgeted` runs into, or nothing when it is
/// accepted: the category and the month must both exist.
pub open spec fn set_budgeted_check(b: Budget, id: crate::entities::CategoryId, key: MonthKey) -> Option<BudgetError> {
    if id.0 >= b.categories@.len() {
        Some(BudgetError::NotFound)
    } else if !has_month(b, key) {
        Some(BudgetError::NotFound)
    } else {
        None
    }
}

/// Every sum an accepted `set_category_budgeted` would write stays an
/// `i64`: its machine-limit precondition.
pub open spec fn set_budgeted_fits(
    b: Budget,
    id: crate::entities::CategoryId,
    key: MonthKey,
    amount: i64,
) -> bool {
    let c = id.0 as int;
    let m = spec_month_index(b, key);
    let delta = amount - b.categories@[c].monthly@[m].budgeted;
    &&& fits_i64(delta)
    &&& fits_i64(b.months@[m].budgeted + delta)
    &&& forall|k: int|
        m <= k < b.months@.len() ==> fits_i64((#[trigger] b.months@[k]).to_be_budgeted - delta)
    &&& forall|k: int|
        m <= k < b.months@.len() ==> fits_i64(
            (#[trigger] b.categories@[c].monthly@[k]).balance + delta,
        )
}

/// The months of `b1` are those of `b0` after month `m` budgeted
/// `delta` more, with the to-be-budgeted drop carried into every later
/// month.
pub open spec fn months_budget_updated(s0: Seq<Month>, s1: Seq<Month>, m: int, delta: int) -> bool {
    &&& s1.len() == s0.len()
    &&& forall|k: int| 0 <= k < m ==> s1[k] == s0[k]
    &&& s1[m] == month_budget_posted(s0[m], delta)
    &&& forall|k: int| m < k < s0.len() ==> s1[k] == month_tbb_shifted(#[trigger] s0[k], -delta)
}

/// The categories of `b1` are those of `b0` after category `c`'s
/// budgeted amount in month `m` was set to `amount`, with the balance
/// change carried into the category's later months.
pub open spec fn category_budget_updated(
    s0: Seq<Category>,
    s1: Seq<Category>,
    c: int,
    m: int,
    amount: i64,
    delta: int,
) -> bool {
    &&& s1.len() == s0.len()
    &&& forall|j: int| 0 <= j < s0.len() && j != c ==> s1[j] == s0[j]
    &&& s0[c].same_meta(s1[c])
    &&& s1[c].monthly@.len() == s0[c].monthly@.len()
    &&& forall|k: int| 0 <= k < m ==> s1[c].monthly@[k] == s0[c].monthly@[k]
    &&& s1[c].monthly@[m] == cat_month_budget_set(s0[c].monthly@[m], amount, delta)
    &&& forall|k: int|
        m < k < s0[c].monthly@.len() ==> s1[c].monthly@[k] == cat_month_balance_shifted(
            #[trigger] s0[c].monthly@[k],
            delta,
        )
}

/// How an accepted `set_category_budgeted` turns `b0` into `b1`.
pub open spec fn set_budgeted_rel(
    b0: Budget,
    b1: Budget,
    id: crate::entities::CategoryId,
    key: MonthKey,
    amount: i64,
) -> bool {
    let c = id.0 as int;
    let m = spec_month_index(b0, key);
    let delta = amount - b0.categories@[c].monthly@[m].budgeted;
    &&& months_budget_updated(b0.months@, b1.months@, m, delta)
    &&& category_budget_updated(b0.categories@, b1.categories@, c, m, amount, delta)
    &&& b1.accounts@ == b0.accounts@
    &&& b1.transactions@ == b0.transactions@
    &&& b1.payees@ == b0.payees@
    &&& b1.category_groups@ == b0.category_groups@
    &&& b1.name == b0.name
    &&& b1.settings == b0.settings
    &&& b1.inflow_category == b0.inflow_category
}

impl Budget {
    /// Creates the next month of the gapless sequence: its
    /// to-be-budgeted amount starts from the previous month's, its
    /// aggregates start at zero, and every category carries its balance
    /// forward into a fresh entry. Fails with `MonthOutOfOrder` exactly
    /// when the key is malformed or does not follow the last month, and
    /// then changes nothing.
    #[verifier::rlimit(60)]
    pub fn advance_month(&mut self, key: MonthKey) -> (r: Result<(), BudgetError>)
        requires
            old(self).wf(),
        ensures
            final(self).wf(),
            match r {
                Ok(()) => {
                    &&& advance_check(*old(self), key) is None
                    &&& advance_rel(*old(self), *final(self), key)
                },
                Err(e) => {
                    &&& advance_check(*old(self), key) == Some(e)
                    &&& *final(self) == *old(self)
                },
            },
    {
        if key.year > crate::dates::MAX_YEAR || key.month < 1 || key.month > 12 {
            return Err(BudgetError::MonthOutOfOrder);
        }
        let n = self.months.len();
        let mut tbb_start: i64 = 0;
        if n > 0 {
            let last = &self.months[n - 1];
            let expected = crate::dates::month_index_of(key);
            let last_index = crate::dates::month_index_of(last.month);
            if last_index == u32::MAX || expected != last_index + 1 {
                return Err(BudgetError::MonthOutOfOrder);
            }
            tbb_start = last.to_be_budgeted;
        }
        self.months.push(
            Month {
                month: key,
                note: String::new(),
                income: 0,
                budgeted: 0,
                activity: 0,
                to_be_budgeted: tbb_start,
                age_of_money: 0,
                is_deleted: false,
            },
        );
        let ghost mid = *self;
        let n_cats = self.categories.len();
        let mut i: usize = 0;
        while i < n_cats
            invariant
                0 <= i <= n_cats,
                n_cats == self.categories@.len(),
                self.categories@.len() == mid.categories@.len(),
                forall|j: int| i <= j < n_cats ==> self.categories@[j] == mid.categories@[j],
                forall|j: int|
                    0 <= j < i ==> {
                        &&& (#[trigger] mid.categories@[j]).same_meta(self.categories@[j])
                        &&& self.categories@[j].monthly@.len() == mid.categories@[j].monthly@.len()
                            + 1
                        &&& forall|k: int|
                            0 <= k < mid.categories@[j].monthly@.len()
                                ==> self.categories@[j].monthly@[k]
                                == mid.categories@[j].monthly@[k]
                        &&& self.categories@[j].monthly@.last().budgeted == 0
                        &&& self.categories@[j].monthly@.last().activity == 0
                        &&& self.categories@[j].monthly@.last().balance == (
                        if mid.categories@[j].monthly@.len() == 0 {
                            0int
                        } else {
                            mid.categories@[j].monthly@.last().balance as int
                        })
                    },
                self.accounts@ == mid.accounts@,
                self.months@ == mid.months@,
                self.transactions@ == mid.transactions@,
                self.payees@ == mid.payees@,
                self.category_groups@ == mid.category_groups@,
                self.name == mid.name,
                self.settings == mid.settings,
                self.inflow_category == mid.inflow_category,
            decreases n_cats - i,
        {
            let len = self.categories[i].monthly.len();
            let bal: i64 = if len == 0 {
                0
            } else {
                self.categories[i].monthly[len - 1].balance
            };
            self.categories[i].monthly.push(CategoryMonth { budgeted: 0, activity: 0, balance: bal });
            i = i + 1;
        }
        proof {
            lemma_wf_after_advance(*old(self), *final(self), key);
        }
        Ok(())
    }

    /// Re-budgets a category for one month: sets that month's budgeted
    /// amount, carries the balance change into the category's later
    /// months, and moves the month's budgeted total and the
    /// to-be-budgeted chain the opposite way. Fails with `NotFound`
    /// exactly when the category or the month does not exist, and then
    /// changes nothing.
    #[verifier::rlimit(60)]
    pub fn set_category_budgeted(&mut self, id: crate::entities::CategoryId, key: MonthKey, amount: i64) -> (r: Result<(), BudgetError>)
        requires
            old(self).wf(),
            set_budgeted_check(*old(self), id, key) is None ==> set_budgeted_fits(
                *old(self),
                id,
                key,
                amount,
            ),
        ensures
            final(self).wf(),
            match r {
                Ok(()) => {
                    &&& set_budgeted_check(*old(self), id, key) is None
                    &&& set_budgeted_rel(*old(self), *final(self), id, key, amount)
                },
                Err(e) => {
                    &&& set_budgeted_check(*old(self), id, key) == Some(e)
                    &&& *final(self) == *old(self)
                },
            },
    {
        let c = id.0;
        if c >= self.categories.len() {
            return Err(BudgetError::NotFound);
        }
        let m = match self.find_month_index(key) {
            Some(m) => m,
            None => {
                return Err(BudgetError::NotFound);
            },
        };
        proof {
            assert(has_month(*old(self), key));
            let w = spec_month_index(*old(self), key);
            assert(0 <= w < old(self).months@.len() && old(self).months@[w].month == key);
            lemma_month_key_unique(*old(self), m as int, w);
        }
        let delta: i64 = amount - self.categories[c].monthly[m].budgeted;
        self.apply_category_budget(c, m, amount, delta);
        self.apply_month_budget(m, delta);
        Ok(())
    }

    /// Sets category `c`'s budgeted amount for month `m` and carries
    /// the balance change into the category's later months; nothing
    /// else changes.
    #[verifier::rlimit(60)]
    fn apply_category_budget(&mut self, c: usize, m: usize, amount: i64, delta: i64)
        requires
            old(self).wf(),
            c < old(self).categories@.len(),
            m < old(self).months@.len(),
            delta == amount - old(self).categories@[c as int].monthly@[m as int].budgeted,
            forall|k: int|
                m <= k < old(self).months@.len() ==> fits_i64(
                    (#[trigger] old(self).categories@[c as int].monthly@[k]).balance + delta,
                ),
        ensures
            final(self).wf(),
            category_budget_updated(
                old(self).categories@,
                final(self).categories@,
                c as int,
                m as int,
                amount,
                delta as int,
            ),
            final(self).accounts@ == old(self).accounts@,
            final(self).months@ == old(self).months@,
            final(self).transactions@ == old(self).transactions@,
            final(self).payees@ == old(self).payees@,
            final(self).category_groups@ == old(self).category_groups@,
            final(self).name == old(self).name,
            final(self).settings == old(self).settings,
            final(self).inflow_category == old(self).inflow_category,
    {
        let n = self.categories[c].monthly.len();
        proof {
            assert(n == old(self).months@.len());
        }
        let mut k = m;
        while k < n
            invariant
                m <= k <= n,
                c < self.categories@.len(),
                m < n,
                self.categories@.len() == old(self).categories@.len(),
                n == self.categories@[c as int].monthly@.len(),
                n == old(self).categories@[c as int].monthly@.len(),
                forall|j: int|
                    0 <= j < self.categories@.len() && j != c ==> self.categories@[j] == old(
                        self,
                    ).categories@[j],
                old(self).categories@[c as int].same_meta(self.categories@[c as int]),
                forall|j: int|
                    0 <= j < m ==> self.categories@[c as int].monthly@[j] == old(
                        self,
                    ).categories@[c as int].monthly@[j],
                forall|j: int|
                    m <= j < k ==> self.categories@[c as int].monthly@[j]
                        == cat_month_balance_shifted(
                        #[trigger] old(self).categories@[c as int].monthly@[j],
                        delta as int,
                    ),
                forall|j: int|
                    k <= j < n ==> self.categories@[c as int].monthly@[j] == old(
                        self,
                    ).categories@[c as int].monthly@[j],
                forall|j: int|
                    m <= j < n ==> fits_i64(
                        (#[trigger] old(self).categories@[c as int].monthly@[j]).balance + delta,
                    ),
                self.accounts@ == old(self).accounts@,
                self.months@ == old(self).months@,
                self.transactions@ == old(self).transactions@,
                self.payees@ == old(self).payees@,
                self.category_groups@ == old(self).category_groups@,
                self.name == old(self).name,
                self.settings == old(self).settings,
                self.inflow_category == old(self).inflow_category,
            decreases n - k,
        {
            let bal = self.categories[c].monthly[k].balance;
            self.categories[c].monthly[k].balance = bal + delta;
            k = k + 1;
        }
        let act = self.categories[c].monthly[m].activity;
        let bal_m = self.categories[c].monthly[m].balance;
        self.categories[c].monthly[m] = CategoryMonth { budgeted: amount, activity: act, balance: bal_m };
        proof {
            lemma_wf_after_budget_category(*old(self), *final(self), c as int, m as int, amount, delta as int);
        }
    }

    /// Moves month `m`'s budgeted total by `delta` and carries the
    /// opposite to-be-budgeted change into every later month; nothing
    /// else changes.
    #[verifier::rlimit(60)]
    fn apply_month_budget(&mut self, m: usize, delta: i64)
        requires
            old(self).wf(),
            m < old(self).months@.len(),
            fits_i64(old(self).months@[m as int].budgeted + delta),
            forall|k: int|
                m <= k < old(self).months@.len() ==> fits_i64(
                    (#[trigger] old(self).months@[k]).to_be_budgeted - delta,
                ),
        ensures
            final(self).wf(),
            months_budget_updated(old(self).months@, final(self).months@, m as int, delta as int),
            final(self).accounts@ == old(self).accounts@,
            final(self).categories@ == old(self).categories@,
            final(self).transactions@ == old(self).transactions@,
            final(self).payees@ == old(self).payees@,
            final(self).category_groups@ == old(self).category_groups@,
            final(self).name == old(self).name,
            final(self).settings == old(self).settings,
            final(self).inflow_category == old(self).inflow_category,
    {
        let n = self.months.len();
        let mut k = m;
        while k < n
            invariant
                m <= k <= n,
                m < n,
                n == self.months@.len(),
                self.months@.len() == old(self).months@.len(),
                forall|j: int| 0 <= j < m ==> self.months@[j] == old(self).months@[j],
                forall|j: int|
                    m <= j < k ==> self.months@[j] == month_tbb_shifted(
                        #[trigger] old(self).months@[j],
                        -(delta as int),
                    ),
                forall|j: int| k <= j < n ==> self.months@[j] == old(self).months@[j],
                forall|j: int|
                    m <= j < n ==> fits_i64((#[trigger] old(self).months@[j]).to_be_budgeted - delta),
                self.accounts@ == old(self).accounts@,
                self.categories@ == old(self).categories@,
                self.transactions@ == old(self).transactions@,
                self.payees@ == old(self).payees@,
                self.category_groups@ == old(self).category_groups@,
                self.name == old(self).name,
                self.settings == old(self).settings,
                self.inflow_category == old(self).inflow_category,
            decreases n - k,
        {
            let t = self.months[k].to_be_budgeted;
            self.months[k].to_be_budgeted = t - delta;
            k = k + 1;
        }
        let bud = self.months[m].budgeted;
        self.months[m].budgeted = bud + delta;
        proof {
            lemma_wf_after_budget_months(*old(self), *final(self), m as int, delta as int);
        }
    }
}

/// Well-formedness survives re-budgeting one category for one month
/// with the balance chain applied.
#[verifier::spinoff_prover]
proof fn lemma_wf_after_budget_category(
    b0: Budget,
    b1: Budget,
    c: int,
    m: int,
    amount: i64,
    delta: int,
)
    requires
        b0.wf(),
        0 <= c < b0.categories@.len(),
        0 <= m < b0.months@.len(),
        delta == amount - b0.categories@[c].monthly@[m].budgeted,
        forall|k: int|
            m <= k < b0.categories@[c].monthly@.len() ==> fits_i64(
                (#[trigger] b0.categories@[c].monthly@[k]).balance + delta,
            ),
        category_budget_updated(b0.categories@, b1.categories@, c, m, amount, delta),
        b1.accounts@ == b0.accounts@,
        b1.months@ == b0.months@,
        b1.transactions@ == b0.transactions@,
        b1.payees@ == b0.payees@,
        b1.category_groups@ == b0.category_groups@,
        b1.inflow_category == b0.inflow_category,
    ensures
        b1.wf(),
{
    assert forall|j: int, k: int|
        0 <= j < b1.categories@.len() && 0 <= k < b1.categories@[j].monthly@.len() implies (
    #[trigger] b1.categories@[j].monthly@[k]).balance == b1.prev_cat_balance(j, k)
        + b1.categories@[j].monthly@[k].budgeted + b1.categories@[j].monthly@[k].activity by {
        assert(b0.categories@[j].monthly@[k].balance == b0.prev_cat_balance(j, k)
            + b0.categories@[j].monthly@[k].budgeted + b0.categories@[j].monthly@[k].activity);
        if k > 0 {
            assert(b0.categories@[j].monthly@[k - 1].balance == b0.prev_cat_balance(j, k - 1)
                + b0.categories@[j].monthly@[k - 1].budgeted + b0.categories@[j].monthly@[k
                - 1].activity);
        }
    }
    assert forall|j: int|
        0 <= j < b1.categories@.len() implies (#[trigger] b1.categories@[j]).monthly@.len()
        == b1.months@.len() by {
        assert(b0.categories@[j].monthly@.len() == b0.months@.len());
    }
    assert forall|j: int|
        0 <= j < b1.categories@.len() implies (#[trigger] b1.categories@[j]).category_group.0
        < b1.category_groups@.len() by {
        assert(b0.categories@[j].category_group.0 < b0.category_groups@.len());
    }
    assert forall|t: int|
        0 <= t < b1.transactions@.len() && !(#[trigger] b1.transactions@[t]).is_reversed implies b1.posted_ok(
        b1.transactions@[t],
    ) by {
        assert(b0.posted_ok(b0.transactions@[t]));
    }
}

/// Well-formedness survives moving a month's budgeted total with the
/// opposite to-be-budgeted chain applied.
#[verifier::spinoff_prover]
proof fn lemma_wf_after_budget_months(b0: Budget, b1: Budget, m: int, delta: int)
    requires
        b0.wf(),
        0 <= m < b0.months@.len(),
        fits_i64(b0.months@[m].budgeted + delta),
        forall|k: int|
            m <= k < b0.months@.len() ==> fits_i64((#[trigger] b0.months@[k]).to_be_budgeted - delta),
        months_budget_updated(b0.months@, b1.months@, m, delta),
        b1.accounts@ == b0.accounts@,
        b1.categories@ == b0.categories@,
        b1.transactions@ == b0.transactions@,
        b1.payees@ == b0.payees@,
        b1.category_groups@ == b0.category_groups@,
        b1.inflow_category == b0.inflow_category,
    ensures
        b1.wf(),
{
    assert forall|i: int| 0 <= i < b1.months@.len() implies (#[trigger] b1.months@[i]).month
        == b0.months@[i].month by {}
    assert forall|i: int| 0 <= i < b1.months@.len() implies (#[trigger] b1.months@[i]).to_be_budgeted
        == b1.prev_tbb(i) + b1.months@[i].income - b1.months@[i].budgeted by {
        assert(b0.months@[i].to_be_budgeted == b0.prev_tbb(i) + b0.months@[i].income
            - b0.months@[i].budgeted);
        if i > 0 {
            assert(b0.months@[i - 1].to_be_budgeted == b0.prev_tbb(i - 1) + b0.months@[i - 1].income
                - b0.months@[i - 1].budgeted);
        }
    }
    assert forall|t: int|
        0 <= t < b1.transactions@.len() && !(#[trigger] b1.transactions@[t]).is_reversed implies b1.posted_ok(
        b1.transactions@[t],
    ) by {
        assert(b0.posted_ok(b0.transactions@[t]));
    }
}

/// A gapless month sequence stays gapless when the next month is
/// appended.
#[verifier::spinoff_prover]
proof fn lemma_advance_gapless(b0: Budget, b1: Budget, key: MonthKey)
    requires
        b0.months_gapless(),
        key.wf(),
        b0.months@.len() > 0 ==> key.index() == b0.months@.last().month.index() + 1,
        b1.months@.len() == b0.months@.len() + 1,
        forall|k: int| 0 <= k < b0.months@.len() ==> b1.months@[k] == b0.months@[k],
        b1.months@.last().month == key,
    ensures
        b1.months_gapless(),
{
    let n = b0.months@.len() as int;
    assert forall|i: int| 0 <= i < b1.months@.len() implies (#[trigger] b1.months@[i]).month.wf() by {
        if i < n {
            assert(b0.months@[i].month.wf());
        }
    }
    assert forall|i: int|
        0 < i < b1.months@.len() implies (#[trigger] b1.months@[i]).month.index()
        == b1.months@[i - 1].month.index() + 1 by {
        if i < n {
            assert(b0.months@[i].month.index() == b0.months@[i - 1].month.index() + 1);
        } else {
            assert(b1.months@[i] == b1.months@.last());
            if n > 0 {
                assert(b1.months@[i - 1] == b0.months@[n - 1]);
            }
        }
    }
}

/// A chained to-be-budgeted sequence stays chained when the next month
/// starts from the carried amount with zero income and budget.
#[verifier::spinoff_prover]
proof fn lemma_advance_chain(b0: Budget, b1: Budget)
    requires
        b0.month_chain_ok(),
        b1.months@.len() == b0.months@.len() + 1,
        forall|k: int| 0 <= k < b0.months@.len() ==> b1.months@[k] == b0.months@[k],
        b1.months@.last().income == 0,
        b1.months@.last().budgeted == 0,
        b1.months@.last().to_be_budgeted == (if b0.months@.len() == 0 {
            0int
        } else {
            b0.months@.last().to_be_budgeted as int
        }),
    ensures
        b1.month_chain_ok(),
{
    let n = b0.months@.len() as int;
    assert forall|i: int| 0 <= i < b1.months@.len() implies (#[trigger] b1.months@[i]).to_be_budgeted
        == b1.prev_tbb(i) + b1.months@[i].income - b1.months@[i].budgeted by {
        if i < n {
            assert(b0.months@[i].to_be_budgeted == b0.prev_tbb(i) + b0.months@[i].income
                - b0.months@[i].budgeted);
        } else {
            assert(b1.months@[i] == b1.months@.last());
            if n > 0 {
                assert(b1.months@[i - 1] == b0.months@[n - 1]);
            }
        }
    }
}

/// Chained category envelopes stay chained when each category grows a
/// fresh entry that carries its balance forward.
#[verifier::spinoff_prover]
proof fn lemma_advance_categories_wf(s0: Seq<Category>, s1: Seq<Category>)
    requires
        forall|c: int, m: int|
            0 <= c < s0.len() && 0 <= m < s0[c].monthly@.len()
                ==> (#[trigger] s0[c].monthly@[m]).balance == (if m == 0 {
                0int
            } else {
                s0[c].monthly@[m - 1].balance as int
            }) + s0[c].monthly@[m].budgeted + s0[c].monthly@[m].activity,
        s1.len() == s0.len(),
        forall|c: int|
            0 <= c < s0.len() ==> {
                &&& (#[trigger] s1[c]).monthly@.len() == s0[c].monthly@.len() + 1
                &&& forall|k: int|
                    0 <= k < s0[c].monthly@.len() ==> s1[c].monthly@[k] == s0[c].monthly@[k]
                &&& s1[c].monthly@.last().budgeted == 0
                &&& s1[c].monthly@.last().activity == 0
                &&& s1[c].monthly@.last().balance == (if s0[c].monthly@.len() == 0 {
                    0int
                } else {
                    s0[c].monthly@.last().balance as int
                })
            },
    ensures
        forall|c: int, m: int|
            0 <= c < s1.len() && 0 <= m < s1[c].monthly@.len()
                ==> (#[trigger] s1[c].monthly@[m]).balance == (if m == 0 {
                0int
            } else {
                s1[c].monthly@[m - 1].balance as int
            }) + s1[c].monthly@[m].budgeted + s1[c].monthly@[m].activity,
{
    assert forall|c: int, m: int|
        0 <= c < s1.len() && 0 <= m < s1[c].monthly@.len() implies (
    #[trigger] s1[c].monthly@[m]).balance == (if m == 0 {
        0int
    } else {
        s1[c].monthly@[m - 1].balance as int
    }) + s1[c].monthly@[m].budgeted + s1[c].monthly@[m].activity by {
        let n = s0[c].monthly@.len() as int;
        if m < n {
            assert(s0[c].monthly@[m].balance == (if m == 0 {
                0int
            } else {
                s0[c].monthly@[m - 1].balance as int
            }) + s0[c].monthly@[m].budgeted + s0[c].monthly@[m].activity);
        } else {
            assert(s1[c].monthly@[m] == s1[c].monthly@.last());
            if n > 0 {
                assert(s1[c].monthly@[m - 1] == s0[c].monthly@[n - 1]);
            }
        }
    }
}

/// Well-formedness survives appending the next month with carried
/// balances and to-be-budgeted amount.
#[verifier::spinoff_prover]
#[verifier::rlimit(100)]
proof fn lemma_wf_after_advance(b0: Budget, b1: Budget, key: MonthKey)
    requires
        b0.wf(),
        advance_check(b0, key) is None,
        advance_rel(b0, b1, key),
    ensures
        b1.wf(),
{
    lemma_advance_gapless(b0, b1, key);
    lemma_advance_chain(b0, b1);
    assert(b1.category_chains_ok()) by {
        lemma_advance_categories_wf(b0.categories@, b1.categories@);
    }
    assert forall|c: int|
        0 <= c < b1.categories@.len() implies (#[trigger] b1.categories@[c]).monthly@.len()
        == b1.months@.len() by {
        assert(b0.categories@[c].monthly@.len() == b0.months@.len());
    }
    assert forall|c: int|
        0 <= c < b1.categories@.len() implies (#[trigger] b1.categories@[c]).category_group.0
        < b1.category_groups@.len() by {
        assert(b0.categories@[c].category_group.0 < b0.category_groups@.len());
    }
    assert forall|t: int|
        0 <= t < b1.transactions@.len() && !(#[trigger] b1.transactions@[t]).is_reversed implies b1.posted_ok(
        b1.transactions@[t],
    ) by {
        assert(b0.posted_ok(b0.transactions@[t]));
    }
}

} // verus!
