//! Age of money: how many days ago the oldest not-yet-spent milliunit
//! of cleared inflow arrived. Derived on demand from the full
//! transaction history — a reverse running sum, never cached — under
//! one deterministic, date-granular policy: total cleared outflow is
//! matched against cleared inflows in date order, and the oldest
//! inflow date whose cumulative inflow exceeds the total outflow is
//! the source of the oldest unspent money.

use vstd::prelude::*;
use crate::budget::Budget;
use crate::dates::{day_number_of, Date};
use crate::entities::{BudgetError, PostedTransaction};
use crate::engine::has_month;

verus! {

/// Whether a posted transaction enters the age-of-money computation as
/// of `report`: it is still on the ledger, cleared (or reconciled), not
/// a transfer, and not dated after the report date.
pub open spec fn tx_counts(p: PostedTransaction, report: Date) -> bool {
    &&& !p.is_reversed
    &&& p.details.cleared.counts_as_cleared()
    &&& p.details.transfer_account is None
    &&& p.details.date.day_number() <= report.day_number()
}

/// Total cleared outflow (spending, as a positive number) on the
/// ledger as of `report`.
pub open spec fn outflow_total(s: Seq<PostedTransaction>, report: Date) -> int
    decreases s.len(),
{
    if s.len() == 0 {
        0
    } else {
        outflow_total(s.drop_last(), report) + if tx_counts(s.last(), report)
            && s.last().details.amount < 0 {
            -(s.last().details.amount as int)
        } else {
            0
        }
    }
}

/// Total cleared inflow on the ledger as of `report` from days up to
/// and including day number `d`.
pub open spec fn inflow_up_to(s: Seq<PostedTransaction>, report: Date, d: int) -> int
    decreases s.len(),
{
    if s.len() == 0 {
        0
    } else {
        inflow_up_to(s.drop_last(), report, d) + if tx_counts(s.last(), report)
            && s.last().details.amount > 0 && s.last().details.date.day_number() <= d {
            s.last().details.amount as int
        } else {
            0
        }
    }
}

/// Whether the inflow at index `i` still holds unspent money: counting
/// inflows in date order, the cumulative inflow through its day exceeds
/// the total outflow.
pub open spec fn aom_candidate(s: Seq<PostedTransaction>, report: Date, i: int) -> bool {
    &&& 0 <= i < s.len()
    &&& tx_counts(s[i], report)
    &&& s[i].details.amount > 0
    &&& inflow_up_to(s, report, s[i].details.date.day_number()) > outflow_total(s, report)
}

/// What a stored age-of-money value must be: zero when no cleared
/// inflow is left unspent, and otherwise the days elapsed from the
/// oldest unspent inflow to the report date.
pub open spec fn is_stored_age(s: Seq<PostedTransaction>, report: Date, v: int) -> bool {
    if forall|i: int| !aom_candidate(s, report, i) {
        v == 0
    } else {
        exists|i: int|
            {
                &&& #[trigger] aom_candidate(s, report, i)
                &&& v == report.day_number() - s[i].details.date.day_number()
                &&& forall|j: int|
                    aom_candidate(s, report, j) ==> s[j].details.date.day_number()
                        >= s[i].details.date.day_number()
            }
    }
}

impl Budget {
    /// Total cleared outflow as of `report`, computed over the whole
    /// history in a 128-bit accumulator so no sum can overflow.
    fn outflow_total_exec(&self, report: Date) -> (r: i128)
        requires
            self.wf(),
            report.wf(),
        ensures
            r == outflow_total(self.transactions@, report),
    {
        let report_day = day_number_of(report);
        let n = self.transactions.len();
        let mut acc: i128 = 0;
        let mut i: usize = 0;
        while i < n
            invariant
                0 <= i <= n,
                n == self.transactions@.len(),
                self.wf(),
                report.wf(),
                report_day == report.day_number(),
                acc == outflow_total(self.transactions@.take(i as int), report),
                0 <= acc <= (i as int) * 0x8000_0000_0000_0000,
            decreases n - i,
        {
            proof {
                assert(self.transactions@.take(i as int + 1).drop_last() =~= self.transactions@.take(
                    i as int,
                ));
                assert((i as int + 1) * 0x8000_0000_0000_0000 == (i as int)
                    * 0x8000_0000_0000_0000 + 0x8000_0000_0000_0000) by (nonlinear_arith);
            }
            let p = &self.transactions[i];
            if !p.is_reversed && (matches!(p.details.cleared, crate::entities::ClearedStatus::Cleared)
                || matches!(p.details.cleared, crate::entities::ClearedStatus::Reconciled))
                && p.details.transfer_account.is_none() && p.details.amount < 0 {
                proof {
                    assert(self.posted_ok(self.transactions@[i as int]));
                }
                let d = day_number_of(p.details.date);
                if d <= report_day {
                    acc = acc - (p.details.amount as i128);
                }
            }
            i = i + 1;
        }
        proof {
            assert(self.transactions@.take(n as int) =~= self.transactions@);
        }
        acc
    }

    /// Total cleared inflow as of `report` from days up to `d`.
    fn inflow_up_to_exec(&self, report: Date, d: u32) -> (r: i128)
        requires
            self.wf(),
            report.wf(),
        ensures
            r == inflow_up_to(self.transactions@, report, d as int),
    {
        let report_day = day_number_of(report);
        let n = self.transactions.len();
        let mut acc: i128 = 0;
        let mut i: usize = 0;
        while i < n
            invariant
                0 <= i <= n,
                n == self.transactions@.len(),
                self.wf(),
                report.wf(),
                report_day == report.day_number(),
                acc == inflow_up_to(self.transactions@.take(i as int), report, d as int),
                0 <= acc <= (i as int) * 0x8000_0000_0000_0000,
            decreases n - i,
        {
            proof {
                assert(self.transactions@.take(i as int + 1).drop_last() =~= self.transactions@.take(
                    i as int,
                ));
                assert((i as int + 1) * 0x8000_0000_0000_0000 == (i as int)
                    * 0x8000_0000_0000_0000 + 0x8000_0000_0000_0000) by (nonlinear_arith);
            }
            let p = &self.transactions[i];
            if !p.is_reversed && (matches!(p.details.cleared, crate::entities::ClearedStatus::Cleared)
                || matches!(p.details.cleared, crate::entities::ClearedStatus::Reconciled))
                && p.details.transfer_account.is_none() && p.details.amount > 0 {
                proof {
                    assert(self.posted_ok(self.transactions@[i as int]));
                }
                let pd = day_number_of(p.details.date);
                if pd <= report_day && pd <= d {
                    acc = acc + (p.details.amount as i128);
                }
            }
            i = i + 1;
        }
        proof {
            assert(self.transactions@.take(n as int) =~= self.transactions@);
        }
        acc
    }

    /// The age of money as of `report`: the days elapsed since the
    /// oldest cleared inflow that is not yet fully consumed by the
    /// total cleared outflow, or nothing when every inflow is spent
    /// (or there is none).
    #[verifier::rlimit(60)]
    pub fn age_of_money(&self, report: Date) -> (r: Option<i64>)
        requires
            self.wf(),
            report.wf(),
        ensures
            (r is None) == (forall|i: int| !aom_candidate(self.transactions@, report, i)),
            r is Some ==> exists|i: int|
                {
                    &&& #[trigger] aom_candidate(self.transactions@, report, i)
                    &&& self.transactions@[i].details.date.day_number() == report.day_number()
                        - r->Some_0
                    &&& forall|j: int|
                        aom_candidate(self.transactions@, report, j)
                            ==> self.transactions@[j].details.date.day_number()
                            >= self.transactions@[i].details.date.day_number()
                },
            r is Some ==> 0 <= r->Some_0,
    {
        let report_day = day_number_of(report);
        let outflow = self.outflow_total_exec(report);
        let n = self.transactions.len();
        let mut best: Option<u32> = None;
        let ghost mut best_idx: int = 0;
        let mut i: usize = 0;
        while i < n
            invariant
                0 <= i <= n,
                n == self.transactions@.len(),
                self.wf(),
                report.wf(),
                report_day == report.day_number(),
                outflow == outflow_total(self.transactions@, report),
                best is None ==> forall|j: int|
                    0 <= j < i ==> !aom_candidate(self.transactions@, report, j),
                best is Some ==> {
                    &&& aom_candidate(self.transactions@, report, best_idx)
                    &&& 0 <= best_idx < i
                    &&& self.transactions@[best_idx].details.date.day_number() == best->Some_0
                    &&& best->Some_0 <= report_day
                    &&& forall|j: int|
                        0 <= j < i && aom_candidate(self.transactions@, report, j)
                            ==> self.transactions@[j].details.date.day_number() >= best->Some_0
                },
            decreases n - i,
        {
            let p = &self.transactions[i];
            if !p.is_reversed && (matches!(p.details.cleared, crate::entities::ClearedStatus::Cleared)
                || matches!(p.details.cleared, crate::entities::ClearedStatus::Reconciled))
                && p.details.transfer_account.is_none() && p.details.amount > 0 {
                proof {
                    assert(self.posted_ok(self.transactions@[i as int]));
                }
                let d = day_number_of(p.details.date);
                if d <= report_day {
                    let cum = self.inflow_up_to_exec(report, d);
                    if cum > outflow {
                        match best {
                            Some(b) => {
                                if d < b {
                                    best = Some(d);
                                    proof {
                                        best_idx = i as int;
                                    }
                                }
                            },
                            None => {
                                best = Some(d);
                                proof {
                                    best_idx = i as int;
                                }
                            },
                        }
                    }
                }
            }
            i = i + 1;
        }
        match best {
            Some(d) => Some((report_day - d) as i64),
            None => None,
        }
    }

    /// Recomputes the age of money as of `report` and stores it on the
    /// month with the given key (zero when no unspent inflow exists);
    /// fails with `NotFound` exactly when no such month exists, and
    /// then changes nothing.
    pub fn update_age_of_money(&mut self, key: crate::dates::MonthKey, report: Date) -> (r: Result<
        (),
        BudgetError,
    >)
        requires
            old(self).wf(),
            report.wf(),
        ensures
            final(self).wf(),
            match r {
                Ok(()) => {
                    &&& has_month(*old(self), key)
                    &&& exists|m: int|
                        {
                            &&& 0 <= m < old(self).months@.len()
                            &&& (#[trigger] old(self).months@[m]).month == key
                            &&& final(self).months@ == old(self).months@.update(
                                m,
                                (crate::entities::Month {
                                    age_of_money: final(self).months@[m].age_of_money,
                                    ..old(self).months@[m]
                                }),
                            )
                            &&& is_stored_age(
                                old(self).transactions@,
                                report,
                                final(self).months@[m].age_of_money as int,
                            )
                        }
                    &&& final(self).accounts@ == old(self).accounts@
                    &&& final(self).categories@ == old(self).categories@
                    &&& final(self).transactions@ == old(self).transactions@
                    &&& final(self).payees@ == old(self).payees@
                    &&& final(self).category_groups@ == old(self).category_groups@
                    &&& final(self).name == old(self).name
                    &&& final(self).settings == old(self).settings
                    &&& final(self).inflow_category == old(self).inflow_category
                },
                Err(e) => {
                    &&& e == BudgetError::NotFound
                    &&& !has_month(*old(self), key)
                    &&& *final(self) == *old(self)
                },
            },
    {
        let m = match self.find_month_index(key) {
            Some(m) => m,
            None => {
                return Err(BudgetError::NotFound);
            },
        };
        let age = match self.age_of_money(report) {
            Some(a) => a,
            None => 0,
        };
        self.months[m].age_of_money = age;
        proof {
            assert(final(self).months@ =~= old(self).months@.update(
                m as int,
                (crate::entities::Month {
                    age_of_money: final(self).months@[m as int].age_of_money,
                    ..old(self).months@[m as int]
                }),
            ));
            crate::engine::lemma_wf_months_replaced(*old(self), *final(self));
        }
        Ok(())
    }
}

} // verus!
