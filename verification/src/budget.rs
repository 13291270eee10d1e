//! The budget root: it owns every entity collection, states the
//! interlocking numeric invariants that the engines maintain, and
//! offers the entity-store operations (add, soft-delete, look up).

use vstd::prelude::*;
use crate::dates::MonthKey;
use crate::entities::{
    Account, AccountId, AccountKind, BudgetError, BudgetSettings, Category, CategoryGroup,
    CategoryGroupId, CategoryId, CategoryMonth, CurrencyIsoCode, Goal, Month, Payee, PayeeId,
    PostedTransaction, Separator,
};

verus! {

/// The settings a fresh budget starts with.
pub open spec fn is_default_settings(s: BudgetSettings) -> bool {
    &&& s.date_format.0@ == "%Y-%m-%d"@
    &&& s.currency_format.iso_code == CurrencyIsoCode::Usd
    &&& s.currency_format.dec_digits == 2
    &&& s.currency_format.dec_sep == Separator::Period
    &&& s.currency_format.symbol_first
    &&& s.currency_format.group_sep == Separator::Comma
    &&& s.currency_format.currency_symbol@ == "US$"@
    &&& s.currency_format.display_symbol
}

/// A whole budget: the root owner of all entities. Identifiers are
/// indices into these collections and are valid only within this
/// budget; entities are soft-deleted, never removed, so an identifier
/// once issued stays resolvable.
pub struct Budget {
    pub name: String,
    pub settings: BudgetSettings,
    pub accounts: Vec<Account>,
    pub payees: Vec<Payee>,
    pub category_groups: Vec<CategoryGroup>,
    pub categories: Vec<Category>,
    pub months: Vec<Month>,
    pub transactions: Vec<PostedTransaction>,
    /// The category designated as "Inflow: To Be Budgeted": amounts
    /// posted to it feed a month's income rather than any category.
    pub inflow_category: Option<CategoryId>,
}

impl Budget {
    /// Every account's balance splits exactly into its cleared and
    /// uncleared parts.
    pub open spec fn accounts_balanced(self) -> bool {
        forall|i: int|
            0 <= i < self.accounts@.len() ==> (#[trigger] self.accounts@[i]).balanced()
    }

    /// The months form a strictly increasing, gapless calendar
    /// sequence of well-formed keys.
    pub open spec fn months_gapless(self) -> bool {
        &&& forall|i: int|
            0 <= i < self.months@.len() ==> (#[trigger] self.months@[i]).month.wf()
        &&& forall|i: int|
            0 < i < self.months@.len() ==> (#[trigger] self.months@[i]).month.index()
                == self.months@[i - 1].month.index() + 1
    }

    /// What a month carries forward: nothing before the first month,
    /// afterwards the previous month's to-be-budgeted amount.
    pub open spec fn prev_tbb(self, i: int) -> int {
        if i == 0 {
            0
        } else {
            self.months@[i - 1].to_be_budgeted as int
        }
    }

    /// Each month's to-be-budgeted amount equals the previous month's,
    /// plus the month's income, minus what the month budgeted.
    pub open spec fn month_chain_ok(self) -> bool {
        forall|i: int|
            0 <= i < self.months@.len() ==> (#[trigger] self.months@[i]).to_be_budgeted
                == self.prev_tbb(i) + self.months@[i].income - self.months@[i].budgeted
    }

    /// Every category carries one per-month entry per budget month.
    pub open spec fn categories_aligned(self) -> bool {
        forall|c: int|
            0 <= c < self.categories@.len() ==> (#[trigger] self.categories@[c]).monthly@.len()
                == self.months@.len()
    }

    /// What a category's envelope carries into month `m`: nothing
    /// before the first month, afterwards the prior month's balance.
    pub open spec fn prev_cat_balance(self, c: int, m: int) -> int {
        if m == 0 {
            0
        } else {
            self.categories@[c].monthly@[m - 1].balance as int
        }
    }

    /// Each category's balance in each month equals the prior month's
    /// balance plus the month's budgeted amount plus its activity.
    pub open spec fn category_chains_ok(self) -> bool {
        forall|c: int, m: int|
            0 <= c < self.categories@.len() && 0 <= m < self.categories@[c].monthly@.len()
                ==> (#[trigger] self.categories@[c].monthly@[m]).balance
                    == self.prev_cat_balance(c, m) + self.categories@[c].monthly@[m].budgeted
                        + self.categories@[c].monthly@[m].activity
    }

    /// Every category belongs to an existing group; a payee's transfer
    /// account and the designated inflow category, where present, exist.
    pub open spec fn refs_ok(self) -> bool {
        &&& forall|c: int|
            0 <= c < self.categories@.len() ==> (#[trigger] self.categories@[c]).category_group.0
                < self.category_groups@.len()
        &&& forall|p: int|
            0 <= p < self.payees@.len() && (#[trigger] self.payees@[p]).transfer_account is Some
                ==> self.payees@[p].transfer_account->Some_0.0 < self.accounts@.len()
        &&& (self.inflow_category is Some ==> self.inflow_category->Some_0.0
            < self.categories@.len())
    }

    /// A transaction the ledger still counts resolves cleanly: its
    /// references exist and, unless it is a transfer, its recorded
    /// month index names the month of its date.
    pub open spec fn posted_ok(self, p: PostedTransaction) -> bool {
        &&& p.details.shape_ok()
        &&& p.details.date.wf()
        &&& p.details.account.0 < self.accounts@.len()
        &&& p.details.category is Some ==> {
            &&& p.details.category->Some_0.0 < self.categories@.len()
            &&& p.month_index < self.months@.len()
            &&& self.months@[p.month_index as int].month == p.details.date.ym
        }
        &&& p.details.transfer_account is Some ==> {
            &&& p.details.transfer_account->Some_0.0 < self.accounts@.len()
            &&& p.details.transfer_account->Some_0.0 != p.details.account.0
        }
    }

    /// All transactions not reversed out of the ledger resolve cleanly.
    pub open spec fn transactions_ok(self) -> bool {
        forall|t: int|
            0 <= t < self.transactions@.len() && !(#[trigger] self.transactions@[t]).is_reversed
                ==> self.posted_ok(self.transactions@[t])
    }

    /// The budget's well-formedness: the account, category and month
    /// invariants hold everywhere, categories line up with the month
    /// sequence, and every stored reference resolves.
    pub open spec fn wf(self) -> bool {
        &&& self.accounts_balanced()
        &&& self.months_gapless()
        &&& self.month_chain_ok()
        &&& self.categories_aligned()
        &&& self.category_chains_ok()
        &&& self.refs_ok()
        &&& self.transactions_ok()
    }

    /// Collections and designations other than the accounts are the
    /// same in two budget states.
    pub open spec fn same_except_accounts(self, b: Budget) -> bool {
        &&& b.name == self.name
        &&& b.settings == self.settings
        &&& b.payees@ == self.payees@
        &&& b.category_groups@ == self.category_groups@
        &&& b.categories@ == self.categories@
        &&& b.months@ == self.months@
        &&& b.transactions@ == self.transactions@
        &&& b.inflow_category == self.inflow_category
    }

    /// Creates an empty budget with the given name and the default
    /// settings: no entities, no months, no designated inflow category.
    pub fn with_name(name: String) -> (b: Budget)
        ensures
            b.name == name,
            is_default_settings(b.settings),
            b.accounts@.len() == 0,
            b.payees@.len() == 0,
            b.category_groups@.len() == 0,
            b.categories@.len() == 0,
            b.months@.len() == 0,
            b.transactions@.len() == 0,
            b.inflow_category is None,
            b.wf(),
    {
        Budget {
            name,
            settings: BudgetSettings::default(),
            accounts: Vec::new(),
            payees: Vec::new(),
            category_groups: Vec::new(),
            categories: Vec::new(),
            months: Vec::new(),
            transactions: Vec::new(),
            inflow_category: None,
        }
    }

    /// Adds an open, undeleted account with zero balances and returns
    /// its freshly minted identifier.
    pub fn add_account(&mut self, name: String, kind: AccountKind, on_budget: bool) -> (r:
        AccountId)
        requires
            old(self).wf(),
        ensures
            final(self).wf(),
            r.0 == old(self).accounts@.len(),
            final(self).accounts@.len() == old(self).accounts@.len() + 1,
            forall|i: int|
                0 <= i < old(self).accounts@.len() ==> final(self).accounts@[i]
                    == old(self).accounts@[i],
            final(self).accounts@.last().name == name,
            final(self).accounts@.last().kind == kind,
            final(self).accounts@.last().on_budget == on_budget,
            !final(self).accounts@.last().is_closed,
            !final(self).accounts@.last().is_deleted,
            final(self).accounts@.last().balance == 0,
            final(self).accounts@.last().cleared_balance == 0,
            final(self).accounts@.last().uncleared_balance == 0,
            old(self).same_except_accounts(*final(self)),
    {
        let id = AccountId(self.accounts.len());
        self.accounts.push(
            Account {
                name,
                kind,
                on_budget,
                is_closed: false,
                note: String::new(),
                balance: 0,
                cleared_balance: 0,
                uncleared_balance: 0,
                is_deleted: false,
            },
        );
        id
    }

    /// Marks an account closed; fails with `NotFound` exactly when the
    /// identifier does not name an account.
    pub fn close_account(&mut self, id: AccountId) -> (r: Result<(), BudgetError>)
        requires
            old(self).wf(),
        ensures
            final(self).wf(),
            match r {
                Ok(()) => {
                    &&& id.0 < old(self).accounts@.len()
                    &&& final(self).accounts@ == old(self).accounts@.update(
                        id.0 as int,
                        (Account { is_closed: true, ..old(self).accounts@[id.0 as int] }),
                    )
                    &&& old(self).same_except_accounts(*final(self))
                },
                Err(e) => {
                    &&& e == BudgetError::NotFound
                    &&& id.0 >= old(self).accounts@.len()
                    &&& *final(self) == *old(self)
                },
            },
    {
        if id.0 >= self.accounts.len() {
            return Err(BudgetError::NotFound);
        }
        self.accounts[id.0].is_closed = true;
        proof {
            assert(final(self).accounts@ =~= old(self).accounts@.update(
                id.0 as int,
                (Account { is_closed: true, ..old(self).accounts@[id.0 as int] }),
            ));
        }
        Ok(())
    }

    /// Soft-deletes an account; fails with `NotFound` exactly when the
    /// identifier does not name an account.
    pub fn delete_account(&mut self, id: AccountId) -> (r: Result<(), BudgetError>)
        requires
            old(self).wf(),
        ensures
            final(self).wf(),
            match r {
                Ok(()) => {
                    &&& id.0 < old(self).accounts@.len()
                    &&& final(self).accounts@ == old(self).accounts@.update(
                        id.0 as int,
                        (Account { is_deleted: true, ..old(self).accounts@[id.0 as int] }),
                    )
                    &&& old(self).same_except_accounts(*final(self))
                },
                Err(e) => {
                    &&& e == BudgetError::NotFound
                    &&& id.0 >= old(self).accounts@.len()
                    &&& *final(self) == *old(self)
                },
            },
    {
        if id.0 >= self.accounts.len() {
            return Err(BudgetError::NotFound);
        }
        self.accounts[id.0].is_deleted = true;
        proof {
            assert(final(self).accounts@ =~= old(self).accounts@.update(
                id.0 as int,
                (Account { is_deleted: true, ..old(self).accounts@[id.0 as int] }),
            ));
        }
        Ok(())
    }

    /// Looks an account up. With `include_deleted` false the lookup
    /// fails with `NotFound` for a soft-deleted account, as it does for
    /// an identifier that was never issued.
    pub fn get_account(&self, id: AccountId, include_deleted: bool) -> (r: Result<
        &Account,
        BudgetError,
    >)
        ensures
            match r {
                Ok(a) => {
                    &&& id.0 < self.accounts@.len()
                    &&& *a == self.accounts@[id.0 as int]
                    &&& include_deleted || !a.is_deleted
                },
                Err(e) => {
                    &&& e == BudgetError::NotFound
                    &&& id.0 >= self.accounts@.len() || (!include_deleted
                        && self.accounts@[id.0 as int].is_deleted)
                },
            },
    {
        if id.0 >= self.accounts.len() {
            return Err(BudgetError::NotFound);
        }
        let a = &self.accounts[id.0];
        if a.is_deleted && !include_deleted {
            return Err(BudgetError::NotFound);
        }
        Ok(a)
    }

    /// Adds a payee; fails with `NotFound` exactly when the linked
    /// transfer account, if given, does not exist.
    pub fn add_payee(&mut self, name: String, transfer_account: Option<AccountId>) -> (r: Result<
        PayeeId,
        BudgetError,
    >)
        requires
            old(self).wf(),
        ensures
            final(self).wf(),
            match r {
                Ok(id) => {
                    &&& (transfer_account is Some ==> transfer_account->Some_0.0
                        < old(self).accounts@.len())
                    &&& id.0 == old(self).payees@.len()
                    &&& final(self).payees@.len() == old(self).payees@.len() + 1
                    &&& forall|i: int|
                        0 <= i < old(self).payees@.len() ==> final(self).payees@[i]
                            == old(self).payees@[i]
                    &&& final(self).payees@.last().name == name
                    &&& final(self).payees@.last().transfer_account == transfer_account
                    &&& !final(self).payees@.last().is_deleted
                    &&& final(self).accounts@ == old(self).accounts@
                    &&& final(self).categories@ == old(self).categories@
                    &&& final(self).months@ == old(self).months@
                    &&& final(self).transactions@ == old(self).transactions@
                    &&& final(self).category_groups@ == old(self).category_groups@
                    &&& final(self).name == old(self).name
                    &&& final(self).settings == old(self).settings
                    &&& final(self).inflow_category == old(self).inflow_category
                },
                Err(e) => {
                    &&& e == BudgetError::NotFound
                    &&& transfer_account is Some
                    &&& transfer_account->Some_0.0 >= old(self).accounts@.len()
                    &&& *final(self) == *old(self)
                },
            },
    {
        match transfer_account {
            Some(a) => {
                if a.0 >= self.accounts.len() {
                    return Err(BudgetError::NotFound);
                }
            },
            None => {},
        }
        let id = PayeeId(self.payees.len());
        self.payees.push(Payee { name, transfer_account, is_deleted: false });
        Ok(id)
    }

    /// Looks a payee up, with the same soft-delete visibility rule as
    /// account lookup.
    pub fn get_payee(&self, id: PayeeId, include_deleted: bool) -> (r: Result<
        &Payee,
        BudgetError,
    >)
        ensures
            match r {
                Ok(p) => {
                    &&& id.0 < self.payees@.len()
                    &&& *p == self.payees@[id.0 as int]
                    &&& include_deleted || !p.is_deleted
                },
                Err(e) => {
                    &&& e == BudgetError::NotFound
                    &&& id.0 >= self.payees@.len() || (!include_deleted
                        && self.payees@[id.0 as int].is_deleted)
                },
            },
    {
        if id.0 >= self.payees.len() {
            return Err(BudgetError::NotFound);
        }
        let p = &self.payees[id.0];
        if p.is_deleted && !include_deleted {
            return Err(BudgetError::NotFound);
        }
        Ok(p)
    }

    /// Adds a category group and returns its identifier.
    pub fn add_category_group(&mut self, name: String) -> (r: CategoryGroupId)
        requires
            old(self).wf(),
        ensures
            final(self).wf(),
            r.0 == old(self).category_groups@.len(),
            final(self).category_groups@.len() == old(self).category_groups@.len() + 1,
            forall|i: int|
                0 <= i < old(self).category_groups@.len() ==> final(self).category_groups@[i]
                    == old(self).category_groups@[i],
            final(self).category_groups@.last().name == name,
            !final(self).category_groups@.last().is_hidden,
            !final(self).category_groups@.last().is_deleted,
            final(self).accounts@ == old(self).accounts@,
            final(self).payees@ == old(self).payees@,
            final(self).categories@ == old(self).categories@,
            final(self).months@ == old(self).months@,
            final(self).transactions@ == old(self).transactions@,
            final(self).name == old(self).name,
            final(self).settings == old(self).settings,
            final(self).inflow_category == old(self).inflow_category,
    {
        let id = CategoryGroupId(self.category_groups.len());
        self.category_groups.push(CategoryGroup { name, is_hidden: false, is_deleted: false });
        id
    }

    /// Looks a category group up, with the same soft-delete visibility
    /// rule as account lookup.
    pub fn get_category_group(&self, id: CategoryGroupId, include_deleted: bool) -> (r: Result<
        &CategoryGroup,
        BudgetError,
    >)
        ensures
            match r {
                Ok(g) => {
                    &&& id.0 < self.category_groups@.len()
                    &&& *g == self.category_groups@[id.0 as int]
                    &&& include_deleted || !g.is_deleted
                },
                Err(e) => {
                    &&& e == BudgetError::NotFound
                    &&& id.0 >= self.category_groups@.len() || (!include_deleted
                        && self.category_groups@[id.0 as int].is_deleted)
                },
            },
    {
        if id.0 >= self.category_groups.len() {
            return Err(BudgetError::NotFound);
        }
        let g = &self.category_groups[id.0];
        if g.is_deleted && !include_deleted {
            return Err(BudgetError::NotFound);
        }
        Ok(g)
    }

    /// Adds a category to a group, with one zeroed per-month entry per
    /// existing month; fails with `NotFound` exactly when the group
    /// does not exist.
    pub fn add_category(&mut self, group: CategoryGroupId, name: String) -> (r: Result<
        CategoryId,
        BudgetError,
    >)
        requires
            old(self).wf(),
        ensures
            final(self).wf(),
            match r {
                Ok(id) => {
                    &&& group.0 < old(self).category_groups@.len()
                    &&& id.0 == old(self).categories@.len()
                    &&& final(self).categories@.len() == old(self).categories@.len() + 1
                    &&& forall|i: int|
                        0 <= i < old(self).categories@.len() ==> final(self).categories@[i]
                            == old(self).categories@[i]
                    &&& final(self).categories@.last().name == name
                    &&& final(self).categories@.last().category_group == group
                    &&& final(self).categories@.last().goal is None
                    &&& final(self).categories@.last().monthly@.len() == old(self).months@.len()
                    &&& forall|m: int|
                        0 <= m < old(self).months@.len()
                            ==> final(self).categories@.last().monthly@[m]
                            == (CategoryMonth { budgeted: 0, activity: 0, balance: 0 })
                    &&& final(self).accounts@ == old(self).accounts@
                    &&& final(self).payees@ == old(self).payees@
                    &&& final(self).category_groups@ == old(self).category_groups@
                    &&& final(self).months@ == old(self).months@
                    &&& final(self).transactions@ == old(self).transactions@
                    &&& final(self).name == old(self).name
                    &&& final(self).settings == old(self).settings
                    &&& final(self).inflow_category == old(self).inflow_category
                },
                Err(e) => {
                    &&& e == BudgetError::NotFound
                    &&& group.0 >= old(self).category_groups@.len()
                    &&& *final(self) == *old(self)
                },
            },
    {
        if group.0 >= self.category_groups.len() {
            return Err(BudgetError::NotFound);
        }
        let id = CategoryId(self.categories.len());
        let mut monthly: Vec<CategoryMonth> = Vec::new();
        let mut m: usize = 0;
        let n_months = self.months.len();
        while m < n_months
            invariant
                0 <= m <= n_months,
                monthly@.len() == m,
                forall|j: int|
                    0 <= j < m ==> monthly@[j] == (CategoryMonth {
                        budgeted: 0,
                        activity: 0,
                        balance: 0,
                    }),
            decreases n_months - m,
        {
            monthly.push(CategoryMonth { budgeted: 0, activity: 0, balance: 0 });
            m = m + 1;
        }
        self.categories.push(
            Category {
                category_group: group,
                name,
                is_hidden: false,
                note: String::new(),
                monthly,
                goal: None,
            },
        );
        Ok(id)
    }

    /// Looks a category up; fails with `NotFound` exactly when the
    /// identifier was never issued.
    pub fn get_category(&self, id: CategoryId) -> (r: Result<&Category, BudgetError>)
        ensures
            match r {
                Ok(c) => {
                    &&& id.0 < self.categories@.len()
                    &&& *c == self.categories@[id.0 as int]
                },
                Err(e) => {
                    &&& e == BudgetError::NotFound
                    &&& id.0 >= self.categories@.len()
                },
            },
    {
        if id.0 >= self.categories.len() {
            return Err(BudgetError::NotFound);
        }
        Ok(&self.categories[id.0])
    }

    /// Attaches a goal to a category (replacing any previous goal);
    /// fails with `NotFound` exactly when the category does not exist.
    pub fn set_category_goal(&mut self, id: CategoryId, goal: Goal) -> (r: Result<
        (),
        BudgetError,
    >)
        requires
            old(self).wf(),
        ensures
            final(self).wf(),
            match r {
                Ok(()) => {
                    &&& id.0 < old(self).categories@.len()
                    &&& final(self).categories@.len() == old(self).categories@.len()
                    &&& forall|i: int|
                        0 <= i < old(self).categories@.len() && i != id.0
                            ==> final(self).categories@[i] == old(self).categories@[i]
                    &&& final(self).categories@[id.0 as int].goal == Some(goal)
                    &&& final(self).categories@[id.0 as int].monthly@
                        == old(self).categories@[id.0 as int].monthly@
                    &&& final(self).categories@[id.0 as int].name
                        == old(self).categories@[id.0 as int].name
                    &&& final(self).categories@[id.0 as int].category_group
                        == old(self).categories@[id.0 as int].category_group
                    &&& final(self).accounts@ == old(self).accounts@
                    &&& final(self).payees@ == old(self).payees@
                    &&& final(self).category_groups@ == old(self).category_groups@
                    &&& final(self).months@ == old(self).months@
                    &&& final(self).transactions@ == old(self).transactions@
                    &&& final(self).name == old(self).name
                    &&& final(self).settings == old(self).settings
                    &&& final(self).inflow_category == old(self).inflow_category
                },
                Err(e) => {
                    &&& e == BudgetError::NotFound
                    &&& id.0 >= old(self).categories@.len()
                    &&& *final(self) == *old(self)
                },
            },
    {
        if id.0 >= self.categories.len() {
            return Err(BudgetError::NotFound);
        }
        self.categories[id.0].goal = Some(goal);
        Ok(())
    }

    /// Designates the category whose inflows feed a month's income;
    /// fails with `NotFound` exactly when the category does not exist.
    pub fn set_inflow_category(&mut self, id: CategoryId) -> (r: Result<(), BudgetError>)
        requires
            old(self).wf(),
        ensures
            final(self).wf(),
            match r {
                Ok(()) => {
                    &&& id.0 < old(self).categories@.len()
                    &&& final(self).inflow_category == Some(id)
                    &&& *final(self) == (Budget { inflow_category: Some(id), ..*old(self) })
                },
                Err(e) => {
                    &&& e == BudgetError::NotFound
                    &&& id.0 >= old(self).categories@.len()
                    &&& *final(self) == *old(self)
                },
            },
    {
        if id.0 >= self.categories.len() {
            return Err(BudgetError::NotFound);
        }
        self.inflow_category = Some(id);
        Ok(())
    }

    /// Finds the index of the month with the given key, if that month
    /// has been created.
    pub fn find_month_index(&self, key: MonthKey) -> (r: Option<usize>)
        ensures
            match r {
                Some(i) => i < self.months@.len() && self.months@[i as int].month == key,
                None => forall|i: int|
                    0 <= i < self.months@.len() ==> (#[trigger] self.months@[i]).month != key,
            },
    {
        let mut i: usize = 0;
        let n = self.months.len();
        while i < n
            invariant
                0 <= i <= n,
                n == self.months@.len(),
                forall|j: int| 0 <= j < i ==> (#[trigger] self.months@[j]).month != key,
            decreases n - i,
        {
            let m = &self.months[i];
            if m.month.year == key.year && m.month.month == key.month {
                return Some(i);
            }
            i = i + 1;
        }
        None
    }

    /// Looks a month up by its calendar key; fails with `NotFound`
    /// exactly when no such month has been created.
    pub fn get_month(&self, key: MonthKey) -> (r: Result<&Month, BudgetError>)
        ensures
            match r {
                Ok(m) => exists|i: int|
                    0 <= i < self.months@.len() && *m == self.months@[i] && (
                    #[trigger] self.months@[i]).month == key,
                Err(e) => {
                    &&& e == BudgetError::NotFound
                    &&& forall|i: int|
                        0 <= i < self.months@.len() ==> (#[trigger] self.months@[i]).month != key
                },
            },
    {
        match self.find_month_index(key) {
            Some(i) => Ok(&self.months[i]),
            None => Err(BudgetError::NotFound),
        }
    }
}

/// Law: in a well-formed budget, every account's balance splits
/// exactly into its cleared and uncleared parts. Every mutating
/// operation of the budget ensures well-formedness, so this holds
/// after every commit.
pub proof fn lemma_account_balance_splits(b: Budget, i: int)
    requires
        b.wf(),
        0 <= i < b.accounts@.len(),
    ensures
        b.accounts@[i].balance == b.accounts@[i].cleared_balance
            + b.accounts@[i].uncleared_balance,
{
    assert(b.accounts@[i].balanced());
}

/// Law: in a well-formed budget, each category's balance in each month
/// equals the previous month's balance plus the month's budgeted
/// amount plus its activity (with nothing carried into the first
/// month).
pub proof fn lemma_category_balance_chain(b: Budget, c: int, m: int)
    requires
        b.wf(),
        0 <= c < b.categories@.len(),
        0 <= m < b.categories@[c].monthly@.len(),
    ensures
        b.categories@[c].monthly@[m].balance == b.prev_cat_balance(c, m)
            + b.categories@[c].monthly@[m].budgeted + b.categories@[c].monthly@[m].activity,
{
}

/// Law: in a well-formed budget, each month's to-be-budgeted amount
/// equals the previous month's, plus the month's income, minus what
/// the month budgeted (with nothing carried into the first month).
pub proof fn lemma_to_be_budgeted_chain(b: Budget, i: int)
    requires
        b.wf(),
        0 <= i < b.months@.len(),
    ensures
        b.months@[i].to_be_budgeted == b.prev_tbb(i) + b.months@[i].income
            - b.months@[i].budgeted,
{
}

} // verus!
