use envelope_budget::budget::Budget;
use envelope_budget::dates::{Date, MonthKey};
use envelope_budget::entities::{
    AccountId, AccountKind, BudgetError, CategoryId, ClearedStatus, Transaction,
};

fn day(key: MonthKey, day: u32) -> Date {
    Date { ym: key, day }
}

fn tx(
    date: Date,
    amount: i64,
    account: AccountId,
    category: Option<CategoryId>,
    transfer: Option<AccountId>,
    cleared: ClearedStatus,
) -> Transaction {
    Transaction {
        date,
        amount,
        account,
        payee: envelope_budget::entities::PayeeId(0),
        category,
        transfer_account: transfer,
        memo: String::new(),
        cleared,
        approved: true,
        flag_color: None,
    }
}

const JAN: MonthKey = MonthKey { year: 2021, month: 1 };
const FEB: MonthKey = MonthKey { year: 2021, month: 2 };

/// A budget with one checking account, one category, and one month.
fn basic_budget() -> (Budget, AccountId, CategoryId) {
    let mut b = Budget::with_name("B".to_string());
    let a = b.add_account("Checking".to_string(), AccountKind::Checking, true);
    let g = b.add_category_group("Essentials".to_string());
    let c = b.add_category(g, "Groceries".to_string()).unwrap();
    b.advance_month(JAN).unwrap();
    (b, a, c)
}

#[test]
fn new_budget_is_empty_with_default_settings() {
    let b = Budget::with_name("B".to_string());
    assert_eq!(b.name, "B");
    assert_eq!(b.accounts.len(), 0);
    assert_eq!(b.months.len(), 0);
    assert!(b.inflow_category.is_none());
    assert_eq!(b.settings.currency_format.currency_symbol, "US$");
    assert_eq!(b.settings.date_format.0, "%Y-%m-%d");
    assert_eq!(b.settings.currency_format.dec_digits, 2);
}

#[test]
fn scenario_cleared_and_uncleared_commits() {
    let (mut b, a, c) = basic_budget();
    b.record_transaction(tx(day(JAN, 5), 200_000, a, Some(c), None, ClearedStatus::Cleared))
        .unwrap();
    {
        let acct = b.get_account(a, false).unwrap();
        assert_eq!(acct.balance, 200_000);
        assert_eq!(acct.cleared_balance, 200_000);
        assert_eq!(acct.uncleared_balance, 0);
    }
    b.record_transaction(tx(day(JAN, 6), -150_000, a, Some(c), None, ClearedStatus::Uncleared))
        .unwrap();
    let acct = b.get_account(a, false).unwrap();
    assert_eq!(acct.balance, 50_000);
    assert_eq!(acct.cleared_balance, 200_000);
    assert_eq!(acct.uncleared_balance, -150_000);
    assert_eq!(acct.balance, acct.cleared_balance + acct.uncleared_balance);
}

#[test]
fn scenario_category_balance_carries_forward() {
    let (mut b, a, c) = basic_budget();
    b.set_category_budgeted(c, JAN, 100_000).unwrap();
    b.record_transaction(tx(day(JAN, 10), -40_000, a, Some(c), None, ClearedStatus::Cleared))
        .unwrap();
    assert_eq!(b.get_category(c).unwrap().monthly[0].balance, 60_000);
    b.advance_month(FEB).unwrap();
    b.record_transaction(tx(day(FEB, 3), -10_000, a, Some(c), None, ClearedStatus::Cleared))
        .unwrap();
    let cat = b.get_category(c).unwrap();
    assert_eq!(cat.monthly[1].budgeted, 0);
    assert_eq!(cat.monthly[1].activity, -10_000);
    assert_eq!(cat.monthly[1].balance, 50_000);
}

#[test]
fn scenario_commit_with_unknown_account_fails_not_found() {
    let (mut b, a, c) = basic_budget();
    let r = b.record_transaction(tx(
        day(JAN, 5),
        1_000,
        AccountId(42),
        Some(c),
        None,
        ClearedStatus::Cleared,
    ));
    assert_eq!(r, Err(BudgetError::NotFound));
    let acct = b.get_account(a, false).unwrap();
    assert_eq!(acct.balance, 0);
    assert_eq!(acct.cleared_balance, 0);
    assert_eq!(acct.uncleared_balance, 0);
    assert_eq!(b.transactions.len(), 0);
    assert_eq!(b.get_month(JAN).unwrap().activity, 0);
}

#[test]
fn reverse_restores_all_touched_balances() {
    let (mut b, a, c) = basic_budget();
    b.set_category_budgeted(c, JAN, 70_000).unwrap();
    b.record_transaction(tx(day(JAN, 9), -25_000, a, Some(c), None, ClearedStatus::Cleared))
        .unwrap();
    assert_eq!(b.get_account(a, false).unwrap().balance, -25_000);
    assert_eq!(b.get_category(c).unwrap().monthly[0].balance, 45_000);
    assert_eq!(b.get_month(JAN).unwrap().activity, -25_000);
    b.reverse_transaction(0).unwrap();
    let acct = b.get_account(a, false).unwrap();
    assert_eq!(acct.balance, 0);
    assert_eq!(acct.cleared_balance, 0);
    assert_eq!(acct.uncleared_balance, 0);
    assert_eq!(b.get_category(c).unwrap().monthly[0].balance, 70_000);
    assert_eq!(b.get_category(c).unwrap().monthly[0].activity, 0);
    assert_eq!(b.get_month(JAN).unwrap().activity, 0);
    assert!(b.transactions[0].is_reversed);
    assert_eq!(b.reverse_transaction(0), Err(BudgetError::NotFound));
    assert_eq!(b.reverse_transaction(7), Err(BudgetError::NotFound));
}

#[test]
fn transfer_touches_both_accounts_and_nothing_else() {
    let (mut b, a, c) = basic_budget();
    let savings = b.add_account("Savings".to_string(), AccountKind::Savings, true);
    b.record_transaction(tx(
        day(JAN, 4),
        -80_000,
        a,
        None,
        Some(savings),
        ClearedStatus::Cleared,
    ))
    .unwrap();
    assert_eq!(b.get_account(a, false).unwrap().balance, -80_000);
    assert_eq!(b.get_account(savings, false).unwrap().balance, 80_000);
    assert_eq!(b.get_account(savings, false).unwrap().cleared_balance, 80_000);
    let cat = b.get_category(c).unwrap();
    assert_eq!(cat.monthly[0].activity, 0);
    assert_eq!(cat.monthly[0].balance, 0);
    let m = b.get_month(JAN).unwrap();
    assert_eq!(m.activity, 0);
    assert_eq!(m.income, 0);
}

#[test]
fn invalid_transaction_shapes_are_rejected() {
    let (mut b, a, c) = basic_budget();
    let s = b.add_account("S".to_string(), AccountKind::Savings, true);
    let both = b.record_transaction(tx(
        day(JAN, 2),
        1_000,
        a,
        Some(c),
        Some(s),
        ClearedStatus::Cleared,
    ));
    assert_eq!(both, Err(BudgetError::InvalidTransaction));
    let neither =
        b.record_transaction(tx(day(JAN, 2), 1_000, a, None, None, ClearedStatus::Cleared));
    assert_eq!(neither, Err(BudgetError::InvalidTransaction));
    let self_transfer =
        b.record_transaction(tx(day(JAN, 2), 1_000, a, None, Some(a), ClearedStatus::Cleared));
    assert_eq!(self_transfer, Err(BudgetError::InvalidTransaction));
    let bad_date = b.record_transaction(tx(
        Date { ym: MonthKey { year: 2021, month: 2 }, day: 29 },
        1_000,
        a,
        Some(c),
        None,
        ClearedStatus::Cleared,
    ));
    assert_eq!(bad_date, Err(BudgetError::InvalidTransaction));
    assert_eq!(b.transactions.len(), 0);
}

#[test]
fn closed_and_deleted_accounts_reject_commits() {
    let (mut b, a, c) = basic_budget();
    b.close_account(a).unwrap();
    let r = b.record_transaction(tx(day(JAN, 2), 1_000, a, Some(c), None, ClearedStatus::Cleared));
    assert_eq!(r, Err(BudgetError::ClosedAccount));
    let a2 = b.add_account("Cash".to_string(), AccountKind::Cash, true);
    b.delete_account(a2).unwrap();
    let r2 =
        b.record_transaction(tx(day(JAN, 2), 1_000, a2, Some(c), None, ClearedStatus::Cleared));
    assert_eq!(r2, Err(BudgetError::NotFound));
}

#[test]
fn lookups_respect_soft_deletion() {
    let mut b = Budget::with_name("B".to_string());
    let a = b.add_account("A".to_string(), AccountKind::Checking, true);
    b.delete_account(a).unwrap();
    assert!(b.get_account(a, false).is_err());
    assert!(b.get_account(a, true).is_ok());
    assert!(b.get_account(a, true).unwrap().is_deleted);
    assert_eq!(
        b.get_account(AccountId(9), true).unwrap_err(),
        BudgetError::NotFound
    );
}

#[test]
fn payees_require_existing_transfer_accounts() {
    let mut b = Budget::with_name("B".to_string());
    let bad = b.add_payee("Ghost".to_string(), Some(AccountId(3)));
    assert_eq!(bad.unwrap_err(), BudgetError::NotFound);
    let a = b.add_account("A".to_string(), AccountKind::Checking, true);
    let p = b.add_payee("Transfer: A".to_string(), Some(a)).unwrap();
    assert_eq!(b.get_payee(p, false).unwrap().transfer_account, Some(a));
}

#[test]
fn categories_require_existing_groups() {
    let mut b = Budget::with_name("B".to_string());
    let r = b.add_category(
        envelope_budget::entities::CategoryGroupId(1),
        "X".to_string(),
    );
    assert_eq!(r.unwrap_err(), BudgetError::NotFound);
    let g = b.add_category_group("G".to_string());
    let c = b.add_category(g, "X".to_string()).unwrap();
    assert_eq!(b.get_category(c).unwrap().name, "X");
    assert_eq!(
        b.get_category(CategoryId(5)).unwrap_err(),
        BudgetError::NotFound
    );
}

#[test]
fn months_advance_gaplessly_or_not_at_all() {
    let mut b = Budget::with_name("B".to_string());
    b.advance_month(MonthKey { year: 2020, month: 12 }).unwrap();
    let skip = b.advance_month(MonthKey { year: 2021, month: 2 });
    assert_eq!(skip, Err(BudgetError::MonthOutOfOrder));
    let repeat = b.advance_month(MonthKey { year: 2020, month: 12 });
    assert_eq!(repeat, Err(BudgetError::MonthOutOfOrder));
    b.advance_month(JAN).unwrap();
    assert_eq!(b.months.len(), 2);
    assert_eq!(b.get_month(JAN).unwrap().month, JAN);
    assert_eq!(b.get_month(FEB).unwrap_err(), BudgetError::NotFound);
    let bad_key = b.advance_month(MonthKey { year: 2021, month: 13 });
    assert_eq!(bad_key, Err(BudgetError::MonthOutOfOrder));
}

#[test]
fn inflow_category_feeds_income_and_to_be_budgeted() {
    let (mut b, a, c) = basic_budget();
    let g = b.get_category(c).unwrap().category_group;
    let inflow = b.add_category(g, "Inflow: To Be Budgeted".to_string()).unwrap();
    b.set_inflow_category(inflow).unwrap();
    b.record_transaction(tx(
        day(JAN, 1),
        500_000,
        a,
        Some(inflow),
        None,
        ClearedStatus::Cleared,
    ))
    .unwrap();
    let m = b.get_month(JAN).unwrap();
    assert_eq!(m.income, 500_000);
    assert_eq!(m.to_be_budgeted, 500_000);
    assert_eq!(m.activity, 0);
    assert_eq!(b.get_category(inflow).unwrap().monthly[0].activity, 0);
    b.set_category_budgeted(c, JAN, 120_000).unwrap();
    let m = b.get_month(JAN).unwrap();
    assert_eq!(m.budgeted, 120_000);
    assert_eq!(m.to_be_budgeted, 380_000);
    assert_eq!(b.get_category(c).unwrap().monthly[0].balance, 120_000);
}

#[test]
fn to_be_budgeted_chains_across_months() {
    let (mut b, a, c) = basic_budget();
    let g = b.get_category(c).unwrap().category_group;
    let inflow = b.add_category(g, "Inflow: To Be Budgeted".to_string()).unwrap();
    b.set_inflow_category(inflow).unwrap();
    b.record_transaction(tx(
        day(JAN, 1),
        300_000,
        a,
        Some(inflow),
        None,
        ClearedStatus::Cleared,
    ))
    .unwrap();
    b.advance_month(FEB).unwrap();
    assert_eq!(b.get_month(FEB).unwrap().to_be_budgeted, 300_000);
    b.set_category_budgeted(c, JAN, 100_000).unwrap();
    assert_eq!(b.get_month(JAN).unwrap().to_be_budgeted, 200_000);
    assert_eq!(b.get_month(FEB).unwrap().to_be_budgeted, 200_000);
    // The month chain invariant holds at every month.
    let jan = b.get_month(JAN).unwrap();
    assert_eq!(jan.to_be_budgeted, jan.income - jan.budgeted);
    let feb = b.get_month(FEB).unwrap();
    assert_eq!(
        feb.to_be_budgeted,
        jan.to_be_budgeted + feb.income - feb.budgeted
    );
}

#[test]
fn rebudgeting_updates_later_months() {
    let (mut b, _a, c) = basic_budget();
    b.set_category_budgeted(c, JAN, 50_000).unwrap();
    b.advance_month(FEB).unwrap();
    assert_eq!(b.get_category(c).unwrap().monthly[1].balance, 50_000);
    b.set_category_budgeted(c, JAN, 20_000).unwrap();
    let cat = b.get_category(c).unwrap();
    assert_eq!(cat.monthly[0].balance, 20_000);
    assert_eq!(cat.monthly[1].balance, 20_000);
    let missing = b.set_category_budgeted(c, MonthKey { year: 2022, month: 1 }, 5);
    assert_eq!(missing, Err(BudgetError::NotFound));
    let bad_cat = b.set_category_budgeted(CategoryId(9), JAN, 5);
    assert_eq!(bad_cat, Err(BudgetError::NotFound));
}

#[test]
fn group_lookup_checks_bounds() {
    let mut b = Budget::with_name("B".to_string());
    let g = b.add_category_group("G".to_string());
    assert_eq!(b.get_category_group(g, false).unwrap().name, "G");
    assert!(b
        .get_category_group(envelope_budget::entities::CategoryGroupId(4), true)
        .is_err());
}

#[test]
fn reversing_a_transfer_restores_both_accounts() {
    let (mut b, a, _c) = basic_budget();
    let s = b.add_account("S".to_string(), AccountKind::Savings, true);
    b.record_transaction(tx(day(JAN, 7), -5_000, a, None, Some(s), ClearedStatus::Uncleared))
        .unwrap();
    assert_eq!(b.get_account(a, false).unwrap().uncleared_balance, -5_000);
    assert_eq!(b.get_account(s, false).unwrap().uncleared_balance, 5_000);
    b.reverse_transaction(0).unwrap();
    assert_eq!(b.get_account(a, false).unwrap().balance, 0);
    assert_eq!(b.get_account(s, false).unwrap().balance, 0);
    assert_eq!(b.get_account(a, false).unwrap().uncleared_balance, 0);
    assert_eq!(b.get_account(s, false).unwrap().uncleared_balance, 0);
}

#[test]
fn reversing_an_inflow_restores_income_and_to_be_budgeted() {
    let (mut b, a, c) = basic_budget();
    let g = b.get_category(c).unwrap().category_group;
    let inflow = b.add_category(g, "Inflow: To Be Budgeted".to_string()).unwrap();
    b.set_inflow_category(inflow).unwrap();
    b.record_transaction(tx(
        day(JAN, 1),
        90_000,
        a,
        Some(inflow),
        None,
        ClearedStatus::Cleared,
    ))
    .unwrap();
    b.advance_month(FEB).unwrap();
    b.reverse_transaction(0).unwrap();
    assert_eq!(b.get_month(JAN).unwrap().income, 0);
    assert_eq!(b.get_month(JAN).unwrap().to_be_budgeted, 0);
    assert_eq!(b.get_month(FEB).unwrap().to_be_budgeted, 0);
    assert_eq!(b.get_account(a, false).unwrap().balance, 0);
}
