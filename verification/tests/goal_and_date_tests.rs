use envelope_budget::budget::Budget;
use envelope_budget::dates::{date_from_ymd, day_number_of, days_in_month_exec, Date, MonthKey};
use envelope_budget::entities::{
    AccountId, AccountKind, ClearedStatus, Goal, GoalKind, PayeeId, Transaction,
};
use envelope_budget::goals::{evaluate_goal, GoalReport};
use envelope_budget::dates::{next_month, today};
use envelope_budget::money::{milli_add, milli_neg, milli_sub, split_evenly};

const JAN: MonthKey = MonthKey { year: 2021, month: 1 };

fn simple_tx(date: Date, amount: i64, cleared: ClearedStatus) -> Transaction {
    Transaction {
        date,
        amount,
        account: AccountId(0),
        payee: PayeeId(0),
        category: Some(envelope_budget::entities::CategoryId(0)),
        transfer_account: None,
        memo: String::new(),
        cleared,
        approved: true,
        flag_color: None,
    }
}

#[test]
fn split_evenly_distributes_remainder_to_first_parts() {
    assert_eq!(split_evenly(120_000, 3), vec![40_000, 40_000, 40_000]);
    assert_eq!(split_evenly(100_000, 3), vec![33_334, 33_333, 33_333]);
    assert_eq!(split_evenly(7, 3), vec![3, 2, 2]);
    assert_eq!(split_evenly(0, 4), vec![0, 0, 0, 0]);
    let parts = split_evenly(1_000_001, 7);
    assert_eq!(parts.iter().sum::<i64>(), 1_000_001);
}

#[test]
fn scenario_dated_target_splits_needed_funding_evenly() {
    let goal = Goal {
        kind: GoalKind::TargetCategoryBalanceByDate {
            target_balance: 120_000,
            by_date: MonthKey { year: 2021, month: 4 },
        },
        creation_month: JAN,
    };
    match evaluate_goal(&goal, 0, 0, JAN) {
        GoalReport::FundingPlan { per_month } => {
            assert_eq!(per_month, vec![40_000, 40_000, 40_000]);
        }
        _ => panic!("expected a funding plan"),
    }
}

#[test]
fn dated_target_reports_overdue_or_met() {
    let goal = Goal {
        kind: GoalKind::TargetCategoryBalanceByDate {
            target_balance: 120_000,
            by_date: MonthKey { year: 2020, month: 11 },
        },
        creation_month: JAN,
    };
    assert!(matches!(evaluate_goal(&goal, 0, 0, JAN), GoalReport::Overdue));
    match evaluate_goal(&goal, 120_000, 0, JAN) {
        GoalReport::FundingPlan { per_month } => assert!(per_month.is_empty()),
        _ => panic!("a met target yields an empty plan"),
    }
}

#[test]
fn target_progress_is_capped_per_mille() {
    let goal = Goal {
        kind: GoalKind::TargetCategoryBalance { target_balance: 100_000 },
        creation_month: JAN,
    };
    assert!(matches!(
        evaluate_goal(&goal, 50_000, 0, JAN),
        GoalReport::Progress { per_mille: 500 }
    ));
    assert!(matches!(
        evaluate_goal(&goal, -3, 0, JAN),
        GoalReport::Progress { per_mille: 0 }
    ));
    assert!(matches!(
        evaluate_goal(&goal, 250_000, 0, JAN),
        GoalReport::Progress { per_mille: 1000 }
    ));
    assert!(matches!(
        evaluate_goal(&goal, 33_333, 0, JAN),
        GoalReport::Progress { per_mille: 333 }
    ));
}

#[test]
fn monthly_funding_reports_what_is_still_needed() {
    let goal = Goal {
        kind: GoalKind::MonthlyFunding { funding_balance: 50_000 },
        creation_month: JAN,
    };
    assert!(matches!(
        evaluate_goal(&goal, 0, 20_000, JAN),
        GoalReport::MonthlyNeeded { amount: 30_000 }
    ));
    assert!(matches!(
        evaluate_goal(&goal, 0, 80_000, JAN),
        GoalReport::MonthlyNeeded { amount: 0 }
    ));
}

#[test]
fn goals_attach_to_categories() {
    let mut b = Budget::with_name("B".to_string());
    let g = b.add_category_group("G".to_string());
    let c = b.add_category(g, "Vacation".to_string()).unwrap();
    let goal = Goal {
        kind: GoalKind::TargetCategoryBalance { target_balance: 9_000 },
        creation_month: JAN,
    };
    b.set_category_goal(c, goal).unwrap();
    assert!(b.get_category(c).unwrap().goal.is_some());
}

#[test]
fn day_numbers_follow_the_proleptic_gregorian_calendar() {
    let epoch = date_from_ymd(1970, 1, 1).unwrap();
    assert_eq!(day_number_of(epoch), 719_528);
    let next = date_from_ymd(1970, 1, 2).unwrap();
    assert_eq!(day_number_of(next), 719_529);
    let mar = date_from_ymd(2020, 3, 1).unwrap();
    let feb = date_from_ymd(2020, 2, 1).unwrap();
    assert_eq!(day_number_of(mar) - day_number_of(feb), 29);
}

#[test]
fn month_lengths_respect_leap_years() {
    assert_eq!(days_in_month_exec(2024, 2), 29);
    assert_eq!(days_in_month_exec(1900, 2), 28);
    assert_eq!(days_in_month_exec(2000, 2), 29);
    assert_eq!(days_in_month_exec(2021, 4), 30);
    assert_eq!(days_in_month_exec(2021, 12), 31);
}

#[test]
fn dates_are_validated_on_construction() {
    assert!(date_from_ymd(2021, 2, 29).is_none());
    assert!(date_from_ymd(2021, 13, 1).is_none());
    assert!(date_from_ymd(2021, 0, 1).is_none());
    assert!(date_from_ymd(-5, 1, 1).is_none());
    assert!(date_from_ymd(10_000, 1, 1).is_none());
    let d = date_from_ymd(2024, 2, 29).unwrap();
    assert_eq!(d.ym.year, 2024);
    assert_eq!(d.ym.month, 2);
    assert_eq!(d.day, 29);
}

#[test]
fn age_of_money_measures_oldest_unspent_inflow() {
    let mut b = Budget::with_name("B".to_string());
    let a = b.add_account("A".to_string(), AccountKind::Checking, true);
    let g = b.add_category_group("G".to_string());
    let c = b.add_category(g, "X".to_string()).unwrap();
    b.advance_month(JAN).unwrap();
    let mut t1 = simple_tx(Date { ym: JAN, day: 1 }, 100_000, ClearedStatus::Cleared);
    t1.account = a;
    t1.category = Some(c);
    b.record_transaction(t1).unwrap();
    let mut t2 = simple_tx(Date { ym: JAN, day: 10 }, -30_000, ClearedStatus::Cleared);
    t2.account = a;
    t2.category = Some(c);
    b.record_transaction(t2).unwrap();
    let report = Date { ym: JAN, day: 21 };
    // 30000 of the 100000 from the 1st is spent; the oldest unspent
    // milliunit still dates from the 1st, twenty days before the report.
    assert_eq!(b.age_of_money(report), Some(20));
    // A later inflow does not change the source of the oldest money.
    let mut t3 = simple_tx(Date { ym: JAN, day: 15 }, 50_000, ClearedStatus::Cleared);
    t3.account = a;
    t3.category = Some(c);
    b.record_transaction(t3).unwrap();
    assert_eq!(b.age_of_money(report), Some(20));
}

#[test]
fn age_of_money_skips_exhausted_inflows() {
    let mut b = Budget::with_name("B".to_string());
    let a = b.add_account("A".to_string(), AccountKind::Checking, true);
    let g = b.add_category_group("G".to_string());
    let c = b.add_category(g, "X".to_string()).unwrap();
    b.advance_month(JAN).unwrap();
    let mut t1 = simple_tx(Date { ym: JAN, day: 1 }, 100_000, ClearedStatus::Cleared);
    t1.account = a;
    t1.category = Some(c);
    b.record_transaction(t1).unwrap();
    let mut t2 = simple_tx(Date { ym: JAN, day: 8 }, -100_000, ClearedStatus::Cleared);
    t2.account = a;
    t2.category = Some(c);
    b.record_transaction(t2).unwrap();
    let report = Date { ym: JAN, day: 20 };
    // The first inflow is exactly exhausted and no money is left.
    assert_eq!(b.age_of_money(report), None);
    let mut t3 = simple_tx(Date { ym: JAN, day: 12 }, 40_000, ClearedStatus::Cleared);
    t3.account = a;
    t3.category = Some(c);
    b.record_transaction(t3).unwrap();
    // Now the oldest unspent milliunit came in on the 12th.
    assert_eq!(b.age_of_money(report), Some(8));
    // Uncleared inflows never count.
    let mut t4 = simple_tx(Date { ym: JAN, day: 2 }, 5_000, ClearedStatus::Uncleared);
    t4.account = a;
    t4.category = Some(c);
    b.record_transaction(t4).unwrap();
    assert_eq!(b.age_of_money(report), Some(8));
}

#[test]
fn age_of_money_is_stored_on_demand() {
    let mut b = Budget::with_name("B".to_string());
    let a = b.add_account("A".to_string(), AccountKind::Checking, true);
    let g = b.add_category_group("G".to_string());
    let c = b.add_category(g, "X".to_string()).unwrap();
    b.advance_month(JAN).unwrap();
    let mut t1 = simple_tx(Date { ym: JAN, day: 3 }, 10_000, ClearedStatus::Reconciled);
    t1.account = a;
    t1.category = Some(c);
    b.record_transaction(t1).unwrap();
    b.update_age_of_money(JAN, Date { ym: JAN, day: 13 }).unwrap();
    assert_eq!(b.get_month(JAN).unwrap().age_of_money, 10);
    let missing = b.update_age_of_money(
        MonthKey { year: 2022, month: 5 },
        Date { ym: JAN, day: 13 },
    );
    assert!(missing.is_err());
}

#[test]
fn next_month_rolls_december_into_january() {
    let dec = MonthKey { year: 2020, month: 12 };
    assert_eq!(next_month(dec), MonthKey { year: 2021, month: 1 });
    assert_eq!(next_month(JAN), MonthKey { year: 2021, month: 2 });
}

#[test]
fn milliunit_arithmetic_is_exact() {
    assert_eq!(milli_add(1_500, -2_250), -750);
    assert_eq!(milli_sub(1_000, 250), 750);
    assert_eq!(milli_neg(-42), 42);
}

#[test]
fn todays_date_is_well_formed() {
    let d = today().expect("the system clock is within the supported years");
    assert!((1..=12).contains(&d.ym.month));
    assert!(d.day >= 1);
    assert!(d.day <= days_in_month_exec(d.ym.year, d.ym.month));
    assert!(d.ym.year <= 9999);
}
