//! The entities the ledger owns: accounts, payees, category groups,
//! categories, months, transactions, and the identifiers that address
//! them. All monetary fields are signed 64-bit milliunit amounts.

use vstd::prelude::*;
use crate::dates::{Date, MonthKey};

verus! {

/// Identifies an account within one budget.
#[derive(Clone, Copy, PartialEq, Eq, Structural, Debug)]
pub struct AccountId(pub usize);

/// Identifies a payee within one budget.
#[derive(Clone, Copy, PartialEq, Eq, Structural, Debug)]
pub struct PayeeId(pub usize);

/// Identifies a category group within one budget.
#[derive(Clone, Copy, PartialEq, Eq, Structural, Debug)]
pub struct CategoryGroupId(pub usize);

/// Identifies a category within one budget.
#[derive(Clone, Copy, PartialEq, Eq, Structural, Debug)]
pub struct CategoryId(pub usize);

/// What failed, when a ledger operation refuses its input.
#[derive(Clone, Copy, PartialEq, Eq, Structural, Debug)]
pub enum BudgetError {
    /// An identifier does not name a live entity of the budget.
    NotFound,
    /// A mutation was attempted against a closed account.
    ClosedAccount,
    /// A transaction names both a category and a transfer account, or neither.
    InvalidTransaction,
    /// A month was created out of sequence.
    MonthOutOfOrder,
}

/// The type of account.
#[derive(Clone, Copy, PartialEq, Eq, Structural, Debug)]
pub enum AccountKind {
    Checking,
    Savings,
    Cash,
    CreditCard,
    LineOfCredit,
    OtherAsset,
    OtherLiability,
}

/// An account holds a currency balance that may be used on a budget.
#[derive(Debug)]
pub struct Account {
    /// A descriptive name for this account.
    pub name: String,
    /// The type of account.
    pub kind: AccountKind,
    /// Whether this account is on budget or not.
    pub on_budget: bool,
    /// Whether this account is closed or not.
    pub is_closed: bool,
    /// A description for this account.
    pub note: String,
    /// The current balance of the account in milliunits.
    pub balance: i64,
    /// The cleared part of the balance in milliunits.
    pub cleared_balance: i64,
    /// The uncleared part of the balance in milliunits.
    pub uncleared_balance: i64,
    /// Whether or not this account has been deleted.
    pub is_deleted: bool,
}

impl Account {
    /// The account's one numeric invariant: the balance splits exactly
    /// into its cleared and uncleared parts.
    pub open spec fn balanced(self) -> bool {
        self.balance == self.cleared_balance + self.uncleared_balance
    }
}

/// Someone money is paid to or received from. A payee that carries a
/// transfer-account reference denotes the counter-party of
/// account-to-account transfers.
#[derive(Debug)]
pub struct Payee {
    pub name: String,
    pub transfer_account: Option<AccountId>,
    pub is_deleted: bool,
}

/// A named, hideable group of categories.
#[derive(Debug)]
pub struct CategoryGroup {
    pub name: String,
    pub is_hidden: bool,
    pub is_deleted: bool,
}

/// One category's budgeted, activity and balance figures for one month,
/// in milliunits. The entries of a category line up with the budget's
/// months, index for index.
#[derive(Clone, Copy, PartialEq, Eq, Structural, Debug)]
pub struct CategoryMonth {
    /// Amount allocated to the category in the month.
    pub budgeted: i64,
    /// Net amount of the month's transactions in the category
    /// (negative for spending).
    pub activity: i64,
    /// Amount left in the envelope at the end of the month.
    pub balance: i64,
}

/// The kind of goal a category can carry, fixed at creation.
#[derive(Clone, Copy, PartialEq, Eq, Structural, Debug)]
pub enum GoalKind {
    /// Reach a target balance, with no deadline.
    TargetCategoryBalance { target_balance: i64 },
    /// Reach a target balance by a given month.
    TargetCategoryBalanceByDate { target_balance: i64, by_date: MonthKey },
    /// Allocate a fixed amount every month.
    MonthlyFunding { funding_balance: i64 },
}

/// A funding goal attached to a category. Progress is derived on
/// demand, never stored.
#[derive(Clone, Copy, PartialEq, Eq, Structural, Debug)]
pub struct Goal {
    pub kind: GoalKind,
    pub creation_month: MonthKey,
}

/// An envelope: money is budgeted into it and spending is charged
/// against it, month by month.
#[derive(Debug)]
pub struct Category {
    /// The group that owns this category.
    pub category_group: CategoryGroupId,
    pub name: String,
    pub is_hidden: bool,
    pub note: String,
    /// Per-month figures, aligned with the budget's month sequence.
    pub monthly: Vec<CategoryMonth>,
    /// The category goal, if any.
    pub goal: Option<Goal>,
}

impl Category {
    /// Everything but the per-month figures is unchanged between two
    /// category states.
    pub open spec fn same_meta(self, other: Category) -> bool {
        &&& other.category_group == self.category_group
        &&& other.name == self.name
        &&& other.is_hidden == self.is_hidden
        &&& other.note == self.note
        &&& other.goal == self.goal
    }
}

/// A transaction's settlement state, used to split an account's balance
/// into confirmed and pending parts.
#[derive(Clone, Copy, PartialEq, Eq, Structural, Debug)]
pub enum ClearedStatus {
    Cleared,
    Uncleared,
    Reconciled,
}

impl ClearedStatus {
    /// Whether the status routes an amount into the cleared part of an
    /// account's balance (a reconciled amount counts as cleared).
    pub open spec fn counts_as_cleared(self) -> bool {
        self is Cleared || self is Reconciled
    }
}

/// One movement of money: into or out of an account and, unless it is
/// an account-to-account transfer, against a category and its month.
#[derive(Debug)]
pub struct Transaction {
    pub date: Date,
    /// The transaction amount in milliunits.
    pub amount: i64,
    pub account: AccountId,
    pub payee: PayeeId,
    /// The category charged; absent exactly for transfers.
    pub category: Option<CategoryId>,
    /// The receiving account of a transfer; absent otherwise.
    pub transfer_account: Option<AccountId>,
    pub memo: String,
    pub cleared: ClearedStatus,
    pub approved: bool,
    pub flag_color: Option<String>,
}

impl Transaction {
    /// Exactly one of the category and the transfer account is given.
    pub open spec fn shape_ok(self) -> bool {
        self.category is Some <==> self.transfer_account is None
    }

    /// Whether the transaction is an account-to-account transfer.
    pub open spec fn is_transfer(self) -> bool {
        self.transfer_account is Some
    }
}

/// A transaction as the ledger keeps it: the details as committed, the
/// month it was posted against, and a soft-delete flag set when the
/// transaction is reversed.
#[derive(Debug)]
pub struct PostedTransaction {
    pub details: Transaction,
    /// Index of the owning month at commit time; meaningful only for
    /// non-transfer transactions.
    pub month_index: usize,
    /// Whether the transaction was posted to the designated inflow
    /// category, feeding the month's income; recorded so a reversal
    /// undoes exactly what the commit did.
    pub is_inflow: bool,
    /// Whether the transaction has been reversed out of the ledger.
    pub is_reversed: bool,
}

/// One month of the budget with its rollup aggregates, all in
/// milliunits.
#[derive(Debug)]
pub struct Month {
    /// The calendar month this entry covers.
    pub month: MonthKey,
    pub note: String,
    /// Total of the month's transactions categorized to the designated
    /// inflow category.
    pub income: i64,
    /// Total amount budgeted in the month.
    pub budgeted: i64,
    /// Total of the month's transactions, excluding inflow ones.
    pub activity: i64,
    /// The amount still available for budgeting as of the month.
    pub to_be_budgeted: i64,
    /// The age of money as of the month, in days; refreshed on demand.
    pub age_of_money: i64,
    /// Whether or not the month has been deleted.
    pub is_deleted: bool,
}

/// The date format setting for the budget.
pub struct DateFormat(pub String);

/// The supported currency ISO codes.
#[derive(Clone, Copy, PartialEq, Eq, Structural, Debug)]
pub enum CurrencyIsoCode {
    Eur,
    Brl,
    Usd,
}

/// The currency separators for decimals and groups.
#[derive(Clone, Copy, PartialEq, Eq, Structural, Debug)]
pub enum Separator {
    Comma,
    Period,
}

/// The currency format setting for the budget.
pub struct CurrencyFormat {
    pub iso_code: CurrencyIsoCode,
    pub dec_digits: i32,
    pub dec_sep: Separator,
    pub symbol_first: bool,
    pub group_sep: Separator,
    pub currency_symbol: String,
    pub display_symbol: bool,
}

/// The customizable options for the budget.
pub struct BudgetSettings {
    pub date_format: DateFormat,
    pub currency_format: CurrencyFormat,
}

impl Default for BudgetSettings {
    /// Year-month-day dates and symbol-first US dollars with two
    /// decimal digits, a period decimal separator and comma grouping.
    fn default() -> (r: BudgetSettings)
        ensures
            r.date_format.0@ == "%Y-%m-%d"@,
            r.currency_format.iso_code == CurrencyIsoCode::Usd,
            r.currency_format.dec_digits == 2,
            r.currency_format.dec_sep == Separator::Period,
            r.currency_format.symbol_first,
            r.currency_format.group_sep == Separator::Comma,
            r.currency_format.currency_symbol@ == "US$"@,
            r.currency_format.display_symbol,
    {
        BudgetSettings {
            date_format: DateFormat(String::from_str("%Y-%m-%d")),
            currency_format: CurrencyFormat {
                iso_code: CurrencyIsoCode::Usd,
                dec_digits: 2,
                dec_sep: Separator::Period,
                symbol_first: true,
                group_sep: Separator::Comma,
                currency_symbol: String::from_str("US$"),
                display_symbol: true,
            },
        }
    }
}

} // verus!
